//! The schedule-lookup logic: given the decoded response of the
//! schedule-by-week endpoint and the queried period, keep exactly the games
//! of the days that fall inside the period.  The upstream window is not
//! guaranteed to match the request, so every returned day is post-filtered.

use crate::dates::is_date_key;
use crate::dates::key_date;
use crate::dates::parse_date;
use crate::errors::PipelineError;
use crate::period::period_contains;
use crate::period::WeekOrShorterPeriod;
use vstd::prelude::*;

verus! {

/// One scheduled game as the schedule endpoint reports it.  Field names
/// follow the upstream schema.
#[allow(non_snake_case)]
#[derive(Debug)]
pub struct Game {
    pub id: u32,
    pub season: u32,
    pub startTimeUTC: String,
    pub venueUTCOffset: String,
}

/// The mathematical image of a [`Game`].
pub ghost struct GameView {
    pub id: u32,
    pub season: u32,
    pub start_time_utc: Seq<char>,
    pub venue_utc_offset: Seq<char>,
}

impl View for Game {
    type V = GameView;

    open spec fn view(&self) -> GameView {
        GameView {
            id: self.id,
            season: self.season,
            start_time_utc: self.startTimeUTC@,
            venue_utc_offset: self.venueUTCOffset@,
        }
    }
}

impl Clone for Game {
    fn clone(&self) -> (r: Game)
        ensures
            r == *self,
    {
        Game {
            id: self.id,
            season: self.season,
            startTimeUTC: self.startTimeUTC.clone(),
            venueUTCOffset: self.venueUTCOffset.clone(),
        }
    }
}

/// The games on one calendar date of the schedule response.
#[derive(Debug)]
pub struct GameDaySchedule {
    pub date: String,
    pub games: Vec<Game>,
}

/// The mathematical image of a [`GameDaySchedule`].
pub ghost struct GameDayView {
    pub date: Seq<char>,
    pub games: Seq<GameView>,
}

impl View for GameDaySchedule {
    type V = GameDayView;

    open spec fn view(&self) -> GameDayView {
        GameDayView { date: self.date@, games: self.games@.map_values(|g: Game| g@) }
    }
}

/// The entire response of the schedule-by-week endpoint.
#[allow(non_snake_case)]
#[derive(Debug)]
pub struct ScheduleResponse {
    pub gameWeek: Vec<GameDaySchedule>,
}

impl View for ScheduleResponse {
    type V = Seq<GameDayView>;

    open spec fn view(&self) -> Seq<GameDayView> {
        self.gameWeek@.map_values(|d: GameDaySchedule| d@)
    }
}

/// Whether every day bucket of the response carries a well-formed
/// `YYYY-MM-DD` date.
pub open spec fn all_day_dates_parse(days: Seq<GameDayView>) -> bool {
    forall|i: int| 0 <= i < days.len() ==> is_date_key(days[i].date)
}

/// The games of the day buckets whose date falls within `p`: upstream day
/// order, then upstream game order within a day.
pub open spec fn games_in_period(days: Seq<GameDayView>, p: WeekOrShorterPeriod) -> Seq<GameView>
    decreases days.len(),
{
    if days.len() == 0 {
        Seq::empty()
    } else {
        games_in_period(days.drop_last(), p) + (if period_contains(
            p,
            key_date(days.last().date),
        ) {
            days.last().games
        } else {
            Seq::empty()
        })
    }
}

/// Keep the games of each returned day whose date falls within the queried
/// period.  Fails with `ScheduleLookupFailed` exactly when some day of the
/// response carries a date that is not a `YYYY-MM-DD` date; the whole period
/// is then skipped by the caller, with no partial result.
pub fn select_games_in_period(week: &WeekOrShorterPeriod, sched_resp: &ScheduleResponse) -> (r:
    Result<Vec<Game>, PipelineError>)
    requires
        week.wf(),
    ensures
        (r is Ok) <==> all_day_dates_parse(sched_resp@),
        r is Ok ==> r->Ok_0@.map_values(|g: Game| g@) == games_in_period(sched_resp@, *week),
        r is Err ==> (r->Err_0 matches PipelineError::ScheduleLookupFailed { .. }),
{
    let ghost days = sched_resp@;
    let mut games: Vec<Game> = Vec::new();
    let n = sched_resp.gameWeek.len();
    let mut i: usize = 0;
    while i < n
        invariant
            i <= n,
            n == sched_resp.gameWeek.len(),
            days == sched_resp@,
            week.wf(),
            forall|k: int| 0 <= k < i ==> is_date_key(days[k].date),
            games@.map_values(|g: Game| g@) == games_in_period(days.take(i as int), *week),
        decreases n - i,
    {
        let day = &sched_resp.gameWeek[i];
        proof {
            assert(days[i as int] == sched_resp.gameWeek@[i as int]@);
        }
        let game_date = match parse_date(day.date.as_str()) {
            Some(d) => d,
            None => {
                return Err(
                    PipelineError::ScheduleLookupFailed {
                        detail: String::from_str("a day of the schedule response has an invalid date"),
                    },
                );
            },
        };
        proof {
            assert(days[i as int] == day@);
            assert(game_date == key_date(days[i as int].date));
        }
        if week.within(&game_date) {
            let m = day.games.len();
            let mut j: usize = 0;
            while j < m
                invariant
                    j <= m,
                    m == day.games.len(),
                    games@.map_values(|g: Game| g@) == games_in_period(days.take(i as int), *week)
                        + day@.games.take(j as int),
                decreases m - j,
            {
                let ghost pre = games@;
                let g = day.games[j].clone();
                games.push(g);
                proof {
                    assert(games@ == pre.push(g));
                    assert(games@.map_values(|x: Game| x@) =~= pre.map_values(|x: Game| x@).push(
                        g@,
                    ));
                    assert(day@.games.take(j + 1) =~= day@.games.take(j as int).push(
                        day.games@[j as int]@,
                    ));
                    assert(games@.map_values(|x: Game| x@) =~= games_in_period(
                        days.take(i as int),
                        *week,
                    ) + day@.games.take(j + 1));
                }
                j = j + 1;
            }
            proof {
                assert(day@.games.take(m as int) =~= day@.games);
                assert(days.take(i + 1).drop_last() =~= days.take(i as int));
                assert(days.take(i + 1).last() == days[i as int]);
                assert(games@.map_values(|g: Game| g@) =~= games_in_period(
                    days.take(i + 1),
                    *week,
                ));
            }
        } else {
            proof {
                assert(days.take(i + 1).drop_last() =~= days.take(i as int));
                assert(days.take(i + 1).last() == days[i as int]);
                assert(games@.map_values(|g: Game| g@) =~= games_in_period(
                    days.take(i + 1),
                    *week,
                ));
            }
        }
        i = i + 1;
    }
    proof {
        assert(days.take(n as int) =~= days);
    }
    Ok(games)
}

} // verus!
