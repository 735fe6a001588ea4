//! Orchestration: the per-game plan (everything a driver must fetch and
//! write for one game), the per-game primary/fallback state machine, and the
//! decomposition of a date range into fixed-stride schedule-query windows.
//! The driver performs the fetches and writes; every decision is made here.

use crate::artifact::export_json;
use crate::artifact::export_to_json;
use crate::artifact::game_folder;
use crate::artifact::goal_artifact_path;
use crate::artifact::goal_tracking_url;
use crate::artifact::make_game_path;
use crate::artifact::make_goal_artifact_path;
use crate::artifact::tracking_url;
use crate::dates::day_index;
use crate::dates::is_date_key;
use crate::dates::key_date;
use crate::dates::lemma_day_index_range;
use crate::dates::max_date;
use crate::dates::parse_date;
use crate::dates::Date;
use crate::errors::error_text;
use crate::errors::PipelineError;
use crate::extract::canonical_goals;
use crate::extract::event_source_goals;
use crate::extract::extract_export_game_data;
use crate::extract::flat_summary_goals;
use crate::extract::has_offending_goal;
use crate::extract::parse_goal_data;
use crate::extract::summary_sides_ok;
use crate::extract::GameExportData;
use crate::extract::GameExportView;
use crate::extract::GoalView;
use crate::extract::LandingResponse;
use crate::extract::LandingView;
use crate::extract::PbpResponse;
use crate::extract::PbpView;
use crate::period::WeekOrShorterPeriod;
use vstd::arithmetic::div_mod::lemma_div_is_ordered;
use vstd::arithmetic::div_mod::lemma_fundamental_div_mod;
use vstd::arithmetic::div_mod::lemma_fundamental_div_mod_converse;
use vstd::prelude::*;

verus! {

// ---------------------------------------------------------------------------
// The per-game plan.
// ---------------------------------------------------------------------------
/// One tracking artifact to retrieve and persist: where to fetch it from and
/// where to write it.
#[derive(Debug)]
pub struct GoalJob {
    pub output_path: String,
    pub url: String,
}

/// The mathematical image of a [`GoalJob`].
pub ghost struct GoalJobView {
    pub output_path: Seq<char>,
    pub url: Seq<char>,
}

impl View for GoalJob {
    type V = GoalJobView;

    open spec fn view(&self) -> GoalJobView {
        GoalJobView { output_path: self.output_path@, url: self.url@ }
    }
}

/// Everything a driver must do for one successfully extracted game: create
/// the folder, fetch and write each goal job, write the canonical artifact.
#[derive(Debug)]
pub struct GamePlan {
    pub game_id: u32,
    pub season: u32,
    pub game_date: Date,
    pub folder: String,
    pub export: GameExportData,
    pub artifact_json: String,
    pub goal_jobs: Vec<GoalJob>,
}

/// The mathematical image of a [`GamePlan`].
pub ghost struct GamePlanView {
    pub game_id: u32,
    pub season: u32,
    pub game_date: Date,
    pub folder: Seq<char>,
    pub export: GameExportView,
    pub artifact: Seq<char>,
    pub jobs: Seq<GoalJobView>,
}

impl View for GamePlan {
    type V = GamePlanView;

    open spec fn view(&self) -> GamePlanView {
        GamePlanView {
            game_id: self.game_id,
            season: self.season,
            game_date: self.game_date,
            folder: self.folder@,
            export: self.export@,
            artifact: self.artifact_json@,
            jobs: self.goal_jobs@.map_values(|j: GoalJob| j@),
        }
    }
}

/// The job of one canonical goal.
pub open spec fn goal_job_of(folder: Seq<char>, season: u32, game_id: u32, g: GoalView) -> GoalJobView {
    GoalJobView {
        output_path: goal_artifact_path(folder, g.event_id),
        url: tracking_url(season, game_id, g),
    }
}

/// One job per canonical goal, in goal order.
pub open spec fn goal_jobs_of(
    folder: Seq<char>,
    season: u32,
    game_id: u32,
    goals: Seq<GoalView>,
) -> Seq<GoalJobView> {
    goals.map_values(|g: GoalView| goal_job_of(folder, season, game_id, g))
}

/// The plan of a game whose data was already extracted and dated.
pub open spec fn plan_of(
    game_id: u32,
    season: u32,
    game_date: Date,
    export: GameExportView,
    out: Seq<char>,
) -> GamePlanView {
    GamePlanView {
        game_id,
        season,
        game_date,
        folder: game_folder(out, game_date, game_id),
        export,
        artifact: export_json(export),
        jobs: goal_jobs_of(game_folder(out, game_date, game_id), season, game_id, export.goals),
    }
}

/// Assemble the plan of one extracted game.
fn build_plan(
    game_id: u32,
    season: u32,
    game_date: Date,
    export: GameExportData,
    output_folder: &str,
) -> (r: GamePlan)
    requires
        game_date.valid(),
    ensures
        r@ == plan_of(game_id, season, game_date, export@, output_folder@),
{
    let folder = make_game_path(output_folder, &game_date, game_id);
    let artifact_json = export_to_json(&export);
    let ghost goals_view = export@.goals;
    let mut goal_jobs: Vec<GoalJob> = Vec::new();
    let n = export.goals.len();
    let mut j: usize = 0;
    while j < n
        invariant
            j <= n,
            n == export.goals.len(),
            goals_view == export@.goals,
            folder@ == game_folder(output_folder@, game_date, game_id),
            goal_jobs@.map_values(|x: GoalJob| x@) == goal_jobs_of(
                folder@,
                season,
                game_id,
                goals_view.take(j as int),
            ),
        decreases n - j,
    {
        proof {
            assert(goals_view[j as int] == export.goals@[j as int]@);
        }
        let output_path = make_goal_artifact_path(folder.as_str(), export.goals[j].event_id);
        let url = goal_tracking_url(season, game_id, &export.goals[j]);
        let ghost pre = goal_jobs@;
        goal_jobs.push(GoalJob { output_path, url });
        proof {
            assert(goal_jobs@ == pre.push(goal_jobs@.last()));
            assert(goal_jobs@.map_values(|x: GoalJob| x@) =~= pre.map_values(|x: GoalJob| x@).push(
                goal_jobs@.last()@,
            ));
            assert(goal_jobs@.last()@ == goal_job_of(
                folder@,
                season,
                game_id,
                goals_view[j as int],
            ));
            assert(goal_jobs@.map_values(|x: GoalJob| x@) =~= goal_jobs_of(
                folder@,
                season,
                game_id,
                goals_view.take(j + 1),
            ));
        }
        j = j + 1;
    }
    proof {
        assert(goals_view.take(n as int) =~= goals_view);
    }
    GamePlan { game_id, season, game_date, folder, export, artifact_json, goal_jobs }
}

/// When the primary (summary) source yields a plan: its game date parses and
/// every non-shootout goal entry names a recognized side.
pub open spec fn landing_ok(l: LandingView) -> bool {
    &&& is_date_key(l.game_date)
    &&& summary_sides_ok(flat_summary_goals(l.periods, l.home_team, l.away_team))
}

/// The plan the primary source yields.
pub open spec fn landing_plan(l: LandingView, out: Seq<char>) -> GamePlanView {
    plan_of(
        l.id,
        l.season,
        key_date(l.game_date),
        GameExportView {
            goals: canonical_goals(flat_summary_goals(l.periods, l.home_team, l.away_team)),
            home_team_id: l.home_team,
        },
        out,
    )
}

/// When the fallback (event-stream) source yields a plan: its game date
/// parses; its extraction itself never fails.
pub open spec fn pbp_ok(p: PbpView) -> bool {
    is_date_key(p.game_date)
}

/// The plan the fallback source yields.
pub open spec fn pbp_plan(p: PbpView, out: Seq<char>) -> GamePlanView {
    plan_of(
        p.id,
        p.season,
        key_date(p.game_date),
        GameExportView {
            goals: canonical_goals(event_source_goals(p.plays)),
            home_team_id: p.home_team,
        },
        out,
    )
}

/// Turn a landing response into the plan of its game: parse the game date,
/// extract the canonical data, derive folder, artifact text and goal jobs.
pub fn plan_from_landing(landing_resp: &LandingResponse, output_folder: &str) -> (r: Result<
    GamePlan,
    PipelineError,
>)
    ensures
        (r is Ok) <==> landing_ok(landing_resp@),
        r is Ok ==> r->Ok_0@ == landing_plan(landing_resp@, output_folder@),
        r is Err && !is_date_key(landing_resp@.game_date) ==> r->Err_0
            == (PipelineError::InvalidGameDate { game_id: landing_resp@.id }),
        r is Err && is_date_key(landing_resp@.game_date) ==> (r->Err_0
            matches PipelineError::InvalidDefendingSide { event_id, game_id } && game_id
            == landing_resp@.id && has_offending_goal(
            flat_summary_goals(
                landing_resp@.periods,
                landing_resp@.home_team,
                landing_resp@.away_team,
            ),
            event_id,
        )),
{
    let game_date = match parse_date(landing_resp.gameDate.as_str()) {
        Some(d) => d,
        None => {
            return Err(PipelineError::InvalidGameDate { game_id: landing_resp.id });
        },
    };
    let export = match extract_export_game_data(landing_resp) {
        Ok(data) => data,
        Err(e) => {
            return Err(e);
        },
    };
    Ok(build_plan(landing_resp.id, landing_resp.season, game_date, export, output_folder))
}

/// Turn a play-by-play response into the plan of its game.
pub fn plan_from_pbp(pbp: PbpResponse, output_folder: &str) -> (r: Result<GamePlan, PipelineError>)
    ensures
        (r is Ok) <==> pbp_ok(pbp@),
        r is Ok ==> r->Ok_0@ == pbp_plan(pbp@, output_folder@),
        r is Err ==> r->Err_0 == (PipelineError::InvalidGameDate { game_id: pbp@.id }),
{
    let game_date = match parse_date(pbp.gameDate.as_str()) {
        Some(d) => d,
        None => {
            return Err(PipelineError::InvalidGameDate { game_id: pbp.id });
        },
    };
    let game_id = pbp.id;
    let season = pbp.season;
    let export = parse_goal_data(pbp);
    Ok(build_plan(game_id, season, game_date, export, output_folder))
}

// ---------------------------------------------------------------------------
// The per-game state machine.
// ---------------------------------------------------------------------------
/// The orchestration state of one game: try the primary (summary) source;
/// on any failure retain its cause and try the fallback (event stream); on a
/// second failure compose both causes.
#[derive(Debug)]
pub enum GameRunState {
    TryPrimary,
    TryFallback { primary_error: String },
    Succeeded { plan: GamePlan },
    Failed { error: PipelineError },
}

/// What the driver hands back to the machine: the outcome of the fetch the
/// current state asked for.  A transport or decode failure arrives as text.
#[derive(Debug)]
pub enum GameFetchEvent {
    Primary(Result<LandingResponse, String>),
    Fallback(Result<PbpResponse, String>),
}

/// One transition of the per-game machine.  In `TryPrimary` the driver
/// fetches the landing response; in `TryFallback` the play-by-play response;
/// `Succeeded` and `Failed` are terminal.
pub fn game_step(state: GameRunState, event: GameFetchEvent, output_folder: &str) -> (next:
    GameRunState)
    requires
        (state is TryPrimary && event is Primary) || (state is TryFallback && event is Fallback),
    ensures
        state is TryPrimary ==> {
            &&& (event matches GameFetchEvent::Primary(Ok(l)) ==> {
                &&& landing_ok(l@) ==> (next matches GameRunState::Succeeded { plan } && plan@
                    == landing_plan(l@, output_folder@))
                &&& !landing_ok(l@) ==> (next matches GameRunState::TryFallback { .. })
            })
            &&& (event matches GameFetchEvent::Primary(Err(msg)) ==> next == (GameRunState::TryFallback {
                primary_error: msg,
            }))
        },
        state matches GameRunState::TryFallback { primary_error } ==> {
            &&& (event matches GameFetchEvent::Fallback(Ok(p)) ==> {
                &&& pbp_ok(p@) ==> (next matches GameRunState::Succeeded { plan } && plan@
                    == pbp_plan(p@, output_folder@))
                &&& !pbp_ok(p@) ==> (next matches GameRunState::Failed { error } && error
                    matches PipelineError::ExtractionFailed { primary, fallback } && primary
                    == primary_error && fallback@ == error_text(
                    PipelineError::InvalidGameDate { game_id: p@.id },
                ))
            })
            &&& (event matches GameFetchEvent::Fallback(Err(msg)) ==> next
                == (GameRunState::Failed {
                error: PipelineError::ExtractionFailed { primary: primary_error, fallback: msg },
            }))
        },
{
    match (state, event) {
        (GameRunState::TryPrimary, GameFetchEvent::Primary(Ok(landing))) => {
            match plan_from_landing(&landing, output_folder) {
                Ok(plan) => GameRunState::Succeeded { plan },
                Err(e) => GameRunState::TryFallback { primary_error: e.message() },
            }
        },
        (GameRunState::TryPrimary, GameFetchEvent::Primary(Err(msg))) => {
            GameRunState::TryFallback { primary_error: msg }
        },
        (GameRunState::TryFallback { primary_error }, GameFetchEvent::Fallback(Ok(pbp))) => {
            match plan_from_pbp(pbp, output_folder) {
                Ok(plan) => GameRunState::Succeeded { plan },
                Err(e) => GameRunState::Failed {
                    error: PipelineError::ExtractionFailed {
                        primary: primary_error,
                        fallback: e.message(),
                    },
                },
            }
        },
        (GameRunState::TryFallback { primary_error }, GameFetchEvent::Fallback(Err(msg))) => {
            GameRunState::Failed {
                error: PipelineError::ExtractionFailed { primary: primary_error, fallback: msg },
            }
        },
        (s, _) => s,
    }
}

// ---------------------------------------------------------------------------
// Range decomposition.
// ---------------------------------------------------------------------------
/// The end of a query window starting at day index `ws`: six days later,
/// clamped to the range end `e`.
pub open spec fn clamp_end(ws: int, e: int) -> int {
    if ws + 6 <= e {
        ws + 6
    } else {
        e
    }
}

/// What window `k` of a decomposed range looks like: it starts exactly
/// `7 * k` days after the range start — the stride is fixed even when the
/// queried window is clamped shorter — and ends six days later or at the
/// range end, whichever comes first.
pub open spec fn window_spec(w: WeekOrShorterPeriod, s: int, e: int, k: int) -> bool {
    &&& w.wf()
    &&& day_index(w.spec_start()) == s + 7 * k
    &&& day_index(w.spec_end()) == clamp_end(s + 7 * k, e)
}

/// How many windows an inclusive range decomposes into.
pub open spec fn range_window_count(start_date: Date, end_date: Date) -> int {
    if day_index(start_date) > day_index(end_date) {
        0
    } else {
        (day_index(end_date) - day_index(start_date)) / 7 + 1
    }
}

/// Step `d` forward to the given day index.
fn advance_to_index(d: Date, target: u32) -> (r: Date)
    requires
        d.valid(),
        day_index(d) <= target <= day_index(max_date()),
    ensures
        r.valid(),
        day_index(r) == target,
{
    let mut cur = d;
    let mut idx = cur.to_day_index();
    while idx < target
        invariant
            cur.valid(),
            idx == day_index(cur),
            idx <= target,
            target <= day_index(max_date()),
        decreases target - idx,
    {
        match cur.next_day() {
            Some(nd) => {
                cur = nd;
                idx = idx + 1;
            },
            None => {
                // Unreachable: `cur` would be the latest representable date,
                // yet its index is below `target`.
                proof {
                    assert(false);
                }
            },
        }
    }
    cur
}

/// Split an inclusive date range into the schedule-query windows that walk
/// it: window `k` starts `7 * k` days after the range start and ends at
/// `min(start + 7k + 6, end)`.  Only the tail window can be shorter than a
/// week; the stride never varies.
pub fn decompose_range(start_date: Date, end_date: Date) -> (r: Vec<WeekOrShorterPeriod>)
    requires
        start_date.valid(),
        end_date.valid(),
    ensures
        r@.len() == range_window_count(start_date, end_date),
        forall|k: int|
            0 <= k < r@.len() ==> window_spec(
                #[trigger] r@[k],
                day_index(start_date),
                day_index(end_date),
                k,
            ),
{
    let s_idx = start_date.to_day_index();
    let e_idx = end_date.to_day_index();
    let max_d = Date { year: 9999, month: 12, day: 31 };
    let max_idx = max_d.to_day_index();
    proof {
        lemma_day_index_range(end_date);
    }
    let mut windows: Vec<WeekOrShorterPeriod> = Vec::new();
    let mut cursor: Date = start_date;
    let mut cursor_idx: u32 = s_idx;
    while cursor_idx <= e_idx
        invariant_except_break
            start_date.valid(),
            end_date.valid(),
            cursor.valid(),
            s_idx == day_index(start_date),
            e_idx == day_index(end_date),
            max_idx == day_index(max_date()),
            e_idx <= max_idx,
            max_idx <= 3_660_005,
            cursor_idx == day_index(cursor),
            cursor_idx == s_idx + 7 * windows@.len(),
            windows@.len() > 0 ==> s_idx + 7 * (windows@.len() - 1) <= e_idx,
            forall|k: int|
                0 <= k < windows@.len() ==> window_spec(
                    #[trigger] windows@[k],
                    s_idx as int,
                    e_idx as int,
                    k,
                ),
        ensures
            s_idx == day_index(start_date),
            e_idx == day_index(end_date),
            s_idx + 7 * windows@.len() > e_idx,
            windows@.len() > 0 ==> s_idx + 7 * (windows@.len() - 1) <= e_idx,
            forall|k: int|
                0 <= k < windows@.len() ==> window_spec(
                    #[trigger] windows@[k],
                    s_idx as int,
                    e_idx as int,
                    k,
                ),
        decreases e_idx + 7 - cursor_idx,
    {
        let target = if cursor_idx + 6 <= e_idx {
            cursor_idx + 6
        } else {
            e_idx
        };
        let period_end = advance_to_index(cursor, target);
        let ghost pre = windows@;
        match WeekOrShorterPeriod::try_new(cursor, period_end) {
            Ok(w) => {
                windows.push(w);
            },
            Err(_) => {
                // Defensive skip, kept although it cannot occur: the clamped
                // end is zero to six days after the cursor.
                proof {
                    assert(false);
                }
            },
        }
        proof {
            assert(windows@ == pre.push(windows@.last()));
            assert forall|k: int|
                0 <= k < windows@.len() implies window_spec(
                #[trigger] windows@[k],
                s_idx as int,
                e_idx as int,
                k,
            ) by {
                if k < pre.len() {
                    assert(windows@[k] == pre[k]);
                } else {
                    assert(windows@[k] == windows@.last());
                }
            }
        }
        if cursor_idx + 7 <= max_idx {
            cursor = advance_to_index(cursor, cursor_idx + 7);
            cursor_idx = cursor_idx + 7;
        } else {
            // The next stride would leave the calendar; since the range end
            // is a representable date, the range is exhausted.
            break;
        }
    }
    proof {
        let len = windows@.len() as int;
        if s_idx > e_idx {
            assert(len == 0);
        } else {
            assert(7 * (len - 1) <= e_idx - s_idx < 7 * len);
            lemma_fundamental_div_mod_converse(
                e_idx - s_idx,
                7,
                len - 1,
                e_idx - s_idx - 7 * (len - 1),
            );
            assert((e_idx - s_idx) as int / 7 == len - 1);
        }
    }
    windows
}

/// Every day of an inclusive range falls in exactly one query window of its
/// decomposition: the one whose index is the day's offset from the range
/// start divided by the stride.  The fixed seven-day stride combined with
/// the clamped window end means no day is queried twice, even when the tail
/// window is shorter.
pub proof fn lemma_stride_covers(s: int, e: int, t: int)
    requires
        s <= t <= e,
    ensures
        0 <= (t - s) / 7 < (e - s) / 7 + 1,
        s + 7 * ((t - s) / 7) <= t <= clamp_end(s + 7 * ((t - s) / 7), e),
        forall|k2: int|
            0 <= k2 <= (e - s) / 7 && k2 != (t - s) / 7 ==> !(s + 7 * k2 <= t <= #[trigger] clamp_end(
                s + 7 * k2,
                e,
            )),
{
    let k = (t - s) / 7;
    lemma_fundamental_div_mod(t - s, 7);
    vstd::arithmetic::div_mod::lemma_mod_pos_bound(t - s, 7);
    lemma_div_is_ordered(t - s, e - s, 7);
    vstd::arithmetic::div_mod::lemma_div_pos_is_pos(t - s, 7);
    assert(t - s == 7 * k + (t - s) % 7);
    assert forall|k2: int|
        0 <= k2 <= (e - s) / 7 && k2 != k implies !(s + 7 * k2 <= t <= #[trigger] clamp_end(
        s + 7 * k2,
        e,
    )) by {
        if k2 < k {
            assert(s + 7 * k2 + 6 < s + 7 * k);
        } else {
            assert(t < s + 7 * k + 7);
            assert(s + 7 * k + 7 <= s + 7 * k2);
        }
    }
}

/// The same coverage stated over a concrete window list of the shape
/// `decompose_range` ensures: every day of the range falls inside exactly
/// one of its windows.
pub proof fn lemma_windows_cover(s: int, e: int, windows: Seq<WeekOrShorterPeriod>, t: int)
    requires
        s <= t <= e,
        windows.len() == (e - s) / 7 + 1,
        forall|k: int| 0 <= k < windows.len() ==> window_spec(#[trigger] windows[k], s, e, k),
    ensures
        exists|k: int|
            0 <= k < windows.len() && day_index((#[trigger] windows[k]).spec_start()) <= t
                <= day_index(windows[k].spec_end()),
        forall|k1: int, k2: int|
            (0 <= k1 < windows.len() && 0 <= k2 < windows.len() && day_index(
                (#[trigger] windows[k1]).spec_start(),
            ) <= t <= day_index(windows[k1].spec_end()) && day_index(
                (#[trigger] windows[k2]).spec_start(),
            ) <= t <= day_index(windows[k2].spec_end())) ==> k1 == k2,
{
    let k = (t - s) / 7;
    lemma_stride_covers(s, e, t);
    assert(window_spec(windows[k], s, e, k));
    assert(day_index(windows[k].spec_start()) <= t <= day_index(windows[k].spec_end()));
    assert forall|k1: int, k2: int|
        (0 <= k1 < windows.len() && 0 <= k2 < windows.len() && day_index(
            (#[trigger] windows[k1]).spec_start(),
        ) <= t <= day_index(windows[k1].spec_end()) && day_index(
            (#[trigger] windows[k2]).spec_start(),
        ) <= t <= day_index(windows[k2].spec_end())) implies k1 == k2 by {
        assert(window_spec(windows[k1], s, e, k1));
        assert(window_spec(windows[k2], s, e, k2));
    }
}

} // verus!
