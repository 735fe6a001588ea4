//! Dual-source goal extraction: the two upstream game-detail response shapes
//! (the curated summary and the raw event stream) are reduced to one
//! canonical record per non-shootout scoring event.  Both extractors are
//! specified against one common model: the sequence of *source goals* a
//! response carries, and the canonical goals those yield.

use crate::errors::PipelineError;
use crate::text::str_eq;
use vstd::prelude::*;

verus! {

/// A side of the playing surface, as the upstream API reports it.
#[derive(Debug, Clone, Copy, PartialEq, Eq, Structural)]
pub enum IceSide {
    Left,
    Right,
}

/// The canonical record of one scoring event.
#[derive(Debug, PartialEq, Eq)]
pub struct GoalDetails {
    pub event_id: u32,
    pub ppt_replay_url: Option<String>,
    pub scoring_team_id: u16,
    pub home_team_defending_side: IceSide,
}

/// The mathematical image of a [`GoalDetails`].
pub ghost struct GoalView {
    pub event_id: u32,
    pub replay_url: Option<Seq<char>>,
    pub scoring_team_id: u16,
    pub side: IceSide,
}

/// The view of an optional owned string.
pub open spec fn opt_string_view(o: Option<String>) -> Option<Seq<char>> {
    match o {
        Some(s) => Some(s@),
        None => None,
    }
}

impl View for GoalDetails {
    type V = GoalView;

    open spec fn view(&self) -> GoalView {
        GoalView {
            event_id: self.event_id,
            replay_url: opt_string_view(self.ppt_replay_url),
            scoring_team_id: self.scoring_team_id,
            side: self.home_team_defending_side,
        }
    }
}

impl Clone for GoalDetails {
    fn clone(&self) -> (r: GoalDetails)
        ensures
            r == *self,
    {
        GoalDetails {
            event_id: self.event_id,
            ppt_replay_url: match &self.ppt_replay_url {
                Some(u) => Some(u.clone()),
                None => None,
            },
            scoring_team_id: self.scoring_team_id,
            home_team_defending_side: self.home_team_defending_side,
        }
    }
}

/// A team, of which only the numeric id matters here.
#[derive(Debug, Clone, Copy, PartialEq, Eq, Structural)]
pub struct Team {
    pub id: u16,
}

// ---------------------------------------------------------------------------
// The common extraction model.
// ---------------------------------------------------------------------------
/// The underlying data of one scoring event, as either response shape
/// carries it: ids, the raw side string, the period-type tag of the period
/// it fell in, and the scoring team already resolved to an id.
#[verifier::ext_equal]
pub ghost struct SourceGoal {
    pub event_id: u32,
    pub replay_url: Option<Seq<char>>,
    pub side: Seq<char>,
    pub period_type: Seq<char>,
    pub scorer: u16,
}

/// The period-type tag that marks a shootout; shootout goals are never
/// part of canonical output.
pub open spec fn is_shootout(period_type: Seq<char>) -> bool {
    period_type == "SO"@
}

/// How a defending-side string is read: exactly `"left"` and `"right"` are
/// recognized.
pub open spec fn side_of(s: Seq<char>) -> Option<IceSide> {
    if s == "left"@ {
        Some(IceSide::Left)
    } else if s == "right"@ {
        Some(IceSide::Right)
    } else {
        None
    }
}

/// Whether a source goal yields a canonical record: it must not come from a
/// shootout and its defending side must be recognized.
pub open spec fn includes_goal(g: SourceGoal) -> bool {
    !is_shootout(g.period_type) && side_of(g.side) is Some
}

/// The canonical record a source goal yields (meaningful when
/// [`includes_goal`] holds).
pub open spec fn canonical_goal(g: SourceGoal) -> GoalView {
    GoalView {
        event_id: g.event_id,
        replay_url: g.replay_url,
        scoring_team_id: g.scorer,
        side: side_of(g.side)->Some_0,
    }
}

/// One canonical record per included source goal, in source order.
pub open spec fn canonical_goals(src: Seq<SourceGoal>) -> Seq<GoalView>
    decreases src.len(),
{
    if src.len() == 0 {
        Seq::empty()
    } else {
        canonical_goals(src.drop_last()) + (if includes_goal(src.last()) {
            seq![canonical_goal(src.last())]
        } else {
            Seq::empty()
        })
    }
}

pub proof fn lemma_canonical_goals_snoc(s: Seq<SourceGoal>, g: SourceGoal)
    ensures
        canonical_goals(s.push(g)) == canonical_goals(s) + (if includes_goal(g) {
            seq![canonical_goal(g)]
        } else {
            Seq::empty()
        }),
{
    assert(s.push(g).drop_last() =~= s);
    assert(s.push(g).last() == g);
    assert(s.push(g).len() == s.len() + 1);
}

pub proof fn lemma_canonical_goals_concat(a: Seq<SourceGoal>, b: Seq<SourceGoal>)
    ensures
        canonical_goals(a + b) == canonical_goals(a) + canonical_goals(b),
    decreases b.len(),
{
    if b.len() == 0 {
        assert(a + b =~= a);
        assert(canonical_goals(a) + canonical_goals(b) =~= canonical_goals(a));
    } else {
        lemma_canonical_goals_concat(a, b.drop_last());
        assert((a + b).drop_last() =~= a + b.drop_last());
        assert((a + b).last() == b.last());
        assert(canonical_goals(a + b) =~= canonical_goals(a) + canonical_goals(b));
    }
}

/// Read a defending-side string.
fn parse_side(s: &str) -> (r: Option<IceSide>)
    ensures
        r == side_of(s@),
{
    if str_eq(s, "left") {
        Some(IceSide::Left)
    } else if str_eq(s, "right") {
        Some(IceSide::Right)
    } else {
        None
    }
}

// ---------------------------------------------------------------------------
// Variant A: the summary shape (landing endpoint).
// ---------------------------------------------------------------------------
/// One raw goal entry of the summary shape.
#[allow(non_snake_case)]
#[derive(Debug)]
pub struct GoalInfo {
    pub eventId: u32,
    pub pptReplayUrl: Option<String>,
    pub homeTeamDefendingSide: String,
    pub isHome: bool,
}

/// The mathematical image of a [`GoalInfo`].
pub ghost struct GoalInfoView {
    pub event_id: u32,
    pub replay_url: Option<Seq<char>>,
    pub side: Seq<char>,
    pub is_home: bool,
}

impl View for GoalInfo {
    type V = GoalInfoView;

    open spec fn view(&self) -> GoalInfoView {
        GoalInfoView {
            event_id: self.eventId,
            replay_url: opt_string_view(self.pptReplayUrl),
            side: self.homeTeamDefendingSide@,
            is_home: self.isHome,
        }
    }
}

/// The period-type tag of a scoring period of the summary shape.
#[allow(non_snake_case)]
#[derive(Debug)]
pub struct PeriodDetails {
    pub periodType: String,
}

/// One scoring period of the summary shape.
#[allow(non_snake_case)]
#[derive(Debug)]
pub struct ScoringPeriod {
    pub periodDescriptor: PeriodDetails,
    pub goals: Vec<GoalInfo>,
}

/// The mathematical image of a [`ScoringPeriod`].
pub ghost struct ScoringPeriodView {
    pub period_type: Seq<char>,
    pub goals: Seq<GoalInfoView>,
}

impl View for ScoringPeriod {
    type V = ScoringPeriodView;

    open spec fn view(&self) -> ScoringPeriodView {
        ScoringPeriodView {
            period_type: self.periodDescriptor.periodType@,
            goals: self.goals@.map_values(|g: GoalInfo| g@),
        }
    }
}

/// The scoring summary of the landing response.
#[derive(Debug)]
pub struct Summary {
    pub scoring: Vec<ScoringPeriod>,
}

/// The response of the landing endpoint: game info plus the scoring summary.
#[allow(non_snake_case)]
#[derive(Debug)]
pub struct LandingResponse {
    pub id: u32,
    pub season: u32,
    pub gameDate: String,
    pub homeTeam: Team,
    pub awayTeam: Team,
    pub summary: Summary,
}

/// The mathematical image of a [`LandingResponse`].
pub ghost struct LandingView {
    pub id: u32,
    pub season: u32,
    pub game_date: Seq<char>,
    pub home_team: u16,
    pub away_team: u16,
    pub periods: Seq<ScoringPeriodView>,
}

impl View for LandingResponse {
    type V = LandingView;

    open spec fn view(&self) -> LandingView {
        LandingView {
            id: self.id,
            season: self.season,
            game_date: self.gameDate@,
            home_team: self.homeTeam.id,
            away_team: self.awayTeam.id,
            periods: self.summary.scoring@.map_values(|p: ScoringPeriod| p@),
        }
    }
}

/// The source goals one summary period carries: each goal entry paired with
/// the period's type tag, its scorer resolved as the home team when the
/// entry is flagged as a home goal and the away team otherwise.
pub open spec fn period_source_goals(p: ScoringPeriodView, home: u16, away: u16) -> Seq<
    SourceGoal,
> {
    p.goals.map_values(
        |g: GoalInfoView|
            SourceGoal {
                event_id: g.event_id,
                replay_url: g.replay_url,
                side: g.side,
                period_type: p.period_type,
                scorer: if g.is_home {
                    home
                } else {
                    away
                },
            },
    )
}

/// All source goals of the summary shape, flattened: period order, then goal
/// order within a period.
pub open spec fn flat_summary_goals(periods: Seq<ScoringPeriodView>, home: u16, away: u16) -> Seq<
    SourceGoal,
>
    decreases periods.len(),
{
    if periods.len() == 0 {
        Seq::empty()
    } else {
        flat_summary_goals(periods.drop_last(), home, away) + period_source_goals(
            periods.last(),
            home,
            away,
        )
    }
}

/// Whether every non-shootout source goal names a recognized defending side;
/// the summary extraction succeeds exactly on such data.
pub open spec fn summary_sides_ok(src: Seq<SourceGoal>) -> bool {
    forall|i: int|
        0 <= i < src.len() ==> (!is_shootout(#[trigger] src[i].period_type) ==> side_of(src[i].side)
            is Some)
}

pub proof fn lemma_sides_ok_concat(a: Seq<SourceGoal>, b: Seq<SourceGoal>)
    ensures
        summary_sides_ok(a + b) <==> (summary_sides_ok(a) && summary_sides_ok(b)),
{
    if summary_sides_ok(a + b) {
        assert forall|i: int|
            0 <= i < a.len() && !is_shootout(#[trigger] a[i].period_type) implies side_of(
            a[i].side,
        ) is Some by {
            assert((a + b)[i] == a[i]);
        }
        assert forall|i: int|
            0 <= i < b.len() && !is_shootout(#[trigger] b[i].period_type) implies side_of(
            b[i].side,
        ) is Some by {
            assert((a + b)[a.len() + i] == b[i]);
        }
    }
    if summary_sides_ok(a) && summary_sides_ok(b) {
        assert forall|i: int|
            0 <= i < (a + b).len() && !is_shootout(#[trigger] (a + b)[i].period_type)
            implies side_of((a + b)[i].side) is Some by {
            if i < a.len() {
                assert((a + b)[i] == a[i]);
            } else {
                assert((a + b)[i] == b[i - a.len()]);
            }
        }
    }
}

/// The flattened summary splits at any period boundary.
pub proof fn lemma_flat_summary_split(
    periods: Seq<ScoringPeriodView>,
    k: int,
    home: u16,
    away: u16,
)
    requires
        0 <= k <= periods.len(),
    ensures
        flat_summary_goals(periods, home, away) == flat_summary_goals(periods.take(k), home, away)
            + flat_summary_goals(periods.skip(k), home, away),
    decreases periods.len(),
{
    if k == periods.len() {
        assert(periods.take(k) =~= periods);
        assert(periods.skip(k).len() == 0);
        assert(flat_summary_goals(periods, home, away) =~= flat_summary_goals(
            periods.take(k),
            home,
            away,
        ) + flat_summary_goals(periods.skip(k), home, away));
    } else {
        let shorter = periods.drop_last();
        lemma_flat_summary_split(shorter, k, home, away);
        assert(shorter.take(k) =~= periods.take(k));
        assert(periods.skip(k).drop_last() =~= shorter.skip(k));
        assert(periods.skip(k).last() == periods.last());
        assert(periods.skip(k).len() == periods.len() - k);
        assert(flat_summary_goals(periods.skip(k), home, away) == flat_summary_goals(
            shorter.skip(k),
            home,
            away,
        ) + period_source_goals(periods.last(), home, away));
        assert(flat_summary_goals(periods, home, away) =~= flat_summary_goals(
            periods.take(k),
            home,
            away,
        ) + flat_summary_goals(periods.skip(k), home, away));
    }
}

/// Some source goal at a non-shootout position names an unrecognized side
/// and carries this event id; a failed summary extraction reports such an
/// event id.
pub open spec fn has_offending_goal(src: Seq<SourceGoal>, event_id: u32) -> bool {
    exists|t: int|
        0 <= t < src.len() && !is_shootout(#[trigger] src[t].period_type) && side_of(src[t].side)
            is None && src[t].event_id == event_id
}

/// The unit the extraction algorithms agree on producing: the home team id
/// and the ordered canonical goals of one game.
#[derive(Debug, PartialEq, Eq)]
pub struct GameExportData {
    pub goals: Vec<GoalDetails>,
    pub home_team_id: u16,
}

/// The mathematical image of a [`GameExportData`].
pub ghost struct GameExportView {
    pub goals: Seq<GoalView>,
    pub home_team_id: u16,
}

impl View for GameExportData {
    type V = GameExportView;

    open spec fn view(&self) -> GameExportView {
        GameExportView {
            goals: self.goals@.map_values(|g: GoalDetails| g@),
            home_team_id: self.home_team_id,
        }
    }
}

/// Variant A: summary-shape extraction.  Walks the scoring periods in order,
/// skips shootout periods whole, and resolves each remaining entry into a
/// canonical goal.  An unrecognized defending side fails the entire
/// extraction with `InvalidDefendingSide` — the curated summary has no safe
/// per-goal fallback — and succeeds otherwise, on exactly the canonical
/// goals of the flattened summary.
pub fn extract_export_game_data(landing_resp: &LandingResponse) -> (r: Result<
    GameExportData,
    PipelineError,
>)
    ensures
        (r is Ok) <==> summary_sides_ok(
            flat_summary_goals(landing_resp@.periods, landing_resp@.home_team, landing_resp@.away_team),
        ),
        r is Ok ==> {
            &&& r->Ok_0@.home_team_id == landing_resp@.home_team
            &&& r->Ok_0@.goals == canonical_goals(
                flat_summary_goals(
                    landing_resp@.periods,
                    landing_resp@.home_team,
                    landing_resp@.away_team,
                ),
            )
        },
        r is Err ==> (r->Err_0 matches PipelineError::InvalidDefendingSide { event_id, game_id }
            && game_id == landing_resp@.id && has_offending_goal(
            flat_summary_goals(
                landing_resp@.periods,
                landing_resp@.home_team,
                landing_resp@.away_team,
            ),
            event_id,
        )),
{
    let ghost periods = landing_resp@.periods;
    let ghost home = landing_resp@.home_team;
    let ghost away = landing_resp@.away_team;
    let mut goals: Vec<GoalDetails> = Vec::new();
    let n = landing_resp.summary.scoring.len();
    let mut i: usize = 0;
    while i < n
        invariant
            i <= n,
            n == landing_resp.summary.scoring.len(),
            periods == landing_resp@.periods,
            home == landing_resp@.home_team,
            away == landing_resp@.away_team,
            summary_sides_ok(flat_summary_goals(periods.take(i as int), home, away)),
            goals@.map_values(|g: GoalDetails| g@) == canonical_goals(
                flat_summary_goals(periods.take(i as int), home, away),
            ),
        decreases n - i,
    {
        let period = &landing_resp.summary.scoring[i];
        proof {
            assert(periods[i as int] == landing_resp.summary.scoring@[i as int]@);
            assert(periods.take(i + 1).drop_last() =~= periods.take(i as int));
            assert(periods.take(i + 1).last() == periods[i as int]);
        }
        let ghost psg = period_source_goals(periods[i as int], home, away);
        if str_eq(period.periodDescriptor.periodType.as_str(), "SO") {
            // Shootout period: its goals never reach canonical output.
            proof {
                let base = flat_summary_goals(periods.take(i as int), home, away);
                assert(flat_summary_goals(periods.take(i + 1), home, away) == base + psg);
                assert forall|k: int| 0 <= k < psg.len() implies !includes_goal(
                    #[trigger] psg[k],
                ) by {
                    assert(psg[k].period_type == periods[i as int].period_type);
                }
                lemma_canonical_goals_all_excluded(psg);
                lemma_canonical_goals_concat(base, psg);
                assert(canonical_goals(base + psg) =~= canonical_goals(base));
                assert forall|k: int|
                    0 <= k < psg.len() && !is_shootout(#[trigger] psg[k].period_type)
                    implies side_of(psg[k].side) is Some by {
                    assert(psg[k].period_type == periods[i as int].period_type);
                }
                lemma_sides_ok_concat(base, psg);
            }
        } else {
            let m = period.goals.len();
            let mut j: usize = 0;
            while j < m
                invariant
                    j <= m,
                    m == period.goals.len(),
                    periods == landing_resp@.periods,
                    home == landing_resp@.home_team,
                    away == landing_resp@.away_team,
                    i < periods.len(),
                    period == &landing_resp.summary.scoring[i as int],
                    periods[i as int] == landing_resp.summary.scoring@[i as int]@,
                    psg == period_source_goals(periods[i as int], home, away),
                    !is_shootout(periods[i as int].period_type),
                    summary_sides_ok(
                        flat_summary_goals(periods.take(i as int), home, away) + psg.take(j as int),
                    ),
                    goals@.map_values(|g: GoalDetails| g@) == canonical_goals(
                        flat_summary_goals(periods.take(i as int), home, away) + psg.take(j as int),
                    ),
                decreases m - j,
            {
                let g = &period.goals[j];
                proof {
                    assert(periods[i as int].goals[j as int] == period.goals@[j as int]@);
                    assert(psg[j as int] == (SourceGoal {
                        event_id: g@.event_id,
                        replay_url: g@.replay_url,
                        side: g@.side,
                        period_type: periods[i as int].period_type,
                        scorer: if g@.is_home {
                            home
                        } else {
                            away
                        },
                    }));
                    assert(!is_shootout(psg[j as int].period_type));
                }
                let scoring_team_id = if g.isHome {
                    landing_resp.homeTeam.id
                } else {
                    landing_resp.awayTeam.id
                };
                let home_team_defending_side = match parse_side(g.homeTeamDefendingSide.as_str()) {
                    Some(side) => side,
                    None => {
                        proof {
                            let base = flat_summary_goals(periods.take(i as int), home, away);
                            let full = flat_summary_goals(periods, home, away);
                            assert(periods.take(i + 1).drop_last() =~= periods.take(i as int));
                            assert(periods.take(i + 1).last() == periods[i as int]);
                            assert(flat_summary_goals(periods.take(i + 1), home, away) == base
                                + psg);
                            lemma_flat_summary_split(periods, i + 1, home, away);
                            assert(periods.take(i + 1) == periods.take((i + 1) as int));
                            assert(full == (base + psg) + flat_summary_goals(
                                periods.skip(i + 1),
                                home,
                                away,
                            ));
                            let t = base.len() as int + j;
                            assert(psg.len() == m);
                            assert(full[t] == (base + psg)[t]);
                            assert((base + psg)[t] == psg[j as int]);
                            assert(!is_shootout(full[t].period_type));
                            assert(side_of(full[t].side) is None);
                            assert(!summary_sides_ok(full));
                        }
                        return Err(
                            PipelineError::InvalidDefendingSide {
                                event_id: g.eventId,
                                game_id: landing_resp.id,
                            },
                        );
                    },
                };
                let ghost pre = goals@;
                goals.push(
                    GoalDetails {
                        event_id: g.eventId,
                        ppt_replay_url: match &g.pptReplayUrl {
                            Some(u) => Some(u.clone()),
                            None => None,
                        },
                        scoring_team_id,
                        home_team_defending_side,
                    },
                );
                proof {
                    let base = flat_summary_goals(periods.take(i as int), home, away);
                    assert(goals@.map_values(|x: GoalDetails| x@) =~= pre.map_values(
                        |x: GoalDetails| x@,
                    ).push(goals@.last()@));
                    assert(psg.take(j + 1) =~= psg.take(j as int).push(psg[j as int]));
                    assert(base + psg.take(j + 1) =~= (base + psg.take(j as int)).push(
                        psg[j as int],
                    ));
                    lemma_canonical_goals_snoc(base + psg.take(j as int), psg[j as int]);
                    assert(includes_goal(psg[j as int]));
                    assert(goals@.last()@ == canonical_goal(psg[j as int]));
                    assert(goals@.map_values(|x: GoalDetails| x@) =~= canonical_goals(
                        base + psg.take(j + 1),
                    ));
                    assert(summary_sides_ok(seq![psg[j as int]])) by {
                        assert(seq![psg[j as int]][0] == psg[j as int]);
                    }
                    lemma_sides_ok_concat(base + psg.take(j as int), seq![psg[j as int]]);
                    assert(base + psg.take(j + 1) =~= (base + psg.take(j as int)) + seq![
                        psg[j as int],
                    ]);
                    assert(summary_sides_ok(base + psg.take(j + 1)));
                }
                j = j + 1;
            }
            proof {
                assert(psg.take(m as int) =~= psg);
                assert(flat_summary_goals(periods.take(i + 1), home, away) =~= flat_summary_goals(
                    periods.take(i as int),
                    home,
                    away,
                ) + psg);
            }
        }
        i = i + 1;
    }
    proof {
        assert(periods.take(n as int) =~= periods);
    }
    Ok(GameExportData { goals, home_team_id: landing_resp.homeTeam.id })
}

/// A sequence of source goals none of which is included yields no canonical
/// goal.
pub proof fn lemma_canonical_goals_all_excluded(src: Seq<SourceGoal>)
    requires
        forall|i: int| 0 <= i < src.len() ==> !includes_goal(#[trigger] src[i]),
    ensures
        canonical_goals(src) == Seq::<GoalView>::empty(),
    decreases src.len(),
{
    if src.len() > 0 {
        lemma_canonical_goals_all_excluded(src.drop_last());
        assert(canonical_goals(src) =~= Seq::<GoalView>::empty());
    }
}

pub proof fn lemma_canonical_goals_single(g: SourceGoal)
    ensures
        canonical_goals(seq![g]) == (if includes_goal(g) {
            seq![canonical_goal(g)]
        } else {
            Seq::<GoalView>::empty()
        }),
{
    assert(seq![g].drop_last() =~= Seq::<SourceGoal>::empty());
    assert(seq![g].last() == g);
    assert(canonical_goals(Seq::<SourceGoal>::empty()) == Seq::<GoalView>::empty());
    assert(canonical_goals(seq![g]) =~= (if includes_goal(g) {
        seq![canonical_goal(g)]
    } else {
        Seq::<GoalView>::empty()
    }));
}

// ---------------------------------------------------------------------------
// Variant B: the event-stream shape (play-by-play endpoint).
// ---------------------------------------------------------------------------
/// Generic nested details of a play event; not every event carries them.
#[allow(non_snake_case)]
#[derive(Debug, Clone, Copy, PartialEq, Eq, Structural)]
pub struct EventDetails {
    pub eventOwnerTeamId: Option<u16>,
}

/// The period tag of a play event.
#[allow(non_snake_case)]
#[derive(Debug)]
pub struct PeriodInfo {
    pub periodType: String,
}

/// One event of the play-by-play stream.
#[allow(non_snake_case)]
#[derive(Debug)]
pub struct Event {
    pub eventId: u32,
    pub homeTeamDefendingSide: String,
    pub typeDescKey: String,
    pub pptReplayUrl: Option<String>,
    pub details: Option<EventDetails>,
    pub periodDescriptor: PeriodInfo,
}

/// The mathematical image of an [`Event`].  The nested detail is kept
/// two-layered: the detail block may be absent, and an owner team id may be
/// absent within a present block.
pub ghost struct EventView {
    pub event_id: u32,
    pub side: Seq<char>,
    pub type_desc: Seq<char>,
    pub replay_url: Option<Seq<char>>,
    pub owner_team: Option<Option<u16>>,
    pub period_type: Seq<char>,
}

impl View for Event {
    type V = EventView;

    open spec fn view(&self) -> EventView {
        EventView {
            event_id: self.eventId,
            side: self.homeTeamDefendingSide@,
            type_desc: self.typeDescKey@,
            replay_url: opt_string_view(self.pptReplayUrl),
            owner_team: match self.details {
                Some(d) => Some(d.eventOwnerTeamId),
                None => None,
            },
            period_type: self.periodDescriptor.periodType@,
        }
    }
}

/// The response of the play-by-play endpoint.
#[allow(non_snake_case)]
#[derive(Debug)]
pub struct PbpResponse {
    pub plays: Vec<Event>,
    pub id: u32,
    pub season: u32,
    pub homeTeam: Team,
    pub gameDate: String,
}

/// The mathematical image of a [`PbpResponse`].
pub ghost struct PbpView {
    pub plays: Seq<EventView>,
    pub id: u32,
    pub season: u32,
    pub home_team: u16,
    pub game_date: Seq<char>,
}

impl View for PbpResponse {
    type V = PbpView;

    open spec fn view(&self) -> PbpView {
        PbpView {
            plays: self.plays@.map_values(|e: Event| e@),
            id: self.id,
            season: self.season,
            home_team: self.homeTeam.id,
            game_date: self.gameDate@,
        }
    }
}

/// The event-type tag of a scoring event.
pub open spec fn is_goal_event(t: Seq<char>) -> bool {
    t == "goal"@
}

/// The source goal one stream event carries: a goal-typed event whose nested
/// detail block and owner team id are both present; any other event carries
/// none.
pub open spec fn event_source_goal(e: EventView) -> Seq<SourceGoal> {
    if is_goal_event(e.type_desc) && e.owner_team is Some && e.owner_team->Some_0 is Some {
        seq![
            SourceGoal {
                event_id: e.event_id,
                replay_url: e.replay_url,
                side: e.side,
                period_type: e.period_type,
                scorer: e.owner_team->Some_0->Some_0,
            },
        ]
    } else {
        Seq::empty()
    }
}

/// All source goals of the event stream, in stream order.
pub open spec fn event_source_goals(plays: Seq<EventView>) -> Seq<SourceGoal>
    decreases plays.len(),
{
    if plays.len() == 0 {
        Seq::empty()
    } else {
        event_source_goals(plays.drop_last()) + event_source_goal(plays.last())
    }
}

/// Variant B: event-stream extraction, the tolerant fallback path.  Retains
/// the goal-typed, non-shootout events in stream order; an event whose
/// defending side is unrecognized, whose detail block is absent, or whose
/// owner team id is absent is skipped on its own — partial data per event is
/// expected in this shape — never failing the extraction.
pub fn parse_goal_data(pbp: PbpResponse) -> (r: GameExportData)
    ensures
        r@.home_team_id == pbp@.home_team,
        r@.goals == canonical_goals(event_source_goals(pbp@.plays)),
{
    let ghost plays = pbp@.plays;
    let mut goals: Vec<GoalDetails> = Vec::new();
    let n = pbp.plays.len();
    let mut i: usize = 0;
    while i < n
        invariant
            i <= n,
            n == pbp.plays.len(),
            plays == pbp@.plays,
            goals@.map_values(|g: GoalDetails| g@) == canonical_goals(
                event_source_goals(plays.take(i as int)),
            ),
        decreases n - i,
    {
        let e = &pbp.plays[i];
        proof {
            assert(plays[i as int] == pbp.plays@[i as int]@);
            assert(plays.take(i + 1).drop_last() =~= plays.take(i as int));
            assert(plays.take(i + 1).last() == plays[i as int]);
            assert(event_source_goals(plays.take(i + 1)) == event_source_goals(
                plays.take(i as int),
            ) + event_source_goal(plays[i as int]));
            lemma_canonical_goals_concat(
                event_source_goals(plays.take(i as int)),
                event_source_goal(plays[i as int]),
            );
        }
        let ghost emitted = event_source_goal(plays[i as int]);
        if str_eq(e.typeDescKey.as_str(), "goal") && !str_eq(
            e.periodDescriptor.periodType.as_str(),
            "SO",
        ) {
            let side = match parse_side(e.homeTeamDefendingSide.as_str()) {
                Some(side) => Some(side),
                None => {
                    // Unrecognized side: skip this goal alone.
                    None
                },
            };
            match (side, &e.details) {
                (Some(side), Some(details)) => {
                    match details.eventOwnerTeamId {
                        Some(team_id) => {
                            let ghost pre = goals@;
                            goals.push(
                                GoalDetails {
                                    event_id: e.eventId,
                                    ppt_replay_url: match &e.pptReplayUrl {
                                        Some(u) => Some(u.clone()),
                                        None => None,
                                    },
                                    scoring_team_id: team_id,
                                    home_team_defending_side: side,
                                },
                            );
                            proof {
                                let sg = emitted[0];
                                assert(includes_goal(sg));
                                lemma_canonical_goals_single(sg);
                                assert(emitted =~= seq![sg]);
                                assert(goals@.map_values(|x: GoalDetails| x@) =~= pre.map_values(
                                    |x: GoalDetails| x@,
                                ).push(goals@.last()@));
                                assert(goals@.last()@ == canonical_goal(sg));
                                assert(goals@.map_values(|x: GoalDetails| x@) =~= canonical_goals(
                                    event_source_goals(plays.take(i + 1)),
                                ));
                            }
                        },
                        None => {
                            // No owner team id: skip this goal alone.
                            proof {
                                assert(emitted =~= Seq::<SourceGoal>::empty());
                                assert(goals@.map_values(|x: GoalDetails| x@) =~= canonical_goals(
                                    event_source_goals(plays.take(i + 1)),
                                ));
                            }
                        },
                    }
                },
                _ => {
                    // Unrecognized side or missing detail block: skip this
                    // goal alone.
                    proof {
                        assert forall|k: int| 0 <= k < emitted.len() implies !includes_goal(
                            #[trigger] emitted[k],
                        ) by {
                            assert(emitted[k] == emitted[0]);
                        }
                        lemma_canonical_goals_all_excluded(emitted);
                        assert(goals@.map_values(|x: GoalDetails| x@) =~= canonical_goals(
                            event_source_goals(plays.take(i + 1)),
                        ));
                    }
                },
            }
        } else {
            // Not a goal, or a shootout goal: contributes nothing.
            proof {
                assert forall|k: int| 0 <= k < emitted.len() implies !includes_goal(
                    #[trigger] emitted[k],
                ) by {
                    assert(emitted[k] == emitted[0]);
                }
                lemma_canonical_goals_all_excluded(emitted);
                assert(goals@.map_values(|x: GoalDetails| x@) =~= canonical_goals(
                    event_source_goals(plays.take(i + 1)),
                ));
            }
        }
        i = i + 1;
    }
    proof {
        assert(plays.take(n as int) =~= plays);
    }
    GameExportData { goals, home_team_id: pbp.homeTeam.id }
}

// ---------------------------------------------------------------------------
// The boxscore shape.
// ---------------------------------------------------------------------------
/// The response of the boxscore endpoint, of which only the home team is
/// read.
#[allow(non_snake_case)]
#[derive(Debug)]
pub struct BoxscoreResponse {
    pub homeTeam: Team,
}

/// The home-team information extracted from a boxscore response.
#[derive(Debug, Clone, Copy, PartialEq, Eq, Structural)]
pub struct BoxscoreInfo {
    pub home_team_id: u16,
}

/// The serialization unit combining per-goal details with the boxscore's
/// home team id.
#[derive(Debug, PartialEq, Eq)]
pub struct PbpBoxscoreInfo {
    pub goals: Vec<GoalDetails>,
    pub home_team_id: u16,
}

/// Combine the goal details from the play-by-play data and the boxscore info
/// of one game into the struct that is persisted.
pub fn combine_pbp_boxscore_info(pbp: Vec<GoalDetails>, boxscore_info: BoxscoreInfo) -> (r:
    PbpBoxscoreInfo)
    ensures
        r.goals == pbp,
        r.home_team_id == boxscore_info.home_team_id,
{
    PbpBoxscoreInfo { goals: pbp, home_team_id: boxscore_info.home_team_id }
}

/// Goal-only extraction entry point; the landing-shape extraction, home team
/// id included, is [`extract_export_game_data`].
pub fn extract_goals() {
}

} // verus!
