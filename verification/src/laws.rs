//! The laws the extraction pipeline obeys, stated and proved over the
//! common source-goal model that both extractors are specified against:
//! the two variants agree on equivalent data, shootout goals never reach
//! canonical output, every non-shootout goal with a recognized side does,
//! and the tolerant fallback path skips exactly the events whose nested
//! detail is incomplete.

use crate::extract::canonical_goal;
use crate::extract::canonical_goals;
use crate::extract::event_source_goal;
use crate::extract::event_source_goals;
use crate::extract::flat_summary_goals;
use crate::extract::includes_goal;
use crate::extract::is_goal_event;
use crate::extract::summary_sides_ok;
use crate::extract::EventView;
use crate::extract::LandingView;
use crate::extract::PbpView;
use crate::extract::SourceGoal;
use vstd::prelude::*;

verus! {

/// Two source goals carry the same underlying scoring event: same event id,
/// same optional tracking URL, same defending-side string, same period-type
/// tag, same scoring team.
pub open spec fn same_source_goal(a: SourceGoal, b: SourceGoal) -> bool {
    &&& a.event_id == b.event_id
    &&& a.replay_url == b.replay_url
    &&& a.side == b.side
    &&& a.period_type == b.period_type
    &&& a.scorer == b.scorer
}

/// A summary response and an event-stream response express the same
/// underlying game: the same home team, and the same scoring events in the
/// same order.
pub open spec fn represent_same_game(l: LandingView, p: PbpView) -> bool {
    &&& l.home_team == p.home_team
    &&& flat_summary_goals(l.periods, l.home_team, l.away_team).len() == event_source_goals(
        p.plays,
    ).len()
    &&& forall|i: int|
        0 <= i < flat_summary_goals(l.periods, l.home_team, l.away_team).len()
            ==> same_source_goal(
            #[trigger] flat_summary_goals(l.periods, l.home_team, l.away_team)[i],
            event_source_goals(p.plays)[i],
        )
}

/// Summary-shape and event-stream extraction agree: given equivalent
/// underlying game data expressed in each shape, they produce identical
/// canonical goal lists — the same event ids, tracking URLs, scoring team
/// ids and defending sides, in the same order — and the same home team id.
/// The one premise beyond equivalence is that every non-shootout side is
/// recognized: on a side neither `"left"` nor `"right"` the summary path
/// fails outright while the stream path skips the one goal, so no common
/// output exists.
pub proof fn lemma_variants_agree(l: LandingView, p: PbpView)
    requires
        represent_same_game(l, p),
        summary_sides_ok(flat_summary_goals(l.periods, l.home_team, l.away_team)),
    ensures
        canonical_goals(flat_summary_goals(l.periods, l.home_team, l.away_team))
            == canonical_goals(event_source_goals(p.plays)),
{
    let fs = flat_summary_goals(l.periods, l.home_team, l.away_team);
    let es = event_source_goals(p.plays);
    assert forall|i: int| 0 <= i < fs.len() implies fs[i] == es[i] by {
        assert(same_source_goal(fs[i], es[i]));
        assert(fs[i] =~= es[i]);
    }
    assert(fs =~= es);
}

/// Every canonical goal originates from an included source goal: one that is
/// not shootout-tagged and whose defending side is recognized.  In
/// particular, no shootout goal of either response shape ever reaches
/// canonical output.
pub proof fn lemma_canonical_goal_origin(src: Seq<SourceGoal>, k: int)
    requires
        0 <= k < canonical_goals(src).len(),
    ensures
        exists|i: int|
            0 <= i < src.len() && includes_goal(#[trigger] src[i]) && canonical_goals(src)[k]
                == canonical_goal(src[i]),
    decreases src.len(),
{
    let front = canonical_goals(src.drop_last());
    if k < front.len() {
        lemma_canonical_goal_origin(src.drop_last(), k);
        let i = choose|i: int|
            0 <= i < src.drop_last().len() && includes_goal(#[trigger] src.drop_last()[i])
                && canonical_goals(src.drop_last())[k] == canonical_goal(src.drop_last()[i]);
        assert(src.drop_last()[i] == src[i]);
        assert(canonical_goals(src)[k] == front[k]);
        assert(includes_goal(src[i]) && canonical_goals(src)[k] == canonical_goal(src[i]));
    } else {
        assert(includes_goal(src.last()));
        assert(canonical_goals(src)[k] == canonical_goal(src.last()));
        assert(src.last() == src[src.len() - 1]);
        assert(includes_goal(src[src.len() - 1]) && canonical_goals(src)[k] == canonical_goal(
            src[src.len() - 1],
        ));
    }
}

/// Every included source goal appears in the canonical output: regulation
/// and overtime goals with a recognized side are never dropped, whether or
/// not they carry a tracking URL.
pub proof fn lemma_included_goal_appears(src: Seq<SourceGoal>, i: int)
    requires
        0 <= i < src.len(),
        includes_goal(src[i]),
    ensures
        exists|k: int|
            0 <= k < canonical_goals(src).len() && #[trigger] canonical_goals(src)[k]
                == canonical_goal(src[i]),
    decreases src.len(),
{
    let front = canonical_goals(src.drop_last());
    if i == src.len() - 1 {
        assert(src.last() == src[i]);
        assert(canonical_goals(src)[front.len() as int] == canonical_goal(src[i]));
    } else {
        assert(src.drop_last()[i] == src[i]);
        lemma_included_goal_appears(src.drop_last(), i);
        let k = choose|k: int|
            0 <= k < canonical_goals(src.drop_last()).len() && #[trigger] canonical_goals(
                src.drop_last(),
            )[k] == canonical_goal(src.drop_last()[i]);
        assert(canonical_goals(src)[k] == front[k]);
        assert(canonical_goals(src)[k] == canonical_goal(src[i]));
    }
}

/// What the tolerant event-stream path skips and keeps, event by event: an
/// event without its nested detail block, or without an owner team id inside
/// it, contributes no source goal at all; a goal-typed event with complete
/// detail contributes exactly one, whether or not its tracking URL is
/// present — a missing URL alone never excludes a goal.
pub proof fn lemma_event_stream_detail(e: EventView)
    ensures
        (e.owner_team is None || e.owner_team->Some_0 is None) ==> event_source_goal(e)
            == Seq::<SourceGoal>::empty(),
        (is_goal_event(e.type_desc) && e.owner_team is Some && e.owner_team->Some_0 is Some)
            ==> event_source_goal(e).len() == 1 && event_source_goal(e)[0].replay_url
            == e.replay_url && event_source_goal(e)[0].event_id == e.event_id,
{
}

} // verus!
