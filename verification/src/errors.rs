//! The failure taxonomy of the pipeline.  Every failure is caught at the
//! granularity of the unit it invalidates (goal, game, or period); these
//! variants name those units.  Rendering is a plain method returning a
//! `String`, pinned exactly by [`error_text`].

use crate::text::dec_rep_signed;
use crate::text::push_decimal_i64;
use vstd::prelude::*;

verus! {

#[derive(Debug, PartialEq, Eq)]
pub enum PipelineError {
    /// The period invariant was violated; carries the actual span in days,
    /// both endpoints included.
    InvalidPeriod { span_days: i64 },
    /// A week of schedule data could not be fetched or understood.
    ScheduleLookupFailed { detail: String },
    /// A summary-shape goal entry named a defending side that is neither
    /// `"left"` nor `"right"`.
    InvalidDefendingSide { event_id: u32, game_id: u32 },
    /// The game date of a detail response is not a `YYYY-MM-DD` date.
    InvalidGameDate { game_id: u32 },
    /// Both the primary and the fallback extraction failed for a game.
    ExtractionFailed { primary: String, fallback: String },
    /// A per-goal tracking artifact could not be retrieved.
    TrackingFetchFailed { detail: String },
    /// Output directories or artifacts could not be written.
    PersistenceFailed { detail: String },
    /// A malformed command-line or offset argument.
    InvalidArguments { reason: String },
}

/// The rendered text of each error.
pub open spec fn error_text(e: PipelineError) -> Seq<char> {
    match e {
        PipelineError::InvalidPeriod { span_days } => "invalid period: the time period needs to be a week or shorter, but is actually "@
            + dec_rep_signed(span_days as int) + " days"@,
        PipelineError::ScheduleLookupFailed { detail } => "schedule lookup failed: "@ + detail@,
        PipelineError::InvalidDefendingSide { event_id, game_id } => "invalid defending side for goal "@
            + dec_rep_signed(event_id as int) + " in game "@ + dec_rep_signed(game_id as int),
        PipelineError::InvalidGameDate { game_id } => "invalid game date for game "@
            + dec_rep_signed(game_id as int),
        PipelineError::ExtractionFailed { primary, fallback } => "extraction failed; primary cause: "@
            + primary@ + "; fallback cause: "@ + fallback@,
        PipelineError::TrackingFetchFailed { detail } => "tracking fetch failed: "@ + detail@,
        PipelineError::PersistenceFailed { detail } => "persistence failed: "@ + detail@,
        PipelineError::InvalidArguments { reason } => "invalid arguments: "@ + reason@,
    }
}

impl PipelineError {
    /// Render the error as text.
    pub fn message(&self) -> (s: String)
        requires
            self matches PipelineError::InvalidPeriod { span_days } ==> span_days != i64::MIN,
        ensures
            s@ == error_text(*self),
    {
        let mut s = String::new();
        match self {
            PipelineError::InvalidPeriod { span_days } => {
                s.append(
                    "invalid period: the time period needs to be a week or shorter, but is actually ",
                );
                push_decimal_i64(*span_days, &mut s);
                s.append(" days");
            },
            PipelineError::ScheduleLookupFailed { detail } => {
                s.append("schedule lookup failed: ");
                s.append(detail.as_str());
            },
            PipelineError::InvalidDefendingSide { event_id, game_id } => {
                s.append("invalid defending side for goal ");
                push_decimal_i64(*event_id as i64, &mut s);
                s.append(" in game ");
                push_decimal_i64(*game_id as i64, &mut s);
            },
            PipelineError::InvalidGameDate { game_id } => {
                s.append("invalid game date for game ");
                push_decimal_i64(*game_id as i64, &mut s);
            },
            PipelineError::ExtractionFailed { primary, fallback } => {
                s.append("extraction failed; primary cause: ");
                s.append(primary.as_str());
                s.append("; fallback cause: ");
                s.append(fallback.as_str());
            },
            PipelineError::TrackingFetchFailed { detail } => {
                s.append("tracking fetch failed: ");
                s.append(detail.as_str());
            },
            PipelineError::PersistenceFailed { detail } => {
                s.append("persistence failed: ");
                s.append(detail.as_str());
            },
            PipelineError::InvalidArguments { reason } => {
                s.append("invalid arguments: ");
                s.append(reason.as_str());
            },
        }
        proof {
            assert(s@ =~= error_text(*self));
        }
        s
    }
}

} // verus!
