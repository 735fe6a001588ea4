//! Verified core of a sports goal-data export pipeline.
//!
//! The library normalizes two upstream game-detail response shapes into one
//! canonical per-game record, decomposes date ranges into bounded schedule
//! query windows, and derives the on-disk layout and byte content of the
//! persisted artifacts.  All I/O stays outside the library: callers fetch
//! responses and write files, the library computes and decides.

pub mod artifact;
pub mod dates;
pub mod errors;
pub mod extract;
pub mod laws;
pub mod period;
pub mod runner;
pub mod schedule;
pub mod text;
