//! Operational tracking for fleets of autonomous aerial assets grouped into
//! convoys: per-asset accuracy counters and streaks, convoy rankings, a
//! dual-tier (hot/cold) persistence core with explicit read and write
//! strategies, an in-process event broker with bounded subscriber buffers,
//! and an in-memory analytics engine over ingested engagement records.

use vstd::prelude::*;

pub mod accuracy;
pub mod api;
pub mod analytics;
pub mod broker;
pub mod domain;
pub mod entities;
pub mod errors;
pub mod ids;
pub mod kv;
pub mod numtext;
pub mod ranking;
pub mod report;
pub mod repos;
pub mod repository;
pub mod strategy;
pub mod tiers;
pub mod timefmt;

verus! {

/// Crate version string; never empty.
pub fn version() -> (v: String)
    ensures
        v@.len() > 0,
{
    proof {
        reveal_strlit("0.1.0");
    }
    String::from_str("0.1.0")
}

} // verus!
