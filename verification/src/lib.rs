//! Timer interrupt period benchmarking: robust statistics over sleep-latency
//! samples, multi-criteria TOPSIS ranking, and the decision logic of the
//! measurement pipeline.
//!
//! Every duration is carried as an integer number of 100-nanosecond units
//! (the granularity at which the platform timer can be programmed); one
//! millisecond is `10_000` units.

pub mod bayesian;
pub mod config;
pub mod error;
pub mod linear;
pub mod guard;
pub mod helpers;
pub mod language;
pub mod localization;
pub mod localization_key;
pub mod session;
pub mod math;
pub mod orchestrator;
pub mod parsing;
pub mod report;
pub mod measurement;
pub mod stats;
pub mod sysconfig;
pub mod topsis;
pub mod units;

use vstd::prelude::*;

verus! {

/// Number of 100-nanosecond units in one millisecond.
pub const UNITS_PER_MS: u64 = 10_000;

} // verus!
