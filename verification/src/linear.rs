//! The linear exhaustive sweep: which periods are visited, and the smoothed
//! time-remaining estimate shown while sweeping.

use vstd::prelude::*;
use crate::config::BenchmarkParameters;
use crate::error::BenchError;
use crate::math::lemma_div_le_bound;

verus! {

/// `ceil((end - start) / inc)`: how many points the sweep visits; zero for
/// an empty range.
pub open spec fn spec_total_points(start: int, end: int, inc: int) -> int {
    if end <= start {
        0
    } else {
        (end - start + inc - 1) / inc
    }
}

/// The points of the sweep: `start + k * inc` for `k` below the total,
/// driven by the integer index so no rounding drift accumulates.
///
/// The plan visits exactly `min(total, (end - start) / inc + 1)` periods —
/// which equals the total, as the postconditions state — and never
/// overshoots `end`. A range with `end <= start` has no points and is
/// rejected.
pub fn plan_points(params: &BenchmarkParameters) -> (r: Result<Vec<u64>, BenchError>)
    requires
        params.increment_units >= 1,
        params.end_units < 0x1000_0000_0000_0000u64,
        params.increment_units < 0x1000_0000_0000_0000u64,
    ensures
        ({
            let start = params.start_units as int;
            let end = params.end_units as int;
            let inc = params.increment_units as int;
            match r {
                Ok(points) => end > start && points@.len() == spec_total_points(start, end, inc)
                    && spec_total_points(start, end, inc) <= (end - start) / inc + 1 && (forall|
                    k: int,
                |
                    0 <= k < points@.len() ==> points@[k] == start + k * inc) && (forall|k: int|
                    0 <= k < points@.len() ==> #[trigger] points@[k] < end) && (forall|
                    k1: int,
                    k2: int,
                |
                    0 <= k1 < k2 < points@.len() ==> points@[k1] < points@[k2]),
                Err(e) => e is InvalidConfig && end <= start,
            }
        }),
{
    let start = params.start_units;
    let end = params.end_units;
    let inc = params.increment_units;
    if end <= start {
        return Err(BenchError::InvalidConfig);
    }
    let d: u64 = end - start;
    let tp: u64 = (d + inc - 1) / inc;
    proof {
        let di = d as int;
        let inci = inc as int;
        vstd::arithmetic::div_mod::lemma_fundamental_div_mod(di - 1, inci);
        let q = (di - 1) / inci;
        let rm = (di - 1) % inci;
        assert(di - 1 == inci * q + rm);
        assert(di + inci - 1 == (q + 1) * inci + rm) by (nonlinear_arith)
            requires
                di - 1 == inci * q + rm,
        ;
        vstd::arithmetic::div_mod::lemma_fundamental_div_mod_converse(
            di + inci - 1,
            inci,
            q + 1,
            rm,
        );
        assert(tp as int == q + 1);
        vstd::arithmetic::div_mod::lemma_div_is_ordered(di - 1, di, inci);
        assert(q >= 0) by {
            vstd::arithmetic::div_mod::lemma_div_pos_is_pos(di - 1, inci);
        }
        // q * inc <= d - 1, so no visited point reaches `end`.
        assert(q * inci == di - 1 - rm) by (nonlinear_arith)
            requires
                di - 1 == inci * q + rm,
        ;
    }
    let mut points: Vec<u64> = Vec::new();
    let mut k: u64 = 0;
    while k < tp
        invariant
            0 <= k <= tp,
            tp as int == spec_total_points(start as int, end as int, inc as int),
            start < end,
            inc >= 1,
            end < 0x1000_0000_0000_0000u64,
            inc < 0x1000_0000_0000_0000u64,
            d == end - start,
            (tp as int - 1) * (inc as int) <= d - 1,
            points@.len() == k,
            forall|t: int|
                0 <= t < k ==> points@[t] == start as int + t * (inc as int),
            forall|t: int| 0 <= t < k ==> #[trigger] points@[t] < end,
        decreases tp - k,
    {
        proof {
            assert((k as int) * (inc as int) <= (tp as int - 1) * (inc as int)) by (nonlinear_arith)
                requires
                    k < tp,
                    inc >= 1,
            ;
        }
        let current: u64 = start + k * inc;
        // The index-driven reconstruction provably never overshoots the end
        // of the range, so no runtime guard is needed.
        proof {
            assert(current < end);
        }
        points.push(current);
        k = k + 1;
    }
    proof {
        assert(points@.len() == tp as int);
        vstd::arithmetic::div_mod::lemma_div_is_ordered(
            d as int - 1,
            d as int,
            inc as int,
        );
        assert(spec_total_points(start as int, end as int, inc as int) <= (d as int) / (inc as int)
            + 1);
        assert forall|k1: int, k2: int|
            0 <= k1 < k2 < points@.len() implies points@[k1] < points@[k2] by {
            assert(k1 * (inc as int) < k2 * (inc as int)) by (nonlinear_arith)
                requires
                    k1 < k2,
                    (inc as int) >= 1,
            ;
        }
    }
    Ok(points)
}

/// How many points the sweep will visit; used for the operator warning when
/// the count is very large.
pub fn total_points(params: &BenchmarkParameters) -> (r: u64)
    requires
        params.increment_units >= 1,
        params.end_units < 0x1000_0000_0000_0000u64,
        params.increment_units < 0x1000_0000_0000_0000u64,
    ensures
        r as int == spec_total_points(
            params.start_units as int,
            params.end_units as int,
            params.increment_units as int,
        ),
{
    if params.end_units <= params.start_units {
        0
    } else {
        (params.end_units - params.start_units + params.increment_units - 1)
            / params.increment_units
    }
}

/// Point counts above this trigger an operator confirmation.
pub const POINT_WARNING_LIMIT: u64 = 100_000;

/// ETA is shown only after this many completed points.
pub const ETA_MIN_SAMPLES: usize = 5;

/// The smoothed per-point wall time, an exponential moving average with a
/// smoothing factor of 0.15, and the count of completed points.
#[derive(Clone, Copy, Debug, PartialEq, Eq, Structural)]
pub struct EtaTracker {
    /// Smoothed milliseconds per point; `None` before the first point.
    pub ema_millis: Option<u64>,
    /// Completed points.
    pub completed: usize,
}

impl EtaTracker {
    /// The smoothed value stays below half a gigasecond.
    pub open spec fn wf(self) -> bool {
        match self.ema_millis {
            Some(e) => e < 0x2000_0000u64,
            None => true,
        }
    }

    /// A fresh tracker.
    pub fn new() -> (r: EtaTracker)
        ensures
            r.ema_millis is None,
            r.completed == 0,
            r.wf(),
    {
        EtaTracker { ema_millis: None, completed: 0 }
    }

    /// Record one completed point that took `elapsed_millis`:
    /// `ema' = 0.15 * elapsed + 0.85 * ema`, or the plain value the first
    /// time.
    pub fn record_point(&mut self, elapsed_millis: u64)
        requires
            old(self).wf(),
            elapsed_millis < 0x2000_0000u64,
            old(self).completed < usize::MAX,
        ensures
            final(self).wf(),
            final(self).completed == old(self).completed + 1,
            match old(self).ema_millis {
                None => final(self).ema_millis == Some(elapsed_millis),
                Some(p) => final(self).ema_millis == Some(
                    (((15 * elapsed_millis + 85 * p) / 100) as u64),
                ),
            },
    {
        match self.ema_millis {
            None => {
                self.ema_millis = Some(elapsed_millis);
            },
            Some(p) => {
                proof {
                    lemma_div_le_bound(
                        15 * (elapsed_millis as int) + 85 * (p as int),
                        100,
                        0x2000_0000int - 1,
                    );
                }
                self.ema_millis = Some((15 * elapsed_millis + 85 * p) / 100);
            },
        }
        self.completed = self.completed + 1;
    }

    /// The estimated remaining time: smoothed per-point time times the
    /// remaining count, emitted only once enough points have completed.
    pub fn eta_millis(&self, remaining_points: usize) -> (r: Option<u64>)
        requires
            self.wf(),
            remaining_points < 0x8000_0000,
        ensures
            match r {
                Some(v) => self.completed >= ETA_MIN_SAMPLES && self.ema_millis is Some && v as int
                    == self.ema_millis.unwrap() * remaining_points,
                None => self.completed < ETA_MIN_SAMPLES || self.ema_millis is None,
            },
    {
        if self.completed < ETA_MIN_SAMPLES {
            return None;
        }
        match self.ema_millis {
            None => None,
            Some(e) => {
                proof {
                    assert((e as int) * (remaining_points as int) < 0x2000_0000i64
                        * 0x8000_0000i64) by (nonlinear_arith)
                        requires
                            e < 0x2000_0000u64,
                            remaining_points < 0x8000_0000,
                    ;
                }
                Some(e * (remaining_points as u64))
            },
        }
    }
}

} // verus!
