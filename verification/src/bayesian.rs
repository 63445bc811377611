//! The sample-efficient search: the optimizer's observation list, the
//! Latin-hypercube seeding, the exploration schedule, the acquisition grid,
//! and the argmin over acquisition values.
//!
//! The Gaussian-kernel surrogate itself evaluates `exp` over real numbers
//! and is computed by the surrounding program; everything it consumes and
//! everything decided from its output is specified here.

use vstd::prelude::*;
use crate::math::lemma_div_le_bound;
use crate::measurement::TimerMeasurement;
use crate::stats::PerformanceWeights;

verus! {

/// How many seed points the Latin-hypercube phase measures.
pub const SEED_POINTS: usize = 5;

/// The total observation budget: seed points plus acquisition steps.
pub const MAX_OBSERVATIONS: usize = 15;

/// How many evenly spaced candidates the acquisition scan evaluates.
pub const ACQUISITION_GRID: usize = 200;

/// Exploration weights are carried scaled by `10_000`: `25_000` is a kappa
/// of 2.5.
pub const KAPPA_SCALE: u64 = 10_000;

/// The optimizer's state: the observations in the order they were made,
/// the kernel width of the surrogate, and the score weights.
#[derive(Clone, Debug)]
pub struct BayesianOptimizer {
    /// Append-only list of measurements, in observation order.
    pub observations: Vec<TimerMeasurement>,
    /// The Gaussian kernel width, in 100-ns units.
    pub kernel_width_units: u64,
    /// The weights of the composite performance score.
    pub weights: PerformanceWeights,
}

impl BayesianOptimizer {
    /// A fresh optimizer with no observations.
    pub fn new(kernel_width_units: u64, weights: PerformanceWeights) -> (r: BayesianOptimizer)
        ensures
            r.observations@.len() == 0,
            r.kernel_width_units == kernel_width_units,
            r.weights == weights,
    {
        BayesianOptimizer { observations: Vec::new(), kernel_width_units, weights }
    }

    /// Append one observation.
    pub fn add_observation(&mut self, measurement: TimerMeasurement)
        requires
            old(self).observations@.len() < usize::MAX,
        ensures
            final(self).observations@ == old(self).observations@.push(measurement),
            final(self).kernel_width_units == old(self).kernel_width_units,
            final(self).weights == old(self).weights,
    {
        self.observations.push(measurement);
    }
}

/// The kernel width used by the search: 15% of the range.
pub fn kernel_width(low: u64, high: u64) -> (r: u64)
    requires
        low <= high,
        high < 0x1000_0000_0000_0000u64,
    ensures
        r as int == 15 * (high - low) / 100,
{
    15 * (high - low) / 100
}

/// One-dimensional Latin-hypercube seeding: partition `[low, high]` into
/// `n` equal segments and take each segment's midpoint.
pub fn latin_hypercube_midpoints(low: u64, high: u64, n: usize) -> (r: Vec<u64>)
    requires
        low < high,
        high < 0x1_0000_0000_0000u64,
        1 <= n < 0x1000,
    ensures
        r@.len() == n,
        forall|i: int|
            0 <= i < n ==> r@[i] == low + (2 * i + 1) * ((high - low) as int) / (2 * (n as int)),
        forall|i: int| 0 <= i < n ==> low <= #[trigger] r@[i] < high,
{
    let d: u64 = high - low;
    let den: u64 = 2 * (n as u64);
    let mut r: Vec<u64> = Vec::new();
    let mut i: u64 = 0;
    while i < n as u64
        invariant
            0 <= i <= n as u64,
            d == high - low,
            low < high,
            den == 2 * (n as int),
            1 <= n < 0x1000,
            high < 0x1_0000_0000_0000u64,
            r@.len() == i,
            forall|t: int|
                0 <= t < i ==> r@[t] == low + (2 * t + 1) * (d as int) / (den as int),
            forall|t: int| 0 <= t < i ==> low <= #[trigger] r@[t] < high,
        decreases n as u64 - i,
    {
        proof {
            assert((2 * (i as int) + 1) * (d as int) <= (den as int) * ((d as int) - 1) + (
            den as int - 1)) by (nonlinear_arith)
                requires
                    2 * (i as int) + 1 <= den as int - 1,
                    den as int >= 2,
                    d >= 1,
            ;
            lemma_div_le_bound(
                (2 * (i as int) + 1) * (d as int),
                den as int,
                (d as int) - 1,
            );
            assert((2 * (i as int) + 1) * (d as int) < 0x4000_0000_0000_0000i128 as int)
                by (nonlinear_arith)
                requires
                    2 * (i as int) + 1 < 0x2000i64,
                    d < 0x1_0000_0000_0000u64,
            ;
        }
        let offset: u64 = ((2 * i + 1) * d) / den;
        r.push(low + offset);
        i = i + 1;
    }
    r
}

/// The exploration weight of acquisition iteration `iter`: scheduled
/// linearly from 2.5 at the first post-seed iteration down to 0.5 at the
/// last, on the `KAPPA_SCALE` fixed-point scale.
pub open spec fn spec_kappa(iter: int, seed: int, max: int) -> int {
    let den = max - 1 - seed;
    if den <= 0 {
        25_000
    } else {
        25_000 - 20_000 * (iter - seed) / den
    }
}

/// The scheduled kappa for one acquisition iteration.
pub fn kappa_at(iter: usize, seed: usize, max: usize) -> (r: u64)
    requires
        seed <= iter < max,
        max < 0x1000_0000,
    ensures
        r as int == spec_kappa(iter as int, seed as int, max as int),
        iter == seed ==> r == 25_000,
        (max - 1 > seed && iter == max - 1) ==> r == 5_000,
{
    if max - 1 <= seed {
        return 25_000;
    }
    let den: u64 = (max - 1 - seed) as u64;
    let num: u64 = 20_000 * ((iter - seed) as u64);
    proof {
        assert(20_000int * ((iter - seed) as int) <= (den as int) * 20_000) by (nonlinear_arith)
            requires
                (iter - seed) as int <= den as int,
        ;
        lemma_div_le_bound(num as int, den as int, 20_000int);
        if iter == max - 1 {
            assert((iter - seed) as int == den as int);
            assert(20_000int * (den as int) == (den as int) * 20_000 + 0) by (nonlinear_arith);
            vstd::arithmetic::div_mod::lemma_fundamental_div_mod_converse(
                20_000 * (den as int),
                den as int,
                20_000,
                0,
            );
        }
        if iter == seed {
            assert(num == 0);
            vstd::arithmetic::div_mod::lemma_div_pos_is_pos(0, den as int);
            vstd::arithmetic::div_mod::lemma_fundamental_div_mod_converse(0, den as int, 0, 0);
        }
    }
    25_000 - num / den
}

/// The evenly spaced acquisition candidates over `[low, high)`.
pub fn grid_points(low: u64, high: u64, n: usize) -> (r: Vec<u64>)
    requires
        low <= high,
        high < 0x1000_0000_0000_0000u64,
        1 <= n < 0x1000_0000,
    ensures
        r@.len() == n,
        forall|k: int|
            0 <= k < n ==> r@[k] == low + k * (((high - low) as int) / (n as int)),
        forall|k: int| 0 <= k < n ==> low <= #[trigger] r@[k] <= high,
{
    let d: u64 = high - low;
    let step: u64 = d / (n as u64);
    proof {
        assert(d as int <= (n as int) * (d as int) + (n as int - 1)) by (nonlinear_arith)
            requires
                n as int >= 1,
                d as int >= 0,
        ;
        lemma_div_le_bound(d as int, n as int, d as int);
    }
    let mut r: Vec<u64> = Vec::new();
    let mut k: u64 = 0;
    while k < n as u64
        invariant
            0 <= k <= n as u64,
            d == high - low,
            low <= high,
            high < 0x1000_0000_0000_0000u64,
            1 <= n < 0x1000_0000,
            step as int == (d as int) / (n as int),
            step <= d,
            r@.len() == k,
            forall|t: int| 0 <= t < k ==> r@[t] == low + t * (step as int),
            forall|t: int| 0 <= t < k ==> low <= #[trigger] r@[t] <= high,
        decreases n as u64 - k,
    {
        proof {
            assert((k as int) * (step as int) <= ((n as int) - 1) * (step as int))
                by (nonlinear_arith)
                requires
                    k as int <= (n as int) - 1,
                    step >= 0,
            ;
            vstd::arithmetic::div_mod::lemma_fundamental_div_mod(d as int, n as int);
            assert(((n as int) - 1) * (step as int) <= (n as int) * (step as int) - step)
                by (nonlinear_arith);
            assert((n as int) * (step as int) <= d as int) by (nonlinear_arith)
                requires
                    d as int == (n as int) * (step as int) + (d as int) % (n as int),
                    (d as int) % (n as int) >= 0,
            ;
        }
        r.push(low + k * step);
        k = k + 1;
    }
    r
}

/// The index of the smallest value; ties go to the earliest index, so the
/// scan is deterministic.
pub fn argmin_first(values: &Vec<u64>) -> (r: usize)
    requires
        values@.len() >= 1,
    ensures
        0 <= r < values@.len(),
        forall|k: int| 0 <= k < values@.len() ==> values@[r as int] <= #[trigger] values@[k],
        forall|k: int| 0 <= k < r ==> values@[r as int] < #[trigger] values@[k],
{
    let mut best: usize = 0;
    let mut i: usize = 1;
    while i < values.len()
        invariant
            0 <= best < i <= values@.len(),
            forall|k: int| 0 <= k < i ==> values@[best as int] <= #[trigger] values@[k],
            forall|k: int| 0 <= k < best ==> values@[best as int] < #[trigger] values@[k],
        decreases values@.len() - i,
    {
        if values[i] < values[best] {
            best = i;
        }
        i = i + 1;
    }
    best
}

/// What the search driver does at one point of its schedule.
#[derive(Clone, Copy, Debug, PartialEq, Eq, Structural)]
pub enum DriverStep {
    /// Measure seed point `i` of the Latin-hypercube phase.
    MeasureSeed(usize),
    /// Measure the acquisition argmin, exploring with the given kappa.
    MeasureAcquired { kappa_scaled: u64 },
    /// The observation budget is spent.
    Finished,
}

/// The schedule as a function of how many observations were taken: seed
/// measurements first, then acquisition measurements, then nothing.
pub open spec fn spec_driver_step(seed: int, max: int, taken: int) -> DriverStep {
    if taken < seed {
        DriverStep::MeasureSeed(taken as usize)
    } else if taken < max {
        DriverStep::MeasureAcquired { kappa_scaled: spec_kappa(taken, seed, max) as u64 }
    } else {
        DriverStep::Finished
    }
}

/// The search driver's schedule state: how many observations were taken of
/// the budget.
#[derive(Clone, Copy, Debug, PartialEq, Eq, Structural)]
pub struct BayesDriver {
    pub seed_count: usize,
    pub max_observations: usize,
    pub taken: usize,
}

impl BayesDriver {
    pub open spec fn wf(self) -> bool {
        1 <= self.seed_count <= self.max_observations < 0x1000_0000 && self.taken
            <= self.max_observations
    }

    /// A driver that has measured nothing yet.
    pub fn new(seed_count: usize, max_observations: usize) -> (r: BayesDriver)
        requires
            1 <= seed_count <= max_observations < 0x1000_0000,
        ensures
            r.seed_count == seed_count,
            r.max_observations == max_observations,
            r.taken == 0,
            r.wf(),
    {
        BayesDriver { seed_count, max_observations, taken: 0 }
    }

    /// What to do next: measure the next seed point while fewer than
    /// `seed_count` observations exist, then measure acquisition suggestions
    /// until exactly `max_observations` observations exist, then stop.
    pub fn next_step(&self) -> (r: DriverStep)
        requires
            self.wf(),
        ensures
            r == spec_driver_step(
                self.seed_count as int,
                self.max_observations as int,
                self.taken as int,
            ),
            (r is Finished <==> self.taken >= self.max_observations),
    {
        if self.taken < self.seed_count {
            DriverStep::MeasureSeed(self.taken)
        } else if self.taken < self.max_observations {
            let k = kappa_at(self.taken, self.seed_count, self.max_observations);
            DriverStep::MeasureAcquired { kappa_scaled: k }
        } else {
            DriverStep::Finished
        }
    }

    /// Note that one observation was made.
    pub fn note_observation(&mut self)
        requires
            old(self).wf(),
            old(self).taken < old(self).max_observations,
        ensures
            final(self).wf(),
            final(self).seed_count == old(self).seed_count,
            final(self).max_observations == old(self).max_observations,
            final(self).taken == old(self).taken + 1,
    {
        self.taken = self.taken + 1;
    }
}

/// The driver measures at every schedule position below the budget and at
/// none from the budget on: a run that starts at zero therefore performs
/// exactly `max` observations — `seed` of them seed points, `max - seed`
/// acquisition steps — before it finishes.
pub proof fn lemma_driver_budget(seed: int, max: int)
    requires
        1 <= seed <= max,
    ensures
        forall|t: int|
            0 <= t < seed ==> #[trigger] spec_driver_step(seed, max, t) is MeasureSeed,
        forall|t: int|
            seed <= t < max ==> #[trigger] spec_driver_step(seed, max, t) is MeasureAcquired,
        forall|t: int| t >= max ==> #[trigger] spec_driver_step(seed, max, t) is Finished,
        seed + (max - seed) == max,
{
}

} // verus!
