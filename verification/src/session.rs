//! The decision logic of one measurement: collecting one mean delta per
//! run, cross-checking the reported timer period against the requested one,
//! and completing only after a final cleanup whose process count is zero.
//!
//! The surrounding program performs the purges, spawns and waits; every
//! outcome it observes is handed to these functions, which decide what it
//! means.

use vstd::prelude::*;
use crate::error::BenchError;
use crate::helpers::{parse_measurement_output_with_resolution, spec_parse_output};
use crate::math::{abs_diff, spec_abs_diff};
use crate::measurement::{copy_units, TimerMeasurement};
use crate::stats::{spec_stats, RobustStatistics};

verus! {

/// Reported periods within this distance of the requested one (in 100-ns
/// units, i.e. 0.05 ms) count as verified.
pub const VERIFY_TOLERANCE_UNITS: u64 = 500;

/// Beyond this distance (0.10 ms) the measurement fails.
pub const MISMATCH_LIMIT_UNITS: u64 = 1_000;

/// The outcome of cross-checking the helper's reported period.
#[derive(Clone, Copy, Debug, PartialEq, Eq, Structural)]
pub enum ResolutionCheck {
    /// The reported period is within the verification tolerance.
    Verified { reported_units: u64 },
    /// The reported period drifts beyond the tolerance but below the hard
    /// limit: the run continues with a warning.
    Warned { reported_units: u64, diff_units: u64 },
    /// The helper printed no resolution reading: the run continues with a
    /// warning.
    NoReading,
}

/// The verdict on a reported period: verified up to 0.05 ms drift, warned
/// up to 0.10 ms, failed beyond that, and a soft warning when no reading is
/// present.
pub open spec fn spec_resolution_verdict(expected: u64, reported: Option<u64>) -> Result<
    ResolutionCheck,
    BenchError,
> {
    match reported {
        None => Ok(ResolutionCheck::NoReading),
        Some(rep) => {
            let d = spec_abs_diff(expected as int, rep as int);
            if d > MISMATCH_LIMIT_UNITS {
                Err(
                    BenchError::ResolutionMismatch {
                        expected_units: expected,
                        reported_units: rep,
                    },
                )
            } else if d > VERIFY_TOLERANCE_UNITS {
                Ok(ResolutionCheck::Warned { reported_units: rep, diff_units: d as u64 })
            } else {
                Ok(ResolutionCheck::Verified { reported_units: rep })
            }
        },
    }
}

/// Cross-check the reported period against the requested one.
pub fn check_resolution(expected: u64, reported: Option<u64>) -> (r: Result<
    ResolutionCheck,
    BenchError,
>)
    ensures
        r == spec_resolution_verdict(expected, reported),
{
    match reported {
        None => Ok(ResolutionCheck::NoReading),
        Some(rep) => {
            let d = abs_diff(expected, rep);
            if d > MISMATCH_LIMIT_UNITS {
                Err(
                    BenchError::ResolutionMismatch {
                        expected_units: expected,
                        reported_units: rep,
                    },
                )
            } else if d > VERIFY_TOLERANCE_UNITS {
                Ok(ResolutionCheck::Warned { reported_units: rep, diff_units: d })
            } else {
                Ok(ResolutionCheck::Verified { reported_units: rep })
            }
        },
    }
}

/// One measurement in progress: the requested period, the run plan, and the
/// mean deltas collected so far, in run order.
#[derive(Clone, Debug)]
pub struct MeasurementSession {
    /// The requested timer period in 100-ns units.
    pub resolution_units: u64,
    /// How many sleep samples each helper run takes.
    pub samples_per_run: u32,
    /// How many runs this measurement comprises.
    pub num_runs: usize,
    /// One mean delta per completed run, in 100-ns units.
    pub deltas: Vec<u64>,
}

impl MeasurementSession {
    /// Structural bounds: a positive, bounded run plan, and every collected
    /// delta small enough for the statistics.
    pub open spec fn wf(self) -> bool {
        &&& 1 <= self.num_runs < 0x8000_0000
        &&& self.deltas@.len() <= self.num_runs
        &&& forall|i: int| 0 <= i < self.deltas@.len() ==> self.deltas@[i] < 0x1_0000_0000u64
    }

    /// All runs have been collected.
    pub open spec fn complete(self) -> bool {
        self.deltas@.len() == self.num_runs
    }

    /// Start a measurement of `resolution_units` with `num_runs` runs.
    pub fn new(resolution_units: u64, samples_per_run: u32, num_runs: usize) -> (r:
        MeasurementSession)
        requires
            1 <= num_runs < 0x8000_0000,
        ensures
            r.resolution_units == resolution_units,
            r.samples_per_run == samples_per_run,
            r.num_runs == num_runs,
            r.deltas@ == Seq::<u64>::empty(),
            r.wf(),
            !r.complete(),
    {
        let r = MeasurementSession {
            resolution_units,
            samples_per_run,
            num_runs,
            deltas: Vec::new(),
        };
        proof {
            assert(r.deltas@ =~= Seq::<u64>::empty());
        }
        r
    }

    /// Digest one helper run: parse its output, cross-check the reported
    /// period, and append the mean delta.
    ///
    /// On any error the session is unchanged and the caller must abandon the
    /// measurement (after a purge): a run is never silently dropped.
    pub fn record_run_output(&mut self, output: &[u8]) -> (r: Result<ResolutionCheck, BenchError>)
        requires
            old(self).wf(),
            !old(self).complete(),
        ensures
            final(self).wf(),
            final(self).resolution_units == old(self).resolution_units,
            final(self).samples_per_run == old(self).samples_per_run,
            final(self).num_runs == old(self).num_runs,
            ({
                let po = spec_parse_output(output@);
                let new_deltas = final(self).deltas@;
                let old_deltas = old(self).deltas@;
                if po.0 is None || po.1 is None || po.0.unwrap() >= 0x1_0000_0000u64 {
                    (r matches Err(e) && e is InvalidOutput) && new_deltas == old_deltas
                } else {
                    match spec_resolution_verdict(old(self).resolution_units, po.2) {
                        Ok(chk) => r == Ok::<ResolutionCheck, BenchError>(chk) && new_deltas
                            == old_deltas.push(po.0.unwrap()),
                        Err(e) => r == Err::<ResolutionCheck, BenchError>(e) && new_deltas
                            == old_deltas,
                    }
                }
            }),
    {
        match parse_measurement_output_with_resolution(output) {
            Err(e) => Err(e),
            Ok(v) => {
                let (avg_units, _stdev_units, reported) = v;
                if avg_units >= 0x1_0000_0000u64 {
                    // A mean delta of 429 seconds or more cannot be real;
                    // treat it like unparseable output.
                    return Err(BenchError::InvalidOutput);
                }
                match check_resolution(self.resolution_units, reported) {
                    Err(e) => Err(e),
                    Ok(chk) => {
                        self.deltas.push(avg_units);
                        Ok(chk)
                    },
                }
            },
        }
    }

    /// Conclude the measurement after the final cleanup.
    ///
    /// Success requires the independent process count taken after the purge
    /// to be zero: a completed measurement never leaves a period-setter
    /// instance alive. The statistics of the result are exactly
    /// `spec_stats` of the collected deltas.
    pub fn finish(self, remaining_processes: usize) -> (r: Result<TimerMeasurement, BenchError>)
        requires
            self.wf(),
            self.complete(),
        ensures
            match r {
                Ok(m) => remaining_processes == 0 && m.resolution_units == self.resolution_units
                    && m.raw_samples@ == self.deltas@ && m.statistics == spec_stats(self.deltas@),
                Err(e) => remaining_processes != 0 && e == BenchError::StuckProcess(
                    remaining_processes,
                ),
            },
    {
        if remaining_processes != 0 {
            return Err(BenchError::StuckProcess(remaining_processes));
        }
        let samples = self.deltas;
        let stats = RobustStatistics::from_samples(copy_units(&samples));
        Ok(
            TimerMeasurement {
                resolution_units: self.resolution_units,
                statistics: stats,
                raw_samples: samples,
            },
        )
    }
}

} // verus!
