//! Benchmark parameters and the choice of search method.

use vstd::prelude::*;
use crate::error::BenchError;
use crate::parsing::{spec_trim, trim_range};

verus! {

/// The sweep parameters, in 100-ns units, and the per-run sample count.
///
/// The search range is `[start_units, end_units]` stepped by
/// `increment_units`; all three must be positive, and a meaningful range has
/// `start_units < end_units`.
#[derive(Clone, Copy, Debug, PartialEq, Eq, Structural)]
pub struct BenchmarkParameters {
    pub start_units: u64,
    pub increment_units: u64,
    pub end_units: u64,
    pub samples_per_run: u32,
}

impl BenchmarkParameters {
    /// All fields are positive.
    pub open spec fn positive(self) -> bool {
        self.start_units > 0 && self.increment_units > 0 && self.end_units > 0
            && self.samples_per_run > 0
    }

    /// Reject parameter sets with a non-positive field.
    pub fn validate(&self) -> (r: Result<(), BenchError>)
        ensures
            r is Ok <==> self.positive(),
            r is Err ==> r->Err_0 is InvalidConfig,
    {
        if self.start_units > 0 && self.increment_units > 0 && self.end_units > 0
            && self.samples_per_run > 0 {
            Ok(())
        } else {
            Err(BenchError::InvalidConfig)
        }
    }
}

/// The two search strategies.
#[derive(Clone, Copy, Debug, PartialEq, Eq, Structural)]
pub enum OptimizationMethod {
    Linear,
    Bayesian,
}

/// Interpret the operator's method choice: `1` is the linear sweep, `2` or
/// an empty answer is the Bayesian search, anything else is rejected.
pub fn choose_method(input: &[u8]) -> (r: Result<OptimizationMethod, BenchError>)
    ensures
        spec_trim(input@) == seq![49u8] ==> r == Ok::<OptimizationMethod, BenchError>(
            OptimizationMethod::Linear,
        ),
        (spec_trim(input@) == seq![50u8] || spec_trim(input@) == Seq::<u8>::empty()) ==> r == Ok::<
            OptimizationMethod,
            BenchError,
        >(OptimizationMethod::Bayesian),
        (spec_trim(input@) != seq![49u8] && spec_trim(input@) != seq![50u8] && spec_trim(input@)
            != Seq::<u8>::empty()) ==> r == Err::<OptimizationMethod, BenchError>(
            BenchError::InvalidMethod,
        ),
{
    let len = input.len();
    let (lo, hi) = trim_range(input, 0, len);
    proof {
        assert(input@.subrange(0, len as int) =~= input@);
    }
    let tlen = hi - lo;
    proof {
        assert(seq![49u8].len() == 1 && seq![49u8][0] == 49u8);
        assert(seq![50u8].len() == 1 && seq![50u8][0] == 50u8);
        assert(spec_trim(input@).len() == hi - lo);
    }
    if tlen == 1 && input[lo] == 49 {
        proof {
            assert(spec_trim(input@) =~= seq![49u8]);
            assert(spec_trim(input@) != seq![50u8]);
        }
        Ok(OptimizationMethod::Linear)
    } else if tlen == 0 {
        proof {
            assert(spec_trim(input@) =~= Seq::<u8>::empty());
        }
        Ok(OptimizationMethod::Bayesian)
    } else if tlen == 1 && input[lo] == 50 {
        proof {
            assert(spec_trim(input@) =~= seq![50u8]);
            assert(spec_trim(input@) != seq![49u8]);
        }
        Ok(OptimizationMethod::Bayesian)
    } else {
        proof {
            let t = spec_trim(input@);
            assert(t == input@.subrange(lo as int, hi as int));
            if t == seq![49u8] {
                assert(t.len() == 1 && t[0] == 49);
                assert(input@[lo as int] == 49);
                assert(false);
            }
            if t == seq![50u8] {
                assert(t.len() == 1 && t[0] == 50);
                assert(input@[lo as int] == 50);
                assert(false);
            }
        }
        Err(BenchError::InvalidMethod)
    }
}

/// The privilege gate: the benchmark refuses to run without elevation.
pub fn precheck_admin(is_elevated: bool) -> (r: Result<(), BenchError>)
    ensures
        r is Ok <==> is_elevated,
        r is Err ==> r->Err_0 is PermissionDenied,
{
    if is_elevated {
        Ok(())
    } else {
        Err(BenchError::PermissionDenied)
    }
}

/// The dependency gate: both helper binaries must be present.
pub fn helpers_present(set_timer_found: bool, measure_sleep_found: bool) -> (r: Result<
    (),
    BenchError,
>)
    ensures
        r is Ok <==> (set_timer_found && measure_sleep_found),
        r is Err ==> r->Err_0 is MissingHelper,
{
    if set_timer_found && measure_sleep_found {
        Ok(())
    } else {
        Err(BenchError::MissingHelper)
    }
}

} // verus!
