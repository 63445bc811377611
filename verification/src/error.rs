//! The error kinds surfaced by the benchmark core.

use vstd::prelude::*;

verus! {

/// Everything that can go wrong between the privilege check and the final
/// report.
#[derive(Debug, Clone)]
pub enum BenchError {
    /// The process does not run elevated; nothing was measured.
    PermissionDenied,
    /// The parameter set is malformed or holds non-positive values.
    InvalidConfig,
    /// The optimization method choice is not recognized.
    InvalidMethod,
    /// A helper binary is absent.
    MissingHelper,
    /// The period-setter child could not start or exited immediately; the
    /// payload is its captured output.
    SpawnFailed(Vec<u8>),
    /// The period-setter reports a single-instance lock conflict.
    InstanceConflict,
    /// The sleep-measurer exceeded its time budget.
    Timeout,
    /// The sleep-measurer exited with a failure status.
    MeasurementFailed,
    /// The sleep-measurer's output could not be parsed.
    InvalidOutput,
    /// The reported timer period differs from the requested one by more
    /// than a tenth of a millisecond.
    ResolutionMismatch { expected_units: u64, reported_units: u64 },
    /// Cleanup could not bring the period-setter instance count to zero.
    StuckProcess(usize),
}

/// A short stable name for each error kind.
pub open spec fn spec_error_code(e: BenchError) -> Seq<char> {
    match e {
        BenchError::PermissionDenied => "PermissionDenied"@,
        BenchError::InvalidConfig => "InvalidConfig"@,
        BenchError::InvalidMethod => "InvalidMethod"@,
        BenchError::MissingHelper => "MissingHelper"@,
        BenchError::SpawnFailed(_) => "SpawnFailed"@,
        BenchError::InstanceConflict => "InstanceConflict"@,
        BenchError::Timeout => "Timeout"@,
        BenchError::MeasurementFailed => "MeasurementFailed"@,
        BenchError::InvalidOutput => "InvalidOutput"@,
        BenchError::ResolutionMismatch { .. } => "ResolutionMismatch"@,
        BenchError::StuckProcess(_) => "StuckProcess"@,
    }
}

impl BenchError {
    /// The short stable name of this error kind.
    pub fn code(&self) -> (r: &'static str)
        ensures
            r@ == spec_error_code(*self),
    {
        match self {
            BenchError::PermissionDenied => "PermissionDenied",
            BenchError::InvalidConfig => "InvalidConfig",
            BenchError::InvalidMethod => "InvalidMethod",
            BenchError::MissingHelper => "MissingHelper",
            BenchError::SpawnFailed(_) => "SpawnFailed",
            BenchError::InstanceConflict => "InstanceConflict",
            BenchError::Timeout => "Timeout",
            BenchError::MeasurementFailed => "MeasurementFailed",
            BenchError::InvalidOutput => "InvalidOutput",
            BenchError::ResolutionMismatch { .. } => "ResolutionMismatch",
            BenchError::StuckProcess(_) => "StuckProcess",
        }
    }
}

} // verus!
