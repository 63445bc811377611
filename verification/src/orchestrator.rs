//! The run's phase machine: configuration, prechecks, measurement,
//! ranking, reporting. On a failure after measuring began, the run still
//! reports if at least one measurement succeeded; otherwise it aborts.
//! Every terminal transition is followed by a process purge, which the
//! surrounding program performs through the guard.

use vstd::prelude::*;
use crate::error::BenchError;
use crate::helpers::{parse_measurement_output, spec_parse_output};

verus! {

/// The phases of one benchmark run.
#[derive(Clone, Copy, Debug, PartialEq, Eq, Structural)]
pub enum Phase {
    Init,
    Configured,
    Prechecked,
    Measuring,
    Ranking,
    Reported,
    Aborted,
    Exited,
}

/// The run's phase and how many measurements completed.
#[derive(Clone, Copy, Debug, PartialEq, Eq, Structural)]
pub struct Orchestrator {
    pub phase: Phase,
    pub measurements_completed: usize,
}

impl Orchestrator {
    /// A run that has not started yet.
    pub fn new() -> (r: Orchestrator)
        ensures
            r.phase == Phase::Init,
            r.measurements_completed == 0,
    {
        Orchestrator { phase: Phase::Init, measurements_completed: 0 }
    }

    /// Parameters were read, overridden and persisted.
    pub fn note_configured(&mut self)
        requires
            old(self).phase == Phase::Init,
        ensures
            final(self).phase == Phase::Configured,
            final(self).measurements_completed == old(self).measurements_completed,
    {
        self.phase = Phase::Configured;
    }

    /// Privileges, helpers and the smoke test all passed.
    pub fn note_prechecked(&mut self)
        requires
            old(self).phase == Phase::Configured,
        ensures
            final(self).phase == Phase::Prechecked,
            final(self).measurements_completed == old(self).measurements_completed,
    {
        self.phase = Phase::Prechecked;
    }

    /// The chosen search started measuring.
    pub fn note_measuring(&mut self)
        requires
            old(self).phase == Phase::Prechecked,
        ensures
            final(self).phase == Phase::Measuring,
            final(self).measurements_completed == old(self).measurements_completed,
    {
        self.phase = Phase::Measuring;
    }

    /// One measurement completed.
    pub fn note_measurement(&mut self)
        requires
            old(self).phase == Phase::Measuring,
            old(self).measurements_completed < usize::MAX,
        ensures
            final(self).phase == Phase::Measuring,
            final(self).measurements_completed == old(self).measurements_completed + 1,
    {
        self.measurements_completed = self.measurements_completed + 1;
    }

    /// Measuring ended and ranking began.
    pub fn note_ranking(&mut self)
        requires
            old(self).phase == Phase::Measuring,
            old(self).measurements_completed >= 1,
        ensures
            final(self).phase == Phase::Ranking,
            final(self).measurements_completed == old(self).measurements_completed,
    {
        self.phase = Phase::Ranking;
    }

    /// The report was persisted.
    pub fn note_reported(&mut self)
        requires
            old(self).phase == Phase::Ranking,
        ensures
            final(self).phase == Phase::Reported,
            final(self).measurements_completed == old(self).measurements_completed,
    {
        self.phase = Phase::Reported;
    }

    /// A failure: after measuring began, the run still reports when at
    /// least one measurement succeeded; otherwise it aborts.
    pub fn note_failure(&mut self)
        ensures
            final(self).measurements_completed == old(self).measurements_completed,
            final(self).phase == (if (old(self).phase == Phase::Measuring || old(self).phase
                == Phase::Ranking) && old(self).measurements_completed >= 1 {
                Phase::Reported
            } else {
                Phase::Aborted
            }),
    {
        if (matches!(self.phase, Phase::Measuring) || matches!(self.phase, Phase::Ranking))
            && self.measurements_completed >= 1 {
            self.phase = Phase::Reported;
        } else {
            self.phase = Phase::Aborted;
        }
    }

    /// The operator acknowledged the report and the run ended.
    pub fn note_exited(&mut self)
        requires
            old(self).phase == Phase::Reported,
        ensures
            final(self).phase == Phase::Exited,
            final(self).measurements_completed == old(self).measurements_completed,
    {
        self.phase = Phase::Exited;
    }

    /// The phases after which nothing more happens; each is entered
    /// together with a final purge.
    pub open spec fn terminal(self) -> bool {
        self.phase == Phase::Exited || self.phase == Phase::Aborted
    }
}

/// Judge the pre-flight helper invocation: a failing exit status is fatal,
/// and on success its output must parse like a measurement.
pub fn evaluate_smoke_test(exit_ok: bool, output: &[u8]) -> (r: Result<(u64, u64), BenchError>)
    ensures
        !exit_ok ==> (r matches Err(e) && e is MeasurementFailed),
        exit_ok ==> match r {
            Ok(v) => spec_parse_output(output@).0 == Some(v.0) && spec_parse_output(output@).1
                == Some(v.1),
            Err(e) => e is InvalidOutput && (spec_parse_output(output@).0 is None
                || spec_parse_output(output@).1 is None),
        },
{
    if !exit_ok {
        return Err(BenchError::MeasurementFailed);
    }
    parse_measurement_output(output)
}

} // verus!
