//! The interface text accessors: each one builds a display string from the
//! catalog and its arguments, and its contract states the exact text.
//!
//! Numeric arguments are 100-ns unit values unless named otherwise, and are
//! rendered in milliseconds with four decimal places.

use vstd::prelude::*;
use crate::language::Language;
use crate::localization_key::{spec_text, LocalizationKey};
use crate::units::{fmt_u64, fmt_units_ms, fmt_usize, spec_dec_str, spec_ms_str};

verus! {

/// The interface text accessor for a chosen language.
///
/// Every lookup dispatches to the chosen language's catalog; the
/// non-English catalogs carry the translations this project defines and
/// fall back to the English table for the rest.
#[derive(Clone, Copy, Debug, PartialEq, Eq, Structural)]
pub struct Localization {
    pub language: Language,
}

impl Localization {
    /// An accessor for the given language.
    pub fn new(language: Language) -> (r: Localization)
        ensures
            r.language == language,
    {
        Localization { language }
    }

    /// The catalog text of a key in the chosen language.
    pub fn get(&self, key: LocalizationKey) -> (r: &'static str)
        ensures
            r@ == spec_text(self.language, key),
    {
        match self.language {
            Language::English => key.get_english(),
            Language::Ukrainian => key.get_ukrainian(),
            Language::Russian => key.get_russian(),
            Language::Chinese => key.get_chinese(),
        }
    }

    /// A catalog text followed by a plain argument.
    fn tail(&self, key: LocalizationKey, arg: &str) -> (r: String)
        ensures
            r@ == spec_text(self.language, key) + arg@,
    {
        let mut s = String::new();
        s.append(self.get(key));
        s.append(arg);
        s
    }

    /// A catalog text followed by a value in milliseconds.
    fn tail_ms(&self, key: LocalizationKey, units: u64) -> (r: String)
        ensures
            r@ == spec_text(self.language, key) + spec_ms_str(units as int) + " ms"@,
    {
        let mut s = String::new();
        s.append(self.get(key));
        s.append(fmt_units_ms(units).as_str());
        s.append(" ms");
        s
    }

    /// A catalog text followed by a count.
    fn tail_count(&self, key: LocalizationKey, count: u64) -> (r: String)
        ensures
            r@ == spec_text(self.language, key) + spec_dec_str(count as int),
    {
        let mut s = String::new();
        s.append(self.get(key));
        s.append(fmt_u64(count).as_str());
        s
    }

    pub fn get_working_dir(&self, path: &str) -> (r: String)
        ensures
            r@ == spec_text(self.language, LocalizationKey::WorkingDir) + path@,
    {
        self.tail(LocalizationKey::WorkingDir, path)
    }

    pub fn get_windows_version(&self, info: &str) -> (r: String)
        ensures
            r@ == spec_text(self.language, LocalizationKey::WindowsVersion) + info@,
    {
        self.tail(LocalizationKey::WindowsVersion, info)
    }

    pub fn get_cpu(&self, cpu: &str) -> (r: String)
        ensures
            r@ == spec_text(self.language, LocalizationKey::Cpu) + cpu@,
    {
        self.tail(LocalizationKey::Cpu, cpu)
    }

    pub fn get_range(&self, low_units: u64, high_units: u64) -> (r: String)
        ensures
            r@ == spec_text(self.language, LocalizationKey::Range) + "["@ + spec_ms_str(low_units as int)
                + ", "@ + spec_ms_str(high_units as int) + "] ms"@,
    {
        let mut s = String::new();
        s.append(self.get(LocalizationKey::Range));
        s.append("[");
        s.append(fmt_units_ms(low_units).as_str());
        s.append(", ");
        s.append(fmt_units_ms(high_units).as_str());
        s.append("] ms");
        s
    }

    pub fn get_current_best(&self, value_units: u64, score_units: u64) -> (r: String)
        ensures
            r@ == spec_text(self.language, LocalizationKey::CurrentBest) + spec_ms_str(value_units as int)
                + " ms (score "@ + spec_ms_str(score_units as int) + ")"@,
    {
        let mut s = String::new();
        s.append(self.get(LocalizationKey::CurrentBest));
        s.append(fmt_units_ms(value_units).as_str());
        s.append(" ms (score ");
        s.append(fmt_units_ms(score_units).as_str());
        s.append(")");
        s
    }

    pub fn get_optimal_value(&self, value_units: u64) -> (r: String)
        ensures
            r@ == spec_text(self.language, LocalizationKey::OptimalValue) + spec_ms_str(value_units as int)
                + " ms"@,
    {
        self.tail_ms(LocalizationKey::OptimalValue, value_units)
    }

    pub fn get_optimal_recommendation(&self, resolution_units: u64) -> (r: String)
        ensures
            r@ == spec_text(self.language, LocalizationKey::OptimalRecommendation) + spec_dec_str(
                resolution_units as int,
            ),
    {
        self.tail_count(LocalizationKey::OptimalRecommendation, resolution_units)
    }

    pub fn get_rank(&self, rank: usize) -> (r: String)
        ensures
            r@ == spec_text(self.language, LocalizationKey::Rank) + spec_dec_str(rank as int),
    {
        self.tail_count(LocalizationKey::Rank, rank as u64)
    }

    pub fn get_iterations_with_kappa(
        &self,
        iteration: usize,
        max_iterations: usize,
        value_units: u64,
        kappa_scaled: u64,
    ) -> (r: String)
        ensures
            r@ == spec_text(self.language, LocalizationKey::IterationsWithKappa) + spec_dec_str(
                iteration as int,
            ) + "/"@ + spec_dec_str(max_iterations as int) + ": "@ + spec_ms_str(
                value_units as int,
            ) + " ms, kappa "@ + spec_ms_str(kappa_scaled as int),
    {
        let mut s = String::new();
        s.append(self.get(LocalizationKey::IterationsWithKappa));
        s.append(fmt_usize(iteration).as_str());
        s.append("/");
        s.append(fmt_usize(max_iterations).as_str());
        s.append(": ");
        s.append(fmt_units_ms(value_units).as_str());
        s.append(" ms, kappa ");
        s.append(fmt_units_ms(kappa_scaled).as_str());
        s
    }

    pub fn get_phase1(&self, count: usize) -> (r: String)
        ensures
            r@ == spec_text(self.language, LocalizationKey::Phase1) + spec_dec_str(count as int)
                + " points"@,
    {
        let mut s = String::new();
        s.append(self.get(LocalizationKey::Phase1));
        s.append(fmt_usize(count).as_str());
        s.append(" points");
        s
    }

    pub fn get_point_info(&self, current: usize, total: usize, resolution_units: u64) -> (r:
        String)
        ensures
            r@ == spec_text(self.language, LocalizationKey::PointInfo) + spec_dec_str(current as int) + "/"@
                + spec_dec_str(total as int) + ": "@ + spec_ms_str(resolution_units as int)
                + " ms"@,
    {
        let mut s = String::new();
        s.append(self.get(LocalizationKey::PointInfo));
        s.append(fmt_usize(current).as_str());
        s.append("/");
        s.append(fmt_usize(total).as_str());
        s.append(": ");
        s.append(fmt_units_ms(resolution_units).as_str());
        s.append(" ms");
        s
    }

    pub fn get_measurement_with_runs(&self, resolution_units: u64, runs: usize, samples: u32) -> (
        r: String)
        ensures
            r@ == spec_text(self.language, LocalizationKey::GetMeasurementWithRuns) + spec_ms_str(
                resolution_units as int,
            ) + " ms, "@ + spec_dec_str(runs as int) + " runs x "@ + spec_dec_str(samples as int)
                + " samples"@,
    {
        let mut s = String::new();
        s.append(self.get(LocalizationKey::GetMeasurementWithRuns));
        s.append(fmt_units_ms(resolution_units).as_str());
        s.append(" ms, ");
        s.append(fmt_usize(runs).as_str());
        s.append(" runs x ");
        s.append(fmt_u64(samples as u64).as_str());
        s.append(" samples");
        s
    }

    pub fn get_measurement_stats(
        &self,
        mean_units: u64,
        p95_units: u64,
        mad_units: u64,
        outliers: usize,
    ) -> (r: String)
        ensures
            r@ == spec_text(self.language, LocalizationKey::GetMeasurementStats) + spec_ms_str(
                mean_units as int,
            ) + " ms, p95 "@ + spec_ms_str(p95_units as int) + " ms, MAD "@ + spec_ms_str(
                mad_units as int,
            ) + " ms, outliers "@ + spec_dec_str(outliers as int),
    {
        let mut s = String::new();
        s.append(self.get(LocalizationKey::GetMeasurementStats));
        s.append(fmt_units_ms(mean_units).as_str());
        s.append(" ms, p95 ");
        s.append(fmt_units_ms(p95_units).as_str());
        s.append(" ms, MAD ");
        s.append(fmt_units_ms(mad_units).as_str());
        s.append(" ms, outliers ");
        s.append(fmt_usize(outliers).as_str());
        s
    }

    pub fn get_measure_sleep_error(&self, error: &str) -> (r: String)
        ensures
            r@ == spec_text(self.language, LocalizationKey::MeasureSleepError) + error@,
    {
        self.tail(LocalizationKey::MeasureSleepError, error)
    }

    pub fn get_join_error(&self, error: &str) -> (r: String)
        ensures
            r@ == spec_text(self.language, LocalizationKey::JoinError) + error@,
    {
        self.tail(LocalizationKey::JoinError, error)
    }

    pub fn get_timeout_error(&self) -> (r: &'static str)
        ensures
            r@ == spec_text(self.language, LocalizationKey::TimeoutError),
    {
        self.get(LocalizationKey::TimeoutError)
    }

    pub fn get_keep_current(&self) -> (r: &'static str)
        ensures
            r@ == spec_text(self.language, LocalizationKey::KeepCurrent),
    {
        self.get(LocalizationKey::KeepCurrent)
    }

    pub fn get_enter_new_value(&self) -> (r: &'static str)
        ensures
            r@ == spec_text(self.language, LocalizationKey::EnterNewValue),
    {
        self.get(LocalizationKey::EnterNewValue)
    }

    pub fn get_exit_prompt(&self) -> (r: &'static str)
        ensures
            r@ == spec_text(self.language, LocalizationKey::GetExitPrompt),
    {
        self.get(LocalizationKey::GetExitPrompt)
    }

    pub fn get_hpet_status_cached(&self, status: &str) -> (r: String)
        ensures
            r@ == spec_text(self.language, LocalizationKey::HpetStatusCached) + status@,
    {
        self.tail(LocalizationKey::HpetStatusCached, status)
    }

    pub fn get_hpet_status(&self, status: &str) -> (r: String)
        ensures
            r@ == spec_text(self.language, LocalizationKey::HpetStatus) + status@,
    {
        self.tail(LocalizationKey::HpetStatus, status)
    }

    pub fn get_error_hpet_disable(&self, error: &str) -> (r: String)
        ensures
            r@ == spec_text(self.language, LocalizationKey::ErrorHpetDisable) + error@,
    {
        self.tail(LocalizationKey::ErrorHpetDisable, error)
    }

    pub fn get_error_save_parameters(&self, error: &str) -> (r: String)
        ensures
            r@ == spec_text(self.language, LocalizationKey::ErrorSaveParameters) + error@,
    {
        self.tail(LocalizationKey::ErrorSaveParameters, error)
    }

    pub fn get_error_configuration(&self, error: &str) -> (r: String)
        ensures
            r@ == spec_text(self.language, LocalizationKey::ErrorConfiguration) + error@,
    {
        self.tail(LocalizationKey::ErrorConfiguration, error)
    }

    pub fn get_found(&self, path: &str) -> (r: String)
        ensures
            r@ == spec_text(self.language, LocalizationKey::Found) + path@,
    {
        self.tail(LocalizationKey::Found, path)
    }

    pub fn get_missing_deps(&self, deps: &str) -> (r: String)
        ensures
            r@ == spec_text(self.language, LocalizationKey::MissingDeps) + deps@,
    {
        self.tail(LocalizationKey::MissingDeps, deps)
    }

    pub fn get_test_passed(&self, delta_units: u64, stdev_units: u64) -> (r: String)
        ensures
            r@ == spec_text(self.language, LocalizationKey::TestPassed) + spec_ms_str(delta_units as int)
                + " ms, stdev "@ + spec_ms_str(stdev_units as int) + " ms"@,
    {
        let mut s = String::new();
        s.append(self.get(LocalizationKey::TestPassed));
        s.append(fmt_units_ms(delta_units).as_str());
        s.append(" ms, stdev ");
        s.append(fmt_units_ms(stdev_units).as_str());
        s.append(" ms");
        s
    }

    pub fn get_critical_process_remaining(&self, remaining: usize) -> (r: String)
        ensures
            r@ == spec_text(self.language, LocalizationKey::CriticalProcessRemaining) + spec_dec_str(
                remaining as int,
            ),
    {
        self.tail_count(LocalizationKey::CriticalProcessRemaining, remaining as u64)
    }

    pub fn get_error_linear_search(&self, error: &str) -> (r: String)
        ensures
            r@ == spec_text(self.language, LocalizationKey::ErrorLinearSearch) + error@,
    {
        self.tail(LocalizationKey::ErrorLinearSearch, error)
    }

    pub fn get_error_optimization(&self, error: &str) -> (r: String)
        ensures
            r@ == spec_text(self.language, LocalizationKey::ErrorOptimization) + error@,
    {
        self.tail(LocalizationKey::ErrorOptimization, error)
    }

    pub fn get_warning_cleanup(&self, error: &str) -> (r: String)
        ensures
            r@ == spec_text(self.language, LocalizationKey::WarningCleanup) + error@,
    {
        self.tail(LocalizationKey::WarningCleanup, error)
    }

    pub fn get_kernel_width(&self, width_units: u64) -> (r: String)
        ensures
            r@ == spec_text(self.language, LocalizationKey::KernelWidth) + spec_ms_str(width_units as int)
                + " ms"@,
    {
        self.tail_ms(LocalizationKey::KernelWidth, width_units)
    }

    pub fn get_initial_points(&self, points: &str) -> (r: String)
        ensures
            r@ == spec_text(self.language, LocalizationKey::InitialPoints) + points@,
    {
        self.tail(LocalizationKey::InitialPoints, points)
    }

    pub fn get_init_point_message(&self, point_units: u64) -> (r: String)
        ensures
            r@ == spec_text(self.language, LocalizationKey::InitPointMessage) + spec_ms_str(point_units as int)
                + " ms"@,
    {
        self.tail_ms(LocalizationKey::InitPointMessage, point_units)
    }

    pub fn get_unique_points(&self, unique: usize, total: usize) -> (r: String)
        ensures
            r@ == spec_text(self.language, LocalizationKey::UniquePoints) + spec_dec_str(unique as int)
                + " of "@ + spec_dec_str(total as int),
    {
        let mut s = String::new();
        s.append(self.get(LocalizationKey::UniquePoints));
        s.append(fmt_usize(unique).as_str());
        s.append(" of ");
        s.append(fmt_usize(total).as_str());
        s
    }

    pub fn get_topsis_score(&self, score_units: u64) -> (r: String)
        ensures
            r@ == spec_text(self.language, LocalizationKey::TopsisScore) + spec_ms_str(score_units as int),
    {
        let mut s = String::new();
        s.append(self.get(LocalizationKey::TopsisScore));
        s.append(fmt_units_ms(score_units).as_str());
        s
    }

    pub fn get_p95_delta(&self, delta_units: u64) -> (r: String)
        ensures
            r@ == spec_text(self.language, LocalizationKey::P95Delta) + spec_ms_str(delta_units as int)
                + " ms"@,
    {
        self.tail_ms(LocalizationKey::P95Delta, delta_units)
    }

    pub fn get_mad(&self, mad_units: u64) -> (r: String)
        ensures
            r@ == spec_text(self.language, LocalizationKey::Mad) + spec_ms_str(mad_units as int) + " ms"@,
    {
        self.tail_ms(LocalizationKey::Mad, mad_units)
    }

    pub fn get_p99_delta(&self, delta_units: u64) -> (r: String)
        ensures
            r@ == spec_text(self.language, LocalizationKey::P99Delta) + spec_ms_str(delta_units as int)
                + " ms"@,
    {
        self.tail_ms(LocalizationKey::P99Delta, delta_units)
    }

    pub fn get_ci_width(&self, width_units: u64) -> (r: String)
        ensures
            r@ == spec_text(self.language, LocalizationKey::CiWidth) + spec_ms_str(width_units as int)
                + " ms"@,
    {
        self.tail_ms(LocalizationKey::CiWidth, width_units)
    }

    pub fn get_mutex_error_message(&self, message: &str) -> (r: String)
        ensures
            r@ == spec_text(self.language, LocalizationKey::MutexErrorMessage) + message@,
    {
        self.tail(LocalizationKey::MutexErrorMessage, message)
    }

    pub fn get_error_process_exited(&self, error: &str) -> (r: String)
        ensures
            r@ == spec_text(self.language, LocalizationKey::ErrorProcessExited) + error@,
    {
        self.tail(LocalizationKey::ErrorProcessExited, error)
    }

    pub fn get_warning_cannot_check_process(&self, error: &str) -> (r: String)
        ensures
            r@ == spec_text(self.language, LocalizationKey::WarningCannotCheckProcess) + error@,
    {
        self.tail(LocalizationKey::WarningCannotCheckProcess, error)
    }

    pub fn get_critical_mismatch(&self, expected_units: u64, reported_units: u64) -> (r: String)
        ensures
            r@ == spec_text(self.language, LocalizationKey::CriticalMismatch) + spec_ms_str(
                expected_units as int,
            ) + " ms, reported "@ + spec_ms_str(reported_units as int) + " ms"@,
    {
        let mut s = String::new();
        s.append(self.get(LocalizationKey::CriticalMismatch));
        s.append(fmt_units_ms(expected_units).as_str());
        s.append(" ms, reported ");
        s.append(fmt_units_ms(reported_units).as_str());
        s.append(" ms");
        s
    }

    pub fn get_verified(&self, reported_units: u64) -> (r: String)
        ensures
            r@ == spec_text(self.language, LocalizationKey::Verified) + spec_ms_str(reported_units as int)
                + " ms"@,
    {
        self.tail_ms(LocalizationKey::Verified, reported_units)
    }

    pub fn get_output_preview(&self, preview: &str) -> (r: String)
        ensures
            r@ == spec_text(self.language, LocalizationKey::OutputPreview) + preview@,
    {
        self.tail(LocalizationKey::OutputPreview, preview)
    }

    pub fn get_warning_kill_child(&self, error: &str) -> (r: String)
        ensures
            r@ == spec_text(self.language, LocalizationKey::WarningKillChild) + error@,
    {
        self.tail(LocalizationKey::WarningKillChild, error)
    }

    pub fn get_points_checked(&self, count: usize) -> (r: String)
        ensures
            r@ == spec_text(self.language, LocalizationKey::PointsChecked) + spec_dec_str(count as int),
    {
        self.tail_count(LocalizationKey::PointsChecked, count as u64)
    }

    pub fn get_unique(&self, count: usize) -> (r: String)
        ensures
            r@ == spec_text(self.language, LocalizationKey::Unique) + spec_dec_str(count as int),
    {
        self.tail_count(LocalizationKey::Unique, count as u64)
    }

    pub fn get_kill_warning_ps(&self, error: &str) -> (r: String)
        ensures
            r@ == spec_text(self.language, LocalizationKey::KillWarningPS) + error@,
    {
        self.tail(LocalizationKey::KillWarningPS, error)
    }

    pub fn get_kill_error_ps(&self, error: &str) -> (r: String)
        ensures
            r@ == spec_text(self.language, LocalizationKey::KillErrorPS) + error@,
    {
        self.tail(LocalizationKey::KillErrorPS, error)
    }

    pub fn get_kill_warning_taskkill(&self, error: &str) -> (r: String)
        ensures
            r@ == spec_text(self.language, LocalizationKey::KillWarningTaskkill) + error@,
    {
        self.tail(LocalizationKey::KillWarningTaskkill, error)
    }

    pub fn get_kill_warning_remaining(&self, remaining: usize) -> (r: String)
        ensures
            r@ == spec_text(self.language, LocalizationKey::KillWarningRemaining) + spec_dec_str(
                remaining as int,
            ),
    {
        self.tail_count(LocalizationKey::KillWarningRemaining, remaining as u64)
    }

    pub fn get_kill_error_remaining(&self, remaining: usize) -> (r: String)
        ensures
            r@ == spec_text(self.language, LocalizationKey::KillErrorRemaining) + spec_dec_str(
                remaining as int,
            ),
    {
        self.tail_count(LocalizationKey::KillErrorRemaining, remaining as u64)
    }

    pub fn get_linear_method_samples(&self, value: u32) -> (r: String)
        ensures
            r@ == spec_text(self.language, LocalizationKey::LinearMethodSamples) + spec_dec_str(value as int),
    {
        self.tail_count(LocalizationKey::LinearMethodSamples, value as u64)
    }

    pub fn get_iterations_linear(&self, iterations: u64) -> (r: String)
        ensures
            r@ == spec_text(self.language, LocalizationKey::IterationsLinear) + spec_dec_str(
                iterations as int,
            ),
    {
        self.tail_count(LocalizationKey::IterationsLinear, iterations)
    }

    pub fn get_runs_per_point(&self, runs: usize) -> (r: String)
        ensures
            r@ == spec_text(self.language, LocalizationKey::RunsPerPoint) + spec_dec_str(runs as int),
    {
        self.tail_count(LocalizationKey::RunsPerPoint, runs as u64)
    }

    pub fn get_samples_per_run(&self, samples: u32) -> (r: String)
        ensures
            r@ == spec_text(self.language, LocalizationKey::SamplesPerRun) + spec_dec_str(samples as int),
    {
        self.tail_count(LocalizationKey::SamplesPerRun, samples as u64)
    }

    pub fn get_weights(&self, accuracy_pct: u64, consistency_pct: u64, worst_case_pct: u64) -> (r:
        String)
        ensures
            r@ == spec_text(self.language, LocalizationKey::Weights) + spec_dec_str(accuracy_pct as int)
                + "%, consistency "@ + spec_dec_str(consistency_pct as int) + "%, worst case "@
                + spec_dec_str(worst_case_pct as int) + "%"@,
    {
        let mut s = String::new();
        s.append(self.get(LocalizationKey::Weights));
        s.append(fmt_u64(accuracy_pct).as_str());
        s.append("%, consistency ");
        s.append(fmt_u64(consistency_pct).as_str());
        s.append("%, worst case ");
        s.append(fmt_u64(worst_case_pct).as_str());
        s.append("%");
        s
    }

    pub fn get_expected(&self, value_units: u64) -> (r: String)
        ensures
            r@ == spec_text(self.language, LocalizationKey::Expected) + spec_ms_str(value_units as int)
                + " ms"@,
    {
        self.tail_ms(LocalizationKey::Expected, value_units)
    }

    pub fn get_reported(&self, value_units: u64) -> (r: String)
        ensures
            r@ == spec_text(self.language, LocalizationKey::Reported) + spec_ms_str(value_units as int)
                + " ms"@,
    {
        self.tail_ms(LocalizationKey::Reported, value_units)
    }

    pub fn get_diff(&self, value_units: u64) -> (r: String)
        ensures
            r@ == spec_text(self.language, LocalizationKey::Diff) + spec_ms_str(value_units as int) + " ms"@,
    {
        self.tail_ms(LocalizationKey::Diff, value_units)
    }
}

} // verus!
