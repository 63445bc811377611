//! The keys of the interface text catalog, and the per-language text of
//! each key.
//!
//! Each supported language has its own catalog function. The non-English
//! catalogs carry the translations this project defines — the linear-sweep
//! banner lines — and fall back to the English table for the rest; filling
//! them out is a presentation concern outside the measurement core.

use vstd::prelude::*;
use crate::language::Language;

verus! {

/// Keys for the interface text catalog.
#[derive(Clone, Copy, Debug, PartialEq, Eq, Structural)]
pub enum LocalizationKey {
    Title,
    SystemInfo,
    WorkingDir,
    AdminPrivileges,
    WindowsVersion,
    Cpu,
    SystemConfig,
    HpetStatus,
    HpetStatusCached,
    HpetEnabledWarning,
    HpetTroubleshooting,
    HpetDisablePrompt,
    HpetDisabledSuccess,
    ErrorHpetStatus,
    ErrorHpetDisable,
    ErrorRegistryTweak,
    BenchmarkParams,
    StartValue,
    IncrementValue,
    EndValue,
    SampleValue,
    Iterations,
    Dependencies,
    Found,
    MissingDeps,
    RobustOptimization,
    Parameters,
    Range,
    IterationsCount,
    RunsPerPoint,
    SamplesPerRun,
    Weights,
    Accuracy,
    Stability,
    WorstCase,
    Phase1,
    Phase2,
    Phase3,
    Points,
    Measurement,
    CurrentBest,
    TopsisRanking,
    TopResults,
    Rank,
    OptimalValue,
    OptimalRecommendation,
    MeasureSleepExe,
    SetTimerResolutionExe,
    PressEnter,
    EnterNewValue,
    KeepCurrent,
    ResultsSaved,
    ExitPrompt,
    GetExitPrompt,
    BenchmarkComplete,
    WarningCleanup,
    OptimizationMethod,
    AvailableMethods,
    LinearMethod,
    LinearMethodDesc1,
    LinearMethodDesc2,
    LinearMethodDesc3,
    LinearMethodDesc4,
    HybridMethod,
    HybridMethodDesc1,
    HybridMethodDesc2,
    HybridMethodDesc3,
    MethodChoice,
    IterationsLinear,
    IterationsHybrid,
    IncrementNotUsed,
    MeasureSleepTest,
    WindowsChangesTitle,
    WindowsChangesPerProcess,
    WindowsChangesOwnResolution,
    WindowsChangesSetAffects,
    WindowsChangesMinimized,
    WindowsChangesProblem,
    WindowsChangesSeparateProcess,
    WindowsChangesCannotSee,
    WindowsChangesSolution,
    WindowsChangesGlobalResolution,
    WindowsChangesLowLevelApi,
    LinearMethodTitle,
    LinearMethodParameters,
    LinearMethodRange,
    LinearMethodStep,
    LinearMethodPoints,
    LinearMethodRuns,
    LinearMethodSamples,
    LinearMethodEstimatedTime,
    LinearMethodCompleted,
    LinearMethodPointsChecked,
    LinearMethodUnique,
    UniquePointsMessage,
    TestMeasurementMessage,
    ErrorAdminPrivileges,
    RunAsAdmin,
    UnknownBuild,
    UnknownCpu,
    ErrorInvalidMethod,
    ErrorGetExePath,
    ErrorMeasureSleep,
    CleaningUp,
    ManualCleanupInstructions,
    ManualCleanup1,
    ManualCleanup2,
    ManualCleanup3,
    ManualCleanup4,
    ErrorCannotProceed,
    CleanupCompleted,
    InitProgressBar,
    InitCompleted,
    OptProgressBar,
    OptCompleted,
    ErrorMutexConflict,
    MutexErrorHint,
    MutexErrorRestart,
    ErrorMutexRunning,
    TimeoutError,
    ErrorMeasureSleepFailed,
    WarningResolutionMismatch,
    WarningParseResolution,
    Empty,
    IterationsWithKappa,
    PointInfo,
    GetMeasurementWithRuns,
    GetMeasurementStats,
    MeasureSleepError,
    JoinError,
    ErrorSaveParameters,
    ErrorConfiguration,
    TestPassed,
    CriticalProcessRemaining,
    ErrorLinearSearch,
    ErrorOptimization,
    KernelWidth,
    InitialPoints,
    InitPointMessage,
    UniquePoints,
    TopsisScore,
    P95Delta,
    Mad,
    P99Delta,
    CiWidth,
    MutexErrorMessage,
    ErrorProcessExited,
    WarningCannotCheckProcess,
    CriticalMismatch,
    Verified,
    OutputPreview,
    WarningKillChild,
    PointsChecked,
    Unique,
    KillWarningPS,
    KillErrorPS,
    KillWarningTaskkill,
    KillWarningRemaining,
    KillErrorRemaining,
    Expected,
    Reported,
    Diff,
}

/// The English catalog.
pub open spec fn spec_english_text(key: LocalizationKey) -> Seq<char> {
    match key {
        LocalizationKey::Title => "Timer Resolution Benchmark"@,
        LocalizationKey::SystemInfo => "System Information"@,
        LocalizationKey::WorkingDir => "Working directory: "@,
        LocalizationKey::AdminPrivileges => "Administrator privileges: OK"@,
        LocalizationKey::WindowsVersion => "Windows version: "@,
        LocalizationKey::Cpu => "CPU: "@,
        LocalizationKey::SystemConfig => "System Configuration"@,
        LocalizationKey::HpetStatus => "Platform clock (HPET): "@,
        LocalizationKey::HpetStatusCached => "Platform clock (HPET, cached): "@,
        LocalizationKey::HpetEnabledWarning => "Warning: the platform clock is enabled and may distort timer measurements."@,
        LocalizationKey::HpetTroubleshooting => "Disabling it and rebooting usually lowers sleep delays."@,
        LocalizationKey::HpetDisablePrompt => "Disable the platform clock now? (y/N): "@,
        LocalizationKey::HpetDisabledSuccess => "Platform clock disabled; reboot for the change to take effect."@,
        LocalizationKey::ErrorHpetStatus => "Error: the platform clock state could not be read."@,
        LocalizationKey::ErrorHpetDisable => "Error disabling the platform clock: "@,
        LocalizationKey::ErrorRegistryTweak => "Error applying the timer registry setting."@,
        LocalizationKey::BenchmarkParams => "Benchmark Parameters"@,
        LocalizationKey::StartValue => "Start value"@,
        LocalizationKey::IncrementValue => "Increment"@,
        LocalizationKey::EndValue => "End value"@,
        LocalizationKey::SampleValue => "Samples per run"@,
        LocalizationKey::Iterations => "Iterations"@,
        LocalizationKey::Dependencies => "Dependencies"@,
        LocalizationKey::Found => "Found: "@,
        LocalizationKey::MissingDeps => "Missing helper binaries: "@,
        LocalizationKey::RobustOptimization => "Robust Bayesian Optimization"@,
        LocalizationKey::Parameters => "Parameters:"@,
        LocalizationKey::Range => "Range: "@,
        LocalizationKey::IterationsCount => "Iterations: "@,
        LocalizationKey::RunsPerPoint => "Runs per point: "@,
        LocalizationKey::SamplesPerRun => "Samples per run: "@,
        LocalizationKey::Weights => "Weights: accuracy "@,
        LocalizationKey::Accuracy => "accuracy"@,
        LocalizationKey::Stability => "consistency"@,
        LocalizationKey::WorstCase => "worst case"@,
        LocalizationKey::Phase1 => "Phase 1: seeding with "@,
        LocalizationKey::Phase2 => "Phase 2: Bayesian optimization"@,
        LocalizationKey::Phase3 => "Phase 3: aggregation and ranking"@,
        LocalizationKey::Points => "points"@,
        LocalizationKey::Measurement => "Measurement"@,
        LocalizationKey::CurrentBest => "Current best: "@,
        LocalizationKey::TopsisRanking => "TOPSIS Ranking"@,
        LocalizationKey::TopResults => "Top results"@,
        LocalizationKey::Rank => "Rank "@,
        LocalizationKey::OptimalValue => "Optimal timer period: "@,
        LocalizationKey::OptimalRecommendation => "Recommended SetTimerResolution argument: "@,
        LocalizationKey::MeasureSleepExe => "MeasureSleep.exe"@,
        LocalizationKey::SetTimerResolutionExe => "SetTimerResolution.exe"@,
        LocalizationKey::PressEnter => "Press Enter to start the benchmark..."@,
        LocalizationKey::EnterNewValue => "Enter a new value, or leave empty to keep the current one:"@,
        LocalizationKey::KeepCurrent => " (Enter keeps the current value)"@,
        LocalizationKey::ResultsSaved => "Results saved."@,
        LocalizationKey::ExitPrompt => "Press Enter to exit..."@,
        LocalizationKey::GetExitPrompt => "Press Enter to exit..."@,
        LocalizationKey::BenchmarkComplete => "Benchmark complete; results written to results.txt."@,
        LocalizationKey::WarningCleanup => "Warning: cleanup failed: "@,
        LocalizationKey::OptimizationMethod => "Optimization Method"@,
        LocalizationKey::AvailableMethods => "Available methods:"@,
        LocalizationKey::LinearMethod => "Linear exhaustive search"@,
        LocalizationKey::LinearMethodDesc1 => "visits every step of the range"@,
        LocalizationKey::LinearMethodDesc2 => "slow but complete"@,
        LocalizationKey::LinearMethodDesc3 => "three runs per point"@,
        LocalizationKey::LinearMethodDesc4 => "best for small ranges"@,
        LocalizationKey::HybridMethod => "Bayesian search"@,
        LocalizationKey::HybridMethodDesc1 => "sample-efficient"@,
        LocalizationKey::HybridMethodDesc2 => "seeds the range, then explores adaptively"@,
        LocalizationKey::HybridMethodDesc3 => "recommended"@,
        LocalizationKey::MethodChoice => "Choose a method (1/2, Enter = 2): "@,
        LocalizationKey::IterationsLinear => "Iterations: "@,
        LocalizationKey::IterationsHybrid => "Iterations: 15 (5 seed + 10 optimization)"@,
        LocalizationKey::IncrementNotUsed => "(not used by the Bayesian search)"@,
        LocalizationKey::MeasureSleepTest => "Testing MeasureSleep..."@,
        LocalizationKey::WindowsChangesTitle => "Recent Windows changes"@,
        LocalizationKey::WindowsChangesPerProcess => "timer resolution is per process"@,
        LocalizationKey::WindowsChangesOwnResolution => "each process requests its own resolution"@,
        LocalizationKey::WindowsChangesSetAffects => "a request affects only the requesting process"@,
        LocalizationKey::WindowsChangesMinimized => "minimized processes may be throttled"@,
        LocalizationKey::WindowsChangesProblem => "so a separate setter process is needed"@,
        LocalizationKey::WindowsChangesSeparateProcess => "the period-setter runs alongside the benchmark"@,
        LocalizationKey::WindowsChangesCannotSee => "its request is not visible to other processes by default"@,
        LocalizationKey::WindowsChangesSolution => "a global-request registry switch makes it visible"@,
        LocalizationKey::WindowsChangesGlobalResolution => "GlobalTimerResolutionRequests = 1"@,
        LocalizationKey::WindowsChangesLowLevelApi => "set via the kernel session manager key"@,
        LocalizationKey::LinearMethodTitle => "Linear Exhaustive Search"@,
        LocalizationKey::LinearMethodParameters => "Parameters:"@,
        LocalizationKey::LinearMethodRange => "Range: "@,
        LocalizationKey::LinearMethodStep => "Step: "@,
        LocalizationKey::LinearMethodPoints => "Points to check: "@,
        LocalizationKey::LinearMethodRuns => "Runs per point: 3"@,
        LocalizationKey::LinearMethodSamples => "Samples per run: "@,
        LocalizationKey::LinearMethodEstimatedTime => "Estimated time: "@,
        LocalizationKey::LinearMethodCompleted => "Linear search completed:"@,
        LocalizationKey::LinearMethodPointsChecked => "Points checked: "@,
        LocalizationKey::LinearMethodUnique => "Unique: "@,
        LocalizationKey::UniquePointsMessage => "unique points"@,
        LocalizationKey::TestMeasurementMessage => "test measurement"@,
        LocalizationKey::ErrorAdminPrivileges => "Error: administrator privileges are required."@,
        LocalizationKey::RunAsAdmin => "Run the benchmark from an elevated prompt."@,
        LocalizationKey::UnknownBuild => "unknown build"@,
        LocalizationKey::UnknownCpu => "unknown CPU"@,
        LocalizationKey::ErrorInvalidMethod => "Error: unknown method choice."@,
        LocalizationKey::ErrorGetExePath => "Error: the executable directory could not be determined."@,
        LocalizationKey::ErrorMeasureSleep => "Error: MeasureSleep failed."@,
        LocalizationKey::CleaningUp => "Cleaning up leftover processes..."@,
        LocalizationKey::ManualCleanupInstructions => "Remove the remaining instances by hand:"@,
        LocalizationKey::ManualCleanup1 => "open Task Manager"@,
        LocalizationKey::ManualCleanup2 => "find SetTimerResolution.exe"@,
        LocalizationKey::ManualCleanup3 => "end every instance"@,
        LocalizationKey::ManualCleanup4 => "then restart the benchmark"@,
        LocalizationKey::ErrorCannotProceed => "Cannot proceed while period-setter instances remain."@,
        LocalizationKey::CleanupCompleted => "Cleanup completed."@,
        LocalizationKey::InitProgressBar => "{spinner} [{elapsed_precise}] [{bar:40}] {pos}/{len} {msg}"@,
        LocalizationKey::InitCompleted => "Seeding completed"@,
        LocalizationKey::OptProgressBar => "{spinner} [{elapsed_precise}] [{bar:40}] {pos}/{len} {msg}"@,
        LocalizationKey::OptCompleted => "Optimization completed"@,
        LocalizationKey::ErrorMutexConflict => "Error: another period-setter instance holds the single-instance lock."@,
        LocalizationKey::MutexErrorHint => "Close the other instance before measuring."@,
        LocalizationKey::MutexErrorRestart => "Then restart the benchmark."@,
        LocalizationKey::ErrorMutexRunning => "A period-setter instance is already running."@,
        LocalizationKey::TimeoutError => "Error: MeasureSleep exceeded its 30 s budget."@,
        LocalizationKey::ErrorMeasureSleepFailed => "Error: MeasureSleep exited with a failure status."@,
        LocalizationKey::WarningResolutionMismatch => "Warning: the reported period drifts from the requested one."@,
        LocalizationKey::WarningParseResolution => "Warning: no resolution reading in the helper output."@,
        LocalizationKey::Empty => "(empty)"@,
        LocalizationKey::IterationsWithKappa => "Iteration "@,
        LocalizationKey::PointInfo => "Point "@,
        LocalizationKey::GetMeasurementWithRuns => "Measuring "@,
        LocalizationKey::GetMeasurementStats => "mean "@,
        LocalizationKey::MeasureSleepError => "MeasureSleep error: "@,
        LocalizationKey::JoinError => "Worker join error: "@,
        LocalizationKey::ErrorSaveParameters => "Error saving parameters: "@,
        LocalizationKey::ErrorConfiguration => "Configuration error: "@,
        LocalizationKey::TestPassed => "Test passed: delta "@,
        LocalizationKey::CriticalProcessRemaining => "Critical: period-setter instances remaining: "@,
        LocalizationKey::ErrorLinearSearch => "Linear search error: "@,
        LocalizationKey::ErrorOptimization => "Optimization error: "@,
        LocalizationKey::KernelWidth => "Kernel width: "@,
        LocalizationKey::InitialPoints => "Seed points: "@,
        LocalizationKey::InitPointMessage => "seeding at "@,
        LocalizationKey::UniquePoints => "Unique points: "@,
        LocalizationKey::TopsisScore => "TOPSIS score: "@,
        LocalizationKey::P95Delta => "p95 delta: "@,
        LocalizationKey::Mad => "MAD: "@,
        LocalizationKey::P99Delta => "p99 delta: "@,
        LocalizationKey::CiWidth => "CI width: "@,
        LocalizationKey::MutexErrorMessage => "Lock holder says: "@,
        LocalizationKey::ErrorProcessExited => "The period-setter exited immediately: "@,
        LocalizationKey::WarningCannotCheckProcess => "Warning: could not poll the period-setter: "@,
        LocalizationKey::CriticalMismatch => "Critical period mismatch: requested "@,
        LocalizationKey::Verified => "verified at "@,
        LocalizationKey::OutputPreview => "Output preview: "@,
        LocalizationKey::WarningKillChild => "Warning: could not kill the period-setter child: "@,
        LocalizationKey::PointsChecked => "Points checked: "@,
        LocalizationKey::Unique => "Unique: "@,
        LocalizationKey::KillWarningPS => "PowerShell kill warning: "@,
        LocalizationKey::KillErrorPS => "PowerShell kill failed: "@,
        LocalizationKey::KillWarningTaskkill => "taskkill warning: "@,
        LocalizationKey::KillWarningRemaining => "Instances remaining after cleanup: "@,
        LocalizationKey::KillErrorRemaining => "Instances that could not be killed: "@,
        LocalizationKey::Expected => "expected "@,
        LocalizationKey::Reported => "reported "@,
        LocalizationKey::Diff => "difference "@,
    }
}

/// The Ukrainian catalog: the translated sweep banner lines, otherwise the
/// English text.
pub open spec fn spec_ukrainian_text(key: LocalizationKey) -> Seq<char> {
    match key {
        LocalizationKey::LinearMethodRange => "Діапазон: "@,
        LocalizationKey::LinearMethodStep => "Крок: "@,
        LocalizationKey::LinearMethodPoints => "Точок для перевірки: "@,
        LocalizationKey::LinearMethodRuns => "Прогонів на точку: 3"@,
        LocalizationKey::LinearMethodSamples => "Вибірок на прогін: "@,
        _ => spec_english_text(key),
    }
}

/// The Russian catalog: the translated sweep banner lines, otherwise the
/// English text.
pub open spec fn spec_russian_text(key: LocalizationKey) -> Seq<char> {
    match key {
        LocalizationKey::LinearMethodRange => "Диапазон: "@,
        LocalizationKey::LinearMethodStep => "Шаг: "@,
        LocalizationKey::LinearMethodPoints => "Точек для проверки: "@,
        LocalizationKey::LinearMethodRuns => "Прогонов на точку: 3"@,
        LocalizationKey::LinearMethodSamples => "Выборок на прогон: "@,
        _ => spec_english_text(key),
    }
}

/// The Chinese catalog: the translated sweep banner lines, otherwise the
/// English text.
pub open spec fn spec_chinese_text(key: LocalizationKey) -> Seq<char> {
    match key {
        LocalizationKey::LinearMethodRange => "范围: "@,
        LocalizationKey::LinearMethodStep => "步长: "@,
        LocalizationKey::LinearMethodPoints => "待检查点数: "@,
        LocalizationKey::LinearMethodRuns => "每点运行次数: 3"@,
        LocalizationKey::LinearMethodSamples => "每次运行样本数: "@,
        _ => spec_english_text(key),
    }
}

/// The catalog text of a key in the chosen language.
pub open spec fn spec_text(language: Language, key: LocalizationKey) -> Seq<char> {
    match language {
        Language::English => spec_english_text(key),
        Language::Ukrainian => spec_ukrainian_text(key),
        Language::Russian => spec_russian_text(key),
        Language::Chinese => spec_chinese_text(key),
    }
}

impl LocalizationKey {
    /// The English catalog text of this key.
    pub fn get_english(&self) -> (r: &'static str)
        ensures
            r@ == spec_english_text(*self),
    {
        match self {
            LocalizationKey::Title => "Timer Resolution Benchmark",
            LocalizationKey::SystemInfo => "System Information",
            LocalizationKey::WorkingDir => "Working directory: ",
            LocalizationKey::AdminPrivileges => "Administrator privileges: OK",
            LocalizationKey::WindowsVersion => "Windows version: ",
            LocalizationKey::Cpu => "CPU: ",
            LocalizationKey::SystemConfig => "System Configuration",
            LocalizationKey::HpetStatus => "Platform clock (HPET): ",
            LocalizationKey::HpetStatusCached => "Platform clock (HPET, cached): ",
            LocalizationKey::HpetEnabledWarning => "Warning: the platform clock is enabled and may distort timer measurements.",
            LocalizationKey::HpetTroubleshooting => "Disabling it and rebooting usually lowers sleep delays.",
            LocalizationKey::HpetDisablePrompt => "Disable the platform clock now? (y/N): ",
            LocalizationKey::HpetDisabledSuccess => "Platform clock disabled; reboot for the change to take effect.",
            LocalizationKey::ErrorHpetStatus => "Error: the platform clock state could not be read.",
            LocalizationKey::ErrorHpetDisable => "Error disabling the platform clock: ",
            LocalizationKey::ErrorRegistryTweak => "Error applying the timer registry setting.",
            LocalizationKey::BenchmarkParams => "Benchmark Parameters",
            LocalizationKey::StartValue => "Start value",
            LocalizationKey::IncrementValue => "Increment",
            LocalizationKey::EndValue => "End value",
            LocalizationKey::SampleValue => "Samples per run",
            LocalizationKey::Iterations => "Iterations",
            LocalizationKey::Dependencies => "Dependencies",
            LocalizationKey::Found => "Found: ",
            LocalizationKey::MissingDeps => "Missing helper binaries: ",
            LocalizationKey::RobustOptimization => "Robust Bayesian Optimization",
            LocalizationKey::Parameters => "Parameters:",
            LocalizationKey::Range => "Range: ",
            LocalizationKey::IterationsCount => "Iterations: ",
            LocalizationKey::RunsPerPoint => "Runs per point: ",
            LocalizationKey::SamplesPerRun => "Samples per run: ",
            LocalizationKey::Weights => "Weights: accuracy ",
            LocalizationKey::Accuracy => "accuracy",
            LocalizationKey::Stability => "consistency",
            LocalizationKey::WorstCase => "worst case",
            LocalizationKey::Phase1 => "Phase 1: seeding with ",
            LocalizationKey::Phase2 => "Phase 2: Bayesian optimization",
            LocalizationKey::Phase3 => "Phase 3: aggregation and ranking",
            LocalizationKey::Points => "points",
            LocalizationKey::Measurement => "Measurement",
            LocalizationKey::CurrentBest => "Current best: ",
            LocalizationKey::TopsisRanking => "TOPSIS Ranking",
            LocalizationKey::TopResults => "Top results",
            LocalizationKey::Rank => "Rank ",
            LocalizationKey::OptimalValue => "Optimal timer period: ",
            LocalizationKey::OptimalRecommendation => "Recommended SetTimerResolution argument: ",
            LocalizationKey::MeasureSleepExe => "MeasureSleep.exe",
            LocalizationKey::SetTimerResolutionExe => "SetTimerResolution.exe",
            LocalizationKey::PressEnter => "Press Enter to start the benchmark...",
            LocalizationKey::EnterNewValue => "Enter a new value, or leave empty to keep the current one:",
            LocalizationKey::KeepCurrent => " (Enter keeps the current value)",
            LocalizationKey::ResultsSaved => "Results saved.",
            LocalizationKey::ExitPrompt => "Press Enter to exit...",
            LocalizationKey::GetExitPrompt => "Press Enter to exit...",
            LocalizationKey::BenchmarkComplete => "Benchmark complete; results written to results.txt.",
            LocalizationKey::WarningCleanup => "Warning: cleanup failed: ",
            LocalizationKey::OptimizationMethod => "Optimization Method",
            LocalizationKey::AvailableMethods => "Available methods:",
            LocalizationKey::LinearMethod => "Linear exhaustive search",
            LocalizationKey::LinearMethodDesc1 => "visits every step of the range",
            LocalizationKey::LinearMethodDesc2 => "slow but complete",
            LocalizationKey::LinearMethodDesc3 => "three runs per point",
            LocalizationKey::LinearMethodDesc4 => "best for small ranges",
            LocalizationKey::HybridMethod => "Bayesian search",
            LocalizationKey::HybridMethodDesc1 => "sample-efficient",
            LocalizationKey::HybridMethodDesc2 => "seeds the range, then explores adaptively",
            LocalizationKey::HybridMethodDesc3 => "recommended",
            LocalizationKey::MethodChoice => "Choose a method (1/2, Enter = 2): ",
            LocalizationKey::IterationsLinear => "Iterations: ",
            LocalizationKey::IterationsHybrid => "Iterations: 15 (5 seed + 10 optimization)",
            LocalizationKey::IncrementNotUsed => "(not used by the Bayesian search)",
            LocalizationKey::MeasureSleepTest => "Testing MeasureSleep...",
            LocalizationKey::WindowsChangesTitle => "Recent Windows changes",
            LocalizationKey::WindowsChangesPerProcess => "timer resolution is per process",
            LocalizationKey::WindowsChangesOwnResolution => "each process requests its own resolution",
            LocalizationKey::WindowsChangesSetAffects => "a request affects only the requesting process",
            LocalizationKey::WindowsChangesMinimized => "minimized processes may be throttled",
            LocalizationKey::WindowsChangesProblem => "so a separate setter process is needed",
            LocalizationKey::WindowsChangesSeparateProcess => "the period-setter runs alongside the benchmark",
            LocalizationKey::WindowsChangesCannotSee => "its request is not visible to other processes by default",
            LocalizationKey::WindowsChangesSolution => "a global-request registry switch makes it visible",
            LocalizationKey::WindowsChangesGlobalResolution => "GlobalTimerResolutionRequests = 1",
            LocalizationKey::WindowsChangesLowLevelApi => "set via the kernel session manager key",
            LocalizationKey::LinearMethodTitle => "Linear Exhaustive Search",
            LocalizationKey::LinearMethodParameters => "Parameters:",
            LocalizationKey::LinearMethodRange => "Range: ",
            LocalizationKey::LinearMethodStep => "Step: ",
            LocalizationKey::LinearMethodPoints => "Points to check: ",
            LocalizationKey::LinearMethodRuns => "Runs per point: 3",
            LocalizationKey::LinearMethodSamples => "Samples per run: ",
            LocalizationKey::LinearMethodEstimatedTime => "Estimated time: ",
            LocalizationKey::LinearMethodCompleted => "Linear search completed:",
            LocalizationKey::LinearMethodPointsChecked => "Points checked: ",
            LocalizationKey::LinearMethodUnique => "Unique: ",
            LocalizationKey::UniquePointsMessage => "unique points",
            LocalizationKey::TestMeasurementMessage => "test measurement",
            LocalizationKey::ErrorAdminPrivileges => "Error: administrator privileges are required.",
            LocalizationKey::RunAsAdmin => "Run the benchmark from an elevated prompt.",
            LocalizationKey::UnknownBuild => "unknown build",
            LocalizationKey::UnknownCpu => "unknown CPU",
            LocalizationKey::ErrorInvalidMethod => "Error: unknown method choice.",
            LocalizationKey::ErrorGetExePath => "Error: the executable directory could not be determined.",
            LocalizationKey::ErrorMeasureSleep => "Error: MeasureSleep failed.",
            LocalizationKey::CleaningUp => "Cleaning up leftover processes...",
            LocalizationKey::ManualCleanupInstructions => "Remove the remaining instances by hand:",
            LocalizationKey::ManualCleanup1 => "open Task Manager",
            LocalizationKey::ManualCleanup2 => "find SetTimerResolution.exe",
            LocalizationKey::ManualCleanup3 => "end every instance",
            LocalizationKey::ManualCleanup4 => "then restart the benchmark",
            LocalizationKey::ErrorCannotProceed => "Cannot proceed while period-setter instances remain.",
            LocalizationKey::CleanupCompleted => "Cleanup completed.",
            LocalizationKey::InitProgressBar => "{spinner} [{elapsed_precise}] [{bar:40}] {pos}/{len} {msg}",
            LocalizationKey::InitCompleted => "Seeding completed",
            LocalizationKey::OptProgressBar => "{spinner} [{elapsed_precise}] [{bar:40}] {pos}/{len} {msg}",
            LocalizationKey::OptCompleted => "Optimization completed",
            LocalizationKey::ErrorMutexConflict => "Error: another period-setter instance holds the single-instance lock.",
            LocalizationKey::MutexErrorHint => "Close the other instance before measuring.",
            LocalizationKey::MutexErrorRestart => "Then restart the benchmark.",
            LocalizationKey::ErrorMutexRunning => "A period-setter instance is already running.",
            LocalizationKey::TimeoutError => "Error: MeasureSleep exceeded its 30 s budget.",
            LocalizationKey::ErrorMeasureSleepFailed => "Error: MeasureSleep exited with a failure status.",
            LocalizationKey::WarningResolutionMismatch => "Warning: the reported period drifts from the requested one.",
            LocalizationKey::WarningParseResolution => "Warning: no resolution reading in the helper output.",
            LocalizationKey::Empty => "(empty)",
            LocalizationKey::IterationsWithKappa => "Iteration ",
            LocalizationKey::PointInfo => "Point ",
            LocalizationKey::GetMeasurementWithRuns => "Measuring ",
            LocalizationKey::GetMeasurementStats => "mean ",
            LocalizationKey::MeasureSleepError => "MeasureSleep error: ",
            LocalizationKey::JoinError => "Worker join error: ",
            LocalizationKey::ErrorSaveParameters => "Error saving parameters: ",
            LocalizationKey::ErrorConfiguration => "Configuration error: ",
            LocalizationKey::TestPassed => "Test passed: delta ",
            LocalizationKey::CriticalProcessRemaining => "Critical: period-setter instances remaining: ",
            LocalizationKey::ErrorLinearSearch => "Linear search error: ",
            LocalizationKey::ErrorOptimization => "Optimization error: ",
            LocalizationKey::KernelWidth => "Kernel width: ",
            LocalizationKey::InitialPoints => "Seed points: ",
            LocalizationKey::InitPointMessage => "seeding at ",
            LocalizationKey::UniquePoints => "Unique points: ",
            LocalizationKey::TopsisScore => "TOPSIS score: ",
            LocalizationKey::P95Delta => "p95 delta: ",
            LocalizationKey::Mad => "MAD: ",
            LocalizationKey::P99Delta => "p99 delta: ",
            LocalizationKey::CiWidth => "CI width: ",
            LocalizationKey::MutexErrorMessage => "Lock holder says: ",
            LocalizationKey::ErrorProcessExited => "The period-setter exited immediately: ",
            LocalizationKey::WarningCannotCheckProcess => "Warning: could not poll the period-setter: ",
            LocalizationKey::CriticalMismatch => "Critical period mismatch: requested ",
            LocalizationKey::Verified => "verified at ",
            LocalizationKey::OutputPreview => "Output preview: ",
            LocalizationKey::WarningKillChild => "Warning: could not kill the period-setter child: ",
            LocalizationKey::PointsChecked => "Points checked: ",
            LocalizationKey::Unique => "Unique: ",
            LocalizationKey::KillWarningPS => "PowerShell kill warning: ",
            LocalizationKey::KillErrorPS => "PowerShell kill failed: ",
            LocalizationKey::KillWarningTaskkill => "taskkill warning: ",
            LocalizationKey::KillWarningRemaining => "Instances remaining after cleanup: ",
            LocalizationKey::KillErrorRemaining => "Instances that could not be killed: ",
            LocalizationKey::Expected => "expected ",
            LocalizationKey::Reported => "reported ",
            LocalizationKey::Diff => "difference ",
        }
    }

    /// The Ukrainian catalog text of this key.
    pub fn get_ukrainian(&self) -> (r: &'static str)
        ensures
            r@ == spec_ukrainian_text(*self),
    {
        match self {
            LocalizationKey::LinearMethodRange => "Діапазон: ",
            LocalizationKey::LinearMethodStep => "Крок: ",
            LocalizationKey::LinearMethodPoints => "Точок для перевірки: ",
            LocalizationKey::LinearMethodRuns => "Прогонів на точку: 3",
            LocalizationKey::LinearMethodSamples => "Вибірок на прогін: ",
            _ => self.get_english(),
        }
    }

    /// The Russian catalog text of this key.
    pub fn get_russian(&self) -> (r: &'static str)
        ensures
            r@ == spec_russian_text(*self),
    {
        match self {
            LocalizationKey::LinearMethodRange => "Диапазон: ",
            LocalizationKey::LinearMethodStep => "Шаг: ",
            LocalizationKey::LinearMethodPoints => "Точек для проверки: ",
            LocalizationKey::LinearMethodRuns => "Прогонов на точку: 3",
            LocalizationKey::LinearMethodSamples => "Выборок на прогон: ",
            _ => self.get_english(),
        }
    }

    /// The Chinese catalog text of this key.
    pub fn get_chinese(&self) -> (r: &'static str)
        ensures
            r@ == spec_chinese_text(*self),
    {
        match self {
            LocalizationKey::LinearMethodRange => "范围: ",
            LocalizationKey::LinearMethodStep => "步长: ",
            LocalizationKey::LinearMethodPoints => "待检查点数: ",
            LocalizationKey::LinearMethodRuns => "每点运行次数: 3",
            LocalizationKey::LinearMethodSamples => "每次运行样本数: ",
            _ => self.get_english(),
        }
    }
}

} // verus!
