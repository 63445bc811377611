use timer_res_benchmark::config::{choose_method, helpers_present, precheck_admin,
    OptimizationMethod};
use timer_res_benchmark::error::BenchError;
use timer_res_benchmark::guard::{classify_spawn_exit, count_image_mentions, purge_concluded};
use timer_res_benchmark::helpers::{parse_measurement_output,
    parse_measurement_output_with_resolution};
use timer_res_benchmark::orchestrator::{evaluate_smoke_test, Orchestrator, Phase};
use timer_res_benchmark::session::{check_resolution, MeasurementSession, ResolutionCheck};
use timer_res_benchmark::sysconfig::hpet_disabled_from_listing;
use timer_res_benchmark::units::parse_decimal_units;

#[test]
fn full_helper_output_parses() {
    let output = b"Resolution: 0.5186ms, Sleep(1) slept 1.0310ms (delta: 0.0310)\nAvg: 0.1439\nSTDEV: 0.0029\n";
    let (avg, stdev, reported) = parse_measurement_output_with_resolution(output).unwrap();
    assert_eq!(avg, 1_439);
    assert_eq!(stdev, 29);
    assert_eq!(reported, Some(5_186));
}

#[test]
fn missing_average_is_a_hard_error() {
    let output = b"Resolution: 0.5186ms\nSTDEV: 0.0029\n";
    assert!(matches!(
        parse_measurement_output_with_resolution(output),
        Err(BenchError::InvalidOutput)
    ));
}

#[test]
fn missing_resolution_is_soft() {
    let output = b"Avg: 0.2000\nSTDEV: 0.0100\n";
    let (avg, stdev, reported) = parse_measurement_output_with_resolution(output).unwrap();
    assert_eq!(avg, 2_000);
    assert_eq!(stdev, 100);
    assert_eq!(reported, None);
    assert_eq!(parse_measurement_output(output).unwrap(), (2_000, 100));
}

#[test]
fn decimal_parsing_rounds_at_the_unit() {
    assert_eq!(parse_decimal_units(b"0.5"), Some(5_000));
    assert_eq!(parse_decimal_units(b"1"), Some(10_000));
    assert_eq!(parse_decimal_units(b".25"), Some(2_500));
    assert_eq!(parse_decimal_units(b"2."), Some(20_000));
    assert_eq!(parse_decimal_units(b"0.00005"), Some(1));
    assert_eq!(parse_decimal_units(b"0.00004"), Some(0));
    assert_eq!(parse_decimal_units(b"abc"), None);
    assert_eq!(parse_decimal_units(b"1.2.3"), None);
    assert_eq!(parse_decimal_units(b""), None);
    assert_eq!(parse_decimal_units(b"."), None);
}

#[test]
fn resolution_mismatch_fails_beyond_a_tenth() {
    // Requested 0.5000 ms, reported 0.7000 ms: a hard mismatch.
    match check_resolution(5_000, Some(7_000)) {
        Err(BenchError::ResolutionMismatch { expected_units, reported_units }) => {
            assert_eq!(expected_units, 5_000);
            assert_eq!(reported_units, 7_000);
        }
        other => panic!("expected a mismatch, got {:?}", other),
    }
    assert!(matches!(
        check_resolution(5_000, Some(5_400)),
        Ok(ResolutionCheck::Verified { reported_units: 5_400 })
    ));
    assert!(matches!(
        check_resolution(5_000, Some(5_600)),
        Ok(ResolutionCheck::Warned { reported_units: 5_600, diff_units: 600 })
    ));
    assert!(matches!(check_resolution(5_000, None), Ok(ResolutionCheck::NoReading)));
}

#[test]
fn session_collects_runs_and_requires_clean_exit() {
    let mut session = MeasurementSession::new(5_000, 25, 2);
    let ok_output = b"Resolution: 0.5000ms\nAvg: 0.0310\nSTDEV: 0.0029\n";
    assert!(session.record_run_output(ok_output).is_ok());
    assert!(session.record_run_output(ok_output).is_ok());
    assert_eq!(session.deltas, vec![310, 310]);
    let m = session.finish(0).unwrap();
    assert_eq!(m.resolution_units, 5_000);
    assert_eq!(m.raw_samples, vec![310, 310]);
    assert_eq!(m.statistics.median, 310);
}

#[test]
fn session_mismatch_records_nothing() {
    let mut session = MeasurementSession::new(5_000, 25, 2);
    let bad_output = b"Resolution: 0.7000ms\nAvg: 0.0310\nSTDEV: 0.0029\n";
    assert!(matches!(
        session.record_run_output(bad_output),
        Err(BenchError::ResolutionMismatch { .. })
    ));
    assert!(session.deltas.is_empty());
}

#[test]
fn completed_session_fails_on_surviving_processes() {
    let mut session = MeasurementSession::new(5_000, 25, 1);
    let ok_output = b"Avg: 0.0310\nSTDEV: 0.0029\n";
    assert!(session.record_run_output(ok_output).is_ok());
    match session.finish(2) {
        Err(BenchError::StuckProcess(n)) => assert_eq!(n, 2),
        other => panic!("expected a stuck-process error, got {:?}", other),
    }
}

#[test]
fn purge_succeeds_only_at_zero() {
    assert!(purge_concluded(0).is_ok());
    assert!(matches!(purge_concluded(3), Err(BenchError::StuckProcess(3))));
}

#[test]
fn spawn_exit_classification() {
    assert!(matches!(
        classify_spawn_exit(b"the tool is already running elsewhere"),
        BenchError::InstanceConflict
    ));
    assert!(matches!(
        classify_spawn_exit(b"Another instance holds the lock"),
        BenchError::InstanceConflict
    ));
    match classify_spawn_exit(b"boom") {
        BenchError::SpawnFailed(text) => assert_eq!(text, b"boom".to_vec()),
        other => panic!("expected a spawn failure, got {:?}", other),
    }
}

#[test]
fn process_listing_counting() {
    let listing = b"SetTimerResolution.exe   123\nSetTimerResolution.exe   456\nnotepad.exe 7\n";
    assert_eq!(count_image_mentions(listing), 2);
    assert_eq!(count_image_mentions(b"nothing here"), 0);
}

#[test]
fn method_choice() {
    assert_eq!(choose_method(b" 1 \n").unwrap(), OptimizationMethod::Linear);
    assert_eq!(choose_method(b"2").unwrap(), OptimizationMethod::Bayesian);
    assert_eq!(choose_method(b"\n").unwrap(), OptimizationMethod::Bayesian);
    assert_eq!(choose_method(b"").unwrap(), OptimizationMethod::Bayesian);
    assert!(matches!(choose_method(b"x"), Err(BenchError::InvalidMethod)));
}

#[test]
fn privilege_and_dependency_gates() {
    assert!(precheck_admin(true).is_ok());
    assert!(matches!(precheck_admin(false), Err(BenchError::PermissionDenied)));
    assert!(helpers_present(true, true).is_ok());
    assert!(matches!(helpers_present(true, false), Err(BenchError::MissingHelper)));
    assert!(matches!(
        evaluate_smoke_test(false, b""),
        Err(BenchError::MeasurementFailed)
    ));
    assert_eq!(
        evaluate_smoke_test(true, b"Avg: 0.1000\nSTDEV: 0.0200\n").unwrap(),
        (1_000, 200)
    );
}

#[test]
fn platform_clock_state_reading() {
    let disabled = b"useplatformclock        No\ndisabledynamictick      Yes\n";
    assert!(hpet_disabled_from_listing(disabled));
    let enabled = b"useplatformclock        Yes\ndisabledynamictick      Yes\n";
    assert!(!hpet_disabled_from_listing(enabled));
    let only_tick = b"disabledynamictick      Yes\n";
    assert!(hpet_disabled_from_listing(only_tick));
    assert!(hpet_disabled_from_listing(b""));
    let tick_off = b"disabledynamictick      No\n";
    assert!(!hpet_disabled_from_listing(tick_off));
}

#[test]
fn orchestrator_reports_after_partial_failure() {
    let mut run = Orchestrator::new();
    run.note_configured();
    run.note_prechecked();
    run.note_measuring();
    run.note_measurement();
    run.note_failure();
    assert_eq!(run.phase, Phase::Reported);

    let mut failed_early = Orchestrator::new();
    failed_early.note_configured();
    failed_early.note_prechecked();
    failed_early.note_measuring();
    failed_early.note_failure();
    assert_eq!(failed_early.phase, Phase::Aborted);
}

#[test]
fn error_codes_name_every_kind() {
    assert_eq!(BenchError::PermissionDenied.code(), "PermissionDenied");
    assert_eq!(BenchError::InvalidConfig.code(), "InvalidConfig");
    assert_eq!(BenchError::InvalidMethod.code(), "InvalidMethod");
    assert_eq!(BenchError::MissingHelper.code(), "MissingHelper");
    assert_eq!(BenchError::SpawnFailed(Vec::new()).code(), "SpawnFailed");
    assert_eq!(BenchError::InstanceConflict.code(), "InstanceConflict");
    assert_eq!(BenchError::Timeout.code(), "Timeout");
    assert_eq!(BenchError::MeasurementFailed.code(), "MeasurementFailed");
    assert_eq!(BenchError::InvalidOutput.code(), "InvalidOutput");
    assert_eq!(
        BenchError::ResolutionMismatch { expected_units: 5_000, reported_units: 7_000 }.code(),
        "ResolutionMismatch"
    );
    assert_eq!(BenchError::StuckProcess(1).code(), "StuckProcess");
}

#[test]
fn orchestrator_happy_path() {
    let mut run = Orchestrator::new();
    run.note_configured();
    run.note_prechecked();
    run.note_measuring();
    run.note_measurement();
    run.note_ranking();
    run.note_reported();
    run.note_exited();
    assert_eq!(run.phase, Phase::Exited);
    assert_eq!(run.measurements_completed, 1);
}
