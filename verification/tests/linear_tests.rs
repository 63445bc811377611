use timer_res_benchmark::config::BenchmarkParameters;
use timer_res_benchmark::error::BenchError;
use timer_res_benchmark::linear::{plan_points, total_points, EtaTracker, ETA_MIN_SAMPLES};

fn params(start: u64, increment: u64, end: u64) -> BenchmarkParameters {
    BenchmarkParameters { start_units: start, increment_units: increment, end_units: end, samples_per_run: 25 }
}

#[test]
fn half_millisecond_sweep_visits_five_points() {
    // start 0.5 ms, end 1.0 ms, increment 0.1 ms: five points, and 1.0 ms
    // itself is never visited.
    let p = params(5_000, 1_000, 10_000);
    assert_eq!(total_points(&p), 5);
    let points = plan_points(&p).unwrap();
    assert_eq!(points, vec![5_000, 6_000, 7_000, 8_000, 9_000]);
    assert!(points.iter().all(|&x| x < 10_000));
}

#[test]
fn non_dividing_increment_rounds_up() {
    let p = params(1, 2, 6);
    assert_eq!(total_points(&p), 3);
    let points = plan_points(&p).unwrap();
    assert_eq!(points, vec![1, 3, 5]);
}

#[test]
fn empty_range_is_rejected() {
    let p = params(10_000, 1_000, 10_000);
    assert!(matches!(plan_points(&p), Err(BenchError::InvalidConfig)));
    let q = params(10_000, 1_000, 5_000);
    assert!(matches!(plan_points(&q), Err(BenchError::InvalidConfig)));
}

#[test]
fn eta_appears_after_five_points_and_smooths() {
    let mut tracker = EtaTracker::new();
    assert_eq!(tracker.eta_millis(10), None);
    tracker.record_point(1_000);
    assert_eq!(tracker.ema_millis, Some(1_000));
    tracker.record_point(2_000);
    // 0.15 * 2000 + 0.85 * 1000 = 1150
    assert_eq!(tracker.ema_millis, Some(1_150));
    assert_eq!(tracker.eta_millis(10), None);
    tracker.record_point(1_150);
    tracker.record_point(1_150);
    tracker.record_point(1_150);
    assert_eq!(tracker.completed, ETA_MIN_SAMPLES);
    assert_eq!(tracker.eta_millis(10), Some(11_500));
}

#[test]
fn parameter_validation_requires_positive_fields() {
    assert!(params(5_000, 1_000, 10_000).validate().is_ok());
    let zero_inc = BenchmarkParameters {
        start_units: 5_000,
        increment_units: 0,
        end_units: 10_000,
        samples_per_run: 25,
    };
    assert!(matches!(zero_inc.validate(), Err(BenchError::InvalidConfig)));
    let zero_samples = BenchmarkParameters {
        start_units: 5_000,
        increment_units: 1_000,
        end_units: 10_000,
        samples_per_run: 0,
    };
    assert!(matches!(zero_samples.validate(), Err(BenchError::InvalidConfig)));
}
