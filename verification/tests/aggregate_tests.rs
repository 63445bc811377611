use timer_res_benchmark::measurement::{aggregate_measurements, TimerMeasurement};
use timer_res_benchmark::stats::RobustStatistics;

fn measurement(resolution_units: u64, samples: Vec<u64>) -> TimerMeasurement {
    let statistics = RobustStatistics::from_samples(samples.clone());
    TimerMeasurement { resolution_units, statistics, raw_samples: samples }
}

#[test]
fn shared_buckets_pool_their_samples() {
    let input = vec![
        measurement(5_000, vec![100, 200]),
        measurement(6_000, vec![300]),
        measurement(5_000, vec![400, 500]),
    ];
    let out = aggregate_measurements(&input);
    assert_eq!(out.len(), 2);
    // Buckets appear in order of first occurrence.
    assert_eq!(out[0].resolution_units, 5_000);
    assert_eq!(out[1].resolution_units, 6_000);
    // Pooled samples concatenate in input order.
    assert_eq!(out[0].raw_samples, vec![100, 200, 400, 500]);
    assert_eq!(out[1].raw_samples, vec![300]);
    // Statistics are recomputed once over the pool.
    let expected = RobustStatistics::from_samples(vec![100, 200, 400, 500]);
    assert_eq!(out[0].statistics, expected);
}

#[test]
fn aggregation_is_idempotent() {
    let input = vec![
        measurement(5_000, vec![100, 200]),
        measurement(6_000, vec![300]),
        measurement(5_000, vec![400]),
    ];
    let once = aggregate_measurements(&input);
    let twice = aggregate_measurements(&once);
    assert_eq!(once.len(), twice.len());
    for (a, b) in once.iter().zip(twice.iter()) {
        assert_eq!(a.resolution_units, b.resolution_units);
        assert_eq!(a.raw_samples, b.raw_samples);
        assert_eq!(a.statistics, b.statistics);
    }
}

#[test]
fn unique_buckets_pass_through() {
    let input = vec![measurement(5_000, vec![100]), measurement(7_000, vec![200])];
    let out = aggregate_measurements(&input);
    assert_eq!(out.len(), 2);
    assert_eq!(out[0].raw_samples, vec![100]);
    assert_eq!(out[1].raw_samples, vec![200]);
}
