use timer_res_benchmark::stats::{sort_units, percentile, PerformanceWeights, RobustStatistics};

fn ms(x: f64) -> u64 {
    (x * 10_000.0).round() as u64
}

#[test]
fn percentile_boundary_samples() {
    // Samples 0.1 .. 1.0 ms: the median is 0.5 ms, p95 and p99 both read
    // the largest value, and nothing is filtered out.
    let samples: Vec<u64> = vec![
        ms(0.1),
        ms(0.2),
        ms(0.3),
        ms(0.4),
        ms(0.5),
        ms(0.6),
        ms(0.7),
        ms(0.8),
        ms(0.9),
        ms(1.0),
    ];
    let stats = RobustStatistics::from_samples(samples);
    assert_eq!(stats.median, ms(0.5));
    assert_eq!(stats.p95, ms(1.0));
    assert_eq!(stats.p99, ms(1.0));
    assert_eq!(stats.outliers_removed, 0);
}

#[test]
fn mad_filter_drops_the_outlier() {
    // Nine samples of 1 ms and one of 100 ms: MAD is zero, so the filter
    // threshold is zero and the large sample is removed.
    let mut samples: Vec<u64> = vec![ms(1.0); 9];
    samples.push(ms(100.0));
    let stats = RobustStatistics::from_samples(samples);
    assert_eq!(stats.median, ms(1.0));
    assert_eq!(stats.mad, 0);
    assert_eq!(stats.outliers_removed, 1);
    assert_eq!(stats.mean, ms(1.0));
    assert_eq!(stats.stdev, 0);
}

#[test]
fn confidence_interval_brackets_the_mean() {
    let samples: Vec<u64> = vec![ms(0.3), ms(0.1), ms(0.4), ms(0.2), ms(0.5), ms(0.35)];
    let stats = RobustStatistics::from_samples(samples.clone());
    assert!(stats.ci_low <= stats.mean as i64);
    assert!(stats.mean as i64 <= stats.ci_high);
    assert!(stats.p95 <= stats.p99);
    assert!(samples.contains(&stats.median));
}

#[test]
fn single_sample_statistics() {
    let stats = RobustStatistics::from_samples(vec![ms(0.5)]);
    assert_eq!(stats.median, ms(0.5));
    assert_eq!(stats.mean, ms(0.5));
    assert_eq!(stats.stdev, 0);
    assert_eq!(stats.p95, ms(0.5));
    assert_eq!(stats.p99, ms(0.5));
    assert_eq!(stats.outliers_removed, 0);
    assert_eq!(stats.ci_low, ms(0.5) as i64);
    assert_eq!(stats.ci_high, ms(0.5) as i64);
}

#[test]
fn performance_score_weighs_the_criteria() {
    let stats = RobustStatistics {
        mean: 0,
        median: 0,
        stdev: 0,
        mad: 50,
        p95: 100,
        p99: 200,
        outliers_removed: 0,
        ci_low: 0,
        ci_high: 0,
    };
    let weights = PerformanceWeights::default();
    assert_eq!(weights.accuracy, 60);
    assert_eq!(weights.consistency, 30);
    assert_eq!(weights.worst_case, 10);
    // (60 * 100 + 30 * 50 + 10 * 200) / 100 = 95
    assert_eq!(stats.performance_score(&weights), 95);
}

#[test]
fn sorting_is_stable_and_ordered() {
    let sorted = sort_units(&vec![5, 3, 9, 1, 3]);
    assert_eq!(sorted, vec![1, 3, 3, 5, 9]);
}

#[test]
fn percentile_reads_the_nearest_rank() {
    let sorted: Vec<u64> = vec![10, 20, 30, 40];
    assert_eq!(percentile(&sorted, 50), 20);
    assert_eq!(percentile(&sorted, 99), 40);
    assert_eq!(percentile(&sorted, 1), 10);
    assert_eq!(percentile(&Vec::new(), 50), 0);
}
