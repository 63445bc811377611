use timer_res_benchmark::measurement::TimerMeasurement;
use timer_res_benchmark::stats::RobustStatistics;
use timer_res_benchmark::topsis::{topsis_ranking, CLOSENESS_SCALE, NEUTRAL_CLOSENESS};

fn measurement(resolution_units: u64, p95: u64, mad: u64, p99: u64, ci_width: u64)
    -> TimerMeasurement {
    TimerMeasurement {
        resolution_units,
        statistics: RobustStatistics {
            mean: p95,
            median: p95,
            stdev: mad,
            mad,
            p95,
            p99,
            outliers_removed: 0,
            ci_low: 0,
            ci_high: ci_width as i64,
        },
        raw_samples: vec![p95],
    }
}

#[test]
fn empty_input_yields_empty_ranking() {
    let ranking = topsis_ranking(&Vec::new());
    assert!(ranking.is_empty());
}

#[test]
fn identical_measurements_score_neutral_in_input_order() {
    // Three measurements with identical criteria (0.1, 0.02, 0.15, 0.01) ms:
    // every closeness coefficient is the neutral 0.5 and the ranks follow
    // the input order.
    let ms = vec![
        measurement(5_000, 1_000, 200, 1_500, 100),
        measurement(6_000, 1_000, 200, 1_500, 100),
        measurement(7_000, 1_000, 200, 1_500, 100),
    ];
    let ranking = topsis_ranking(&ms);
    assert_eq!(ranking.len(), 3);
    for r in &ranking {
        assert_eq!(r.closeness_coefficient, NEUTRAL_CLOSENESS);
    }
    assert_eq!(ranking[0].resolution_units, 5_000);
    assert_eq!(ranking[1].resolution_units, 6_000);
    assert_eq!(ranking[2].resolution_units, 7_000);
    assert_eq!(ranking[0].rank, 1);
    assert_eq!(ranking[1].rank, 2);
    assert_eq!(ranking[2].rank, 3);
}

#[test]
fn dominating_measurement_ranks_first() {
    let ms = vec![
        measurement(9_000, 2_000, 400, 3_000, 200),
        measurement(5_000, 1_000, 200, 1_500, 100),
    ];
    let ranking = topsis_ranking(&ms);
    assert_eq!(ranking.len(), 2);
    assert_eq!(ranking[0].resolution_units, 5_000);
    assert_eq!(ranking[0].rank, 1);
    assert_eq!(ranking[1].resolution_units, 9_000);
    assert_eq!(ranking[1].rank, 2);
    assert!(ranking[0].closeness_coefficient >= ranking[1].closeness_coefficient);
}

#[test]
fn closeness_is_bounded_and_ranks_are_a_permutation() {
    let ms = vec![
        measurement(5_000, 900, 100, 1_200, 50),
        measurement(6_000, 1_100, 300, 1_300, 80),
        measurement(7_000, 700, 250, 1_000, 120),
        measurement(8_000, 1_500, 50, 2_000, 40),
    ];
    let ranking = topsis_ranking(&ms);
    assert_eq!(ranking.len(), 4);
    let mut seen = vec![false; 4];
    for (k, r) in ranking.iter().enumerate() {
        assert!(r.closeness_coefficient <= CLOSENESS_SCALE);
        assert_eq!(r.rank, k + 1);
        assert!(!seen[r.rank - 1]);
        seen[r.rank - 1] = true;
    }
    for k in 0..ranking.len() - 1 {
        assert!(ranking[k].closeness_coefficient >= ranking[k + 1].closeness_coefficient);
    }
}

#[test]
fn criteria_scores_carry_the_inputs() {
    let ms = vec![measurement(5_000, 900, 100, 1_200, 50)];
    let ranking = topsis_ranking(&ms);
    assert_eq!(ranking[0].criteria_scores.p95_delta, 900);
    assert_eq!(ranking[0].criteria_scores.mad, 100);
    assert_eq!(ranking[0].criteria_scores.p99_delta, 1_200);
    assert_eq!(ranking[0].criteria_scores.confidence_width, 50);
}
