use timer_res_benchmark::measurement::TimerMeasurement;
use timer_res_benchmark::report::render_results;
use timer_res_benchmark::stats::RobustStatistics;
use timer_res_benchmark::topsis::{topsis_ranking, TopsisScore, CriteriaScores};
use timer_res_benchmark::units::{fmt_signed_units_ms, fmt_units_ms, parse_decimal_units};

#[test]
fn fixed_point_formatting_is_exact() {
    assert_eq!(fmt_units_ms(5_000), "0.5000");
    assert_eq!(fmt_units_ms(12_345), "1.2345");
    assert_eq!(fmt_units_ms(0), "0.0000");
    assert_eq!(fmt_units_ms(10_000), "1.0000");
    assert_eq!(fmt_signed_units_ms(-123), "-0.0123");
    assert_eq!(fmt_signed_units_ms(310), "0.0310");
}

fn sample_measurement() -> TimerMeasurement {
    TimerMeasurement {
        resolution_units: 5_000,
        statistics: RobustStatistics {
            mean: 305,
            median: 300,
            stdev: 5,
            mad: 3,
            p95: 310,
            p99: 320,
            outliers_removed: 0,
            ci_low: 300,
            ci_high: 310,
        },
        raw_samples: vec![300, 310],
    }
}

#[test]
fn document_layout_is_deterministic() {
    let measurements = vec![sample_measurement()];
    let rankings = vec![TopsisScore {
        resolution_units: 5_000,
        closeness_coefficient: 5_000,
        rank: 1,
        criteria_scores: CriteriaScores {
            p95_delta: 310,
            mad: 3,
            p99_delta: 320,
            confidence_width: 10,
        },
    }];
    let doc = render_results(&rankings, &measurements);
    let expected = "Resolution_ms,P50_Delta,P95_Delta,P99_Delta,Mean_Delta,StdDev,MAD,Outliers_Removed,CI_Lower,CI_Upper,TOPSIS_Score,Rank\n\
        0.5000,0.0300,0.0310,0.0320,0.0305,0.0005,0.0003,0,0.0300,0.0310,0.5000,1\n\
        \n\
        # Optimal Resolution: 0.5000 ms\n\
        # TOPSIS Score: 0.5000\n";
    assert_eq!(doc, expected);
}

#[test]
fn written_document_reparses_to_the_same_values() {
    // The whole pipeline's round trip: rank, render, re-parse every numeric
    // cell, and compare with what was rendered.
    let measurements = vec![
        TimerMeasurement {
            resolution_units: 5_000,
            statistics: RobustStatistics::from_samples(vec![250, 300, 350, 400]),
            raw_samples: vec![250, 300, 350, 400],
        },
        TimerMeasurement {
            resolution_units: 6_000,
            statistics: RobustStatistics::from_samples(vec![500, 600, 700, 800]),
            raw_samples: vec![500, 600, 700, 800],
        },
    ];
    let rankings = topsis_ranking(&measurements);
    let doc = render_results(&rankings, &measurements);
    let rows: Vec<&str> = doc
        .lines()
        .skip(1)
        .take_while(|line| !line.is_empty())
        .collect();
    assert_eq!(rows.len(), rankings.len());
    for (row, ranked) in rows.iter().zip(rankings.iter()) {
        let cells: Vec<&str> = row.split(',').collect();
        assert_eq!(cells.len(), 12);
        let m = measurements
            .iter()
            .find(|m| m.resolution_units == ranked.resolution_units)
            .unwrap();
        assert_eq!(parse_decimal_units(cells[0].as_bytes()), Some(m.resolution_units));
        assert_eq!(parse_decimal_units(cells[1].as_bytes()), Some(m.statistics.median));
        assert_eq!(parse_decimal_units(cells[2].as_bytes()), Some(m.statistics.p95));
        assert_eq!(parse_decimal_units(cells[3].as_bytes()), Some(m.statistics.p99));
        assert_eq!(parse_decimal_units(cells[4].as_bytes()), Some(m.statistics.mean));
        assert_eq!(parse_decimal_units(cells[5].as_bytes()), Some(m.statistics.stdev));
        assert_eq!(parse_decimal_units(cells[6].as_bytes()), Some(m.statistics.mad));
        assert_eq!(cells[7].parse::<usize>().unwrap(), m.statistics.outliers_removed);
        assert_eq!(
            parse_decimal_units(cells[8].as_bytes()),
            Some(m.statistics.ci_low as u64)
        );
        assert_eq!(
            parse_decimal_units(cells[9].as_bytes()),
            Some(m.statistics.ci_high as u64)
        );
        assert_eq!(
            parse_decimal_units(cells[10].as_bytes()),
            Some(ranked.closeness_coefficient)
        );
        assert_eq!(cells[11].parse::<usize>().unwrap(), ranked.rank);
    }
    // Footer names the winner to four decimal places.
    let footer: Vec<&str> = doc.lines().collect();
    let optimal = footer[footer.len() - 2];
    assert!(optimal.starts_with("# Optimal Resolution: "));
    assert!(optimal.ends_with(" ms"));
    let score = footer[footer.len() - 1];
    assert!(score.starts_with("# TOPSIS Score: "));
}
