use timer_res_benchmark::bayesian::{
    argmin_first, grid_points, kappa_at, kernel_width, latin_hypercube_midpoints,
    BayesDriver, BayesianOptimizer, DriverStep, MAX_OBSERVATIONS, SEED_POINTS,
};
use timer_res_benchmark::measurement::TimerMeasurement;
use timer_res_benchmark::stats::{PerformanceWeights, RobustStatistics};

#[test]
fn latin_hypercube_takes_segment_midpoints() {
    // [0.5, 1.0] ms in five segments: midpoints 0.55, 0.65, ..., 0.95 ms.
    let points = latin_hypercube_midpoints(5_000, 10_000, 5);
    assert_eq!(points, vec![5_500, 6_500, 7_500, 8_500, 9_500]);
}

#[test]
fn kappa_schedules_from_high_to_low() {
    assert_eq!(kappa_at(5, 5, 15), 25_000); // 2.5 at the first step
    assert_eq!(kappa_at(14, 5, 15), 5_000); // 0.5 at the last step
    // In between the schedule decreases.
    let mut prev = kappa_at(5, 5, 15);
    for iter in 6..15 {
        let k = kappa_at(iter, 5, 15);
        assert!(k <= prev);
        prev = k;
    }
}

#[test]
fn grid_is_evenly_spaced() {
    let grid = grid_points(5_000, 10_000, 200);
    assert_eq!(grid.len(), 200);
    assert_eq!(grid[0], 5_000);
    assert_eq!(grid[1], 5_025);
    assert_eq!(grid[199], 5_000 + 199 * 25);
}

#[test]
fn argmin_takes_the_first_of_equals() {
    assert_eq!(argmin_first(&vec![3, 1, 2, 1]), 1);
    assert_eq!(argmin_first(&vec![7]), 0);
    assert_eq!(argmin_first(&vec![2, 2, 2]), 0);
}

#[test]
fn driver_performs_exactly_fifteen_observations() {
    // Seeded with 5, the driver measures 5 seed points and 10 acquisition
    // steps: 15 observations in all, then it finishes.
    let mut driver = BayesDriver::new(SEED_POINTS, MAX_OBSERVATIONS);
    let mut seed_steps = 0usize;
    let mut acquired_steps = 0usize;
    loop {
        match driver.next_step() {
            DriverStep::MeasureSeed(i) => {
                assert_eq!(i, seed_steps);
                seed_steps += 1;
                driver.note_observation();
            }
            DriverStep::MeasureAcquired { kappa_scaled } => {
                assert!(kappa_scaled >= 5_000 && kappa_scaled <= 25_000);
                acquired_steps += 1;
                driver.note_observation();
            }
            DriverStep::Finished => break,
        }
    }
    assert_eq!(seed_steps, 5);
    assert_eq!(acquired_steps, 10);
    assert_eq!(seed_steps + acquired_steps, 15);
}

#[test]
fn optimizer_appends_observations_in_order() {
    let mut opt = BayesianOptimizer::new(kernel_width(5_000, 10_000), PerformanceWeights::default());
    assert_eq!(opt.kernel_width_units, 750); // 15% of the 0.5 ms range
    assert!(opt.observations.is_empty());
    let m = TimerMeasurement {
        resolution_units: 5_500,
        statistics: RobustStatistics::from_samples(vec![100, 200, 300]),
        raw_samples: vec![100, 200, 300],
    };
    opt.add_observation(m);
    assert_eq!(opt.observations.len(), 1);
    assert_eq!(opt.observations[0].resolution_units, 5_500);
}
