use kalman_sim::estimator::KalmanFilter;
use kalman_sim::rat::Rat;
use kalman_sim::simulator::{simulate, simulate_with_noise, SimError};

fn zeros(n: usize) -> Vec<Rat> {
    let mut v = Vec::new();
    for _ in 0..n {
        v.push(Rat::zero());
    }
    v
}

#[test]
fn rejects_zero_time_step() {
    let res = simulate_with_noise(
        Rat::from_int(1),
        Rat::zero(),
        Rat::from_int(1),
        Rat::one(),
        Rat::zero(),
        &zeros(0),
    );
    assert!(matches!(res, Err(SimError::InvalidTimeStep)));
    let res2 = simulate(
        Rat::from_int(1),
        Rat::zero(),
        Rat::from_int(1),
        Rat::zero(),
        Rat::one(),
        Rat::zero(),
    );
    assert!(matches!(res2, Err(SimError::InvalidTimeStep)));
}

#[test]
fn rejects_zero_total_time() {
    let res = simulate_with_noise(
        Rat::zero(),
        Rat::one(),
        Rat::from_int(1),
        Rat::one(),
        Rat::zero(),
        &zeros(0),
    );
    assert!(matches!(res, Err(SimError::InvalidTimeStep)));
}

#[test]
fn rejects_negative_time_step() {
    let res = simulate_with_noise(
        Rat::from_int(1),
        Rat::new(-1, 2),
        Rat::from_int(1),
        Rat::one(),
        Rat::zero(),
        &zeros(0),
    );
    assert!(matches!(res, Err(SimError::InvalidTimeStep)));
}

#[test]
fn rejects_nonpositive_noise_variance() {
    let res = simulate_with_noise(
        Rat::from_int(1),
        Rat::one(),
        Rat::from_int(1),
        Rat::zero(),
        Rat::zero(),
        &zeros(1),
    );
    assert!(matches!(res, Err(SimError::InvalidNoiseModel)));
    let res2 = simulate_with_noise(
        Rat::from_int(1),
        Rat::one(),
        Rat::from_int(1),
        Rat::from_int(-1),
        Rat::zero(),
        &zeros(1),
    );
    assert!(matches!(res2, Err(SimError::InvalidNoiseModel)));
}

#[test]
fn one_tick_when_total_time_equals_dt() {
    let res = simulate_with_noise(
        Rat::one(),
        Rat::one(),
        Rat::from_int(1),
        Rat::one(),
        Rat::zero(),
        &zeros(1),
    );
    let out = res.unwrap();
    assert_eq!(out.ticks.len(), 1);
}

#[test]
fn one_tick_when_total_time_just_under_two_steps() {
    let res = simulate_with_noise(
        Rat::new(19, 10),
        Rat::one(),
        Rat::from_int(1),
        Rat::one(),
        Rat::zero(),
        &zeros(2),
    );
    let out = res.unwrap();
    assert_eq!(out.ticks.len(), 1);
}

#[test]
fn two_tick_trace_matches_expected_values() {
    let res = simulate_with_noise(
        Rat::one(),
        Rat::new(1, 2),
        Rat::from_int(2),
        Rat::new(1, 10000),
        Rat::new(1, 100),
        &zeros(2),
    );
    let out = res.unwrap();
    assert_eq!(out.ticks.len(), 2);
    assert!(out.ticks[0].true_position.eq_val(&Rat::from_int(1)));
    assert!(out.ticks[0].measured_position.eq_val(&Rat::from_int(1)));
    assert!(out.ticks[0].time.eq_val(&Rat::zero()));
    assert!(out.ticks[1].true_position.eq_val(&Rat::from_int(2)));
    assert!(out.ticks[1].measured_position.eq_val(&Rat::from_int(2)));
    assert!(out.ticks[1].time.eq_val(&Rat::new(1, 2)));
}

#[test]
fn zero_noise_measurements_equal_truth() {
    let res = simulate_with_noise(
        Rat::from_int(5),
        Rat::one(),
        Rat::from_int(1),
        Rat::one(),
        Rat::zero(),
        &zeros(5),
    );
    let out = res.unwrap();
    assert_eq!(out.ticks.len(), 5);
    for tick in &out.ticks {
        assert!(tick.measured_position.eq_val(&tick.true_position));
        assert!(tick.estimated_position.eq_val(&tick.true_position));
    }
}

#[test]
fn fixed_noise_repeat_runs_identical() {
    let noise = vec![Rat::new(1, 10), Rat::new(-1, 10), Rat::new(1, 20)];
    let a = simulate_with_noise(
        Rat::from_int(3),
        Rat::one(),
        Rat::from_int(1),
        Rat::new(1, 4),
        Rat::zero(),
        &noise,
    )
    .unwrap();
    let b = simulate_with_noise(
        Rat::from_int(3),
        Rat::one(),
        Rat::from_int(1),
        Rat::new(1, 4),
        Rat::zero(),
        &noise,
    )
    .unwrap();
    assert_eq!(a.ticks.len(), 3);
    assert_eq!(a.ticks.len(), b.ticks.len());
    for i in 0..a.ticks.len() {
        assert_eq!(a.ticks[i].time, b.ticks[i].time);
        assert_eq!(a.ticks[i].true_position, b.ticks[i].true_position);
        assert_eq!(a.ticks[i].measured_position, b.ticks[i].measured_position);
        assert_eq!(a.ticks[i].estimated_position, b.ticks[i].estimated_position);
    }
}

#[test]
fn gain_stays_in_unit_interval() {
    let mut kf = KalmanFilter::new(Rat::zero(), Rat::one(), Rat::new(1, 4), Rat::zero());
    let measurements = [Rat::new(3, 2), Rat::new(5, 2), Rat::new(7, 4)];
    for z in measurements {
        assert!(kf.predict(Rat::one()));
        assert!(kf.update(z));
        assert!(Rat::zero().le_val(&kf.k));
        assert!(kf.k.le_val(&Rat::one()));
    }
}

#[test]
fn covariance_never_grows_in_update() {
    let mut kf = KalmanFilter::new(Rat::zero(), Rat::one(), Rat::new(1, 4), Rat::zero());
    let measurements = [Rat::new(3, 2), Rat::new(5, 2), Rat::new(7, 4)];
    for z in measurements {
        assert!(kf.predict(Rat::one()));
        let p_after_predict = kf.p;
        assert!(kf.update(z));
        assert!(kf.p.le_val(&p_after_predict));
        assert!(kf.p.le_val(&kf.r));
        assert!(Rat::zero().le_val(&kf.p));
    }
}

#[test]
fn random_noise_run_has_floor_length_and_bounded_noise() {
    let stddev = Rat::new(1, 2);
    let res = simulate(
        Rat::from_int(2),
        Rat::one(),
        Rat::from_int(1),
        stddev,
        Rat::new(1, 4),
        Rat::zero(),
    );
    let out = res.unwrap();
    assert_eq!(out.ticks.len(), 2);
    for tick in &out.ticks {
        let diff = tick
            .measured_position
            .checked_sub(&tick.true_position)
            .unwrap();
        assert!(Rat::new(-1, 2).lt_val(&diff));
        assert!(diff.lt_val(&stddev));
    }
}

#[test]
fn zero_width_noise_makes_simulate_deterministic() {
    let a = simulate(
        Rat::from_int(3),
        Rat::one(),
        Rat::from_int(1),
        Rat::zero(),
        Rat::one(),
        Rat::zero(),
    )
    .unwrap();
    let b = simulate(
        Rat::from_int(3),
        Rat::one(),
        Rat::from_int(1),
        Rat::zero(),
        Rat::one(),
        Rat::zero(),
    )
    .unwrap();
    assert_eq!(a.ticks.len(), 3);
    assert_eq!(b.ticks.len(), 3);
    for i in 0..3 {
        assert_eq!(a.ticks[i].time, b.ticks[i].time);
        assert_eq!(a.ticks[i].true_position, b.ticks[i].true_position);
        assert_eq!(a.ticks[i].measured_position, b.ticks[i].measured_position);
        assert_eq!(a.ticks[i].estimated_position, b.ticks[i].estimated_position);
        assert!(a.ticks[i].measured_position.eq_val(&a.ticks[i].true_position));
    }
}

#[test]
fn overflow_reported_for_extreme_values() {
    let huge = Rat::new(100_000_000_000_000_000_000_000_000_000_000_000_000, 1);
    let res = simulate_with_noise(
        Rat::from_int(2),
        Rat::one(),
        huge,
        Rat::one(),
        Rat::zero(),
        &zeros(2),
    );
    assert!(matches!(res, Err(SimError::Overflow)));
}
