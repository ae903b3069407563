//! Smoother behavior: asymmetric time constants, monotone approach,
//! convergence.  Times are micro-seconds, decibels micro-dB.

use adaptive_gain::smoother::{exp_neg, Smoother};

#[test]
fn exponential_table_reference_points() {
    assert_eq!(exp_neg(0), 1_000_000);
    assert_eq!(exp_neg(500_000), 606_531);
    assert_eq!(exp_neg(1_000_000), 367_879);
    assert_eq!(exp_neg(5_000_000), 6_737);
    assert_eq!(exp_neg(20_000_000), 0);
}

#[test]
fn five_tau_in_small_steps_lands_within_one_percent() {
    // five steps of one time constant each
    let mut s = Smoother::new(0, 100_000, 1_000_000);
    let mut v: i64 = 0;
    for _ in 0..5 {
        v = s.step_dt(6_000_000, 100_000);
    }
    let gap = (6_000_000 - v).abs();
    assert!(gap <= 60_000 + 5, "gap after five time constants: {}", gap);
}

#[test]
fn test_gain_smoother() {
    let mut smoother = Smoother::new(0, 100_000, 1_000_000);

    // attack (getting louder)
    let target_db: i64 = 6_000_000;
    let mut current = smoother.step_dt(target_db, 50_000);
    assert!(
        current > 0 && current < target_db,
        "First attack step should be between 0 and target: {}",
        current
    );

    // it eventually reaches close to the target
    for _ in 0..20 {
        current = smoother.step_dt(target_db, 50_000);
    }
    assert!(
        (current - target_db).abs() < 100_000,
        "Should converge to target: {} vs {}",
        current,
        target_db
    );

    // release (getting quieter)
    let target_db: i64 = -6_000_000;
    current = smoother.step_dt(target_db, 50_000);
    assert!(
        current < 6_000_000 && current > target_db,
        "First release step should be between previous and target: {}",
        current
    );
}

#[test]
fn test_smoother_behavior() {
    let mut s = Smoother::new(0, 100_000, 500_000);

    // attack phase (increase), driven by a clock
    let mut now: i64 = 0;
    let mut val: i64 = 0;
    for _ in 0..10 {
        now += 10_000;
        val = s.step(6_000_000, now);
    }
    assert!(val > 0, "Smoother should rise during attack phase");

    // release phase (decrease)
    for _ in 0..10 {
        now += 10_000;
        val = s.step(-6_000_000, now);
    }
    assert!(val < 6_000_000, "Smoother should decay during release phase");
}

#[test]
fn first_attack_step_is_exact() {
    let mut s = Smoother::new(0, 100_000, 1_000_000);
    assert_eq!(s.step_dt(6_000_000, 50_000), 2_360_814);
}

#[test]
fn five_time_constants_land_within_one_percent() {
    let mut s = Smoother::new(24_000_000, 100_000, 1_000_000);
    let v = s.step_dt(0, 5_000_000);
    assert_eq!(v, 161_688);
    assert!(v <= 24_000_000 / 100 + 1);
}

#[test]
fn approach_is_monotone_without_overshoot() {
    let mut s = Smoother::new(-10_000_000, 200_000, 700_000);
    let target: i64 = 4_000_000;
    let mut prev = s.value_db;
    for _ in 0..40 {
        let v = s.step_dt(target, 30_000);
        assert!(prev <= v && v <= target, "{} -> {} toward {}", prev, v, target);
        prev = v;
    }
    // and downward, symmetrically
    let target: i64 = -2_000_000;
    for _ in 0..40 {
        let v = s.step_dt(target, 30_000);
        assert!(target <= v && v <= prev, "{} -> {} toward {}", prev, v, target);
        prev = v;
    }
}

#[test]
fn rising_target_ignores_release_constant() {
    let mut a = Smoother::new(0, 100_000, 500_000);
    let mut b = Smoother::new(0, 100_000, 3_000_000);
    for _ in 0..8 {
        let va = a.step_dt(9_000_000, 25_000);
        let vb = b.step_dt(9_000_000, 25_000);
        assert_eq!(va, vb, "attack must not depend on the release constant");
    }
    // falling from the same held value, the release constants now matter
    let da = a.step_dt(-9_000_000, 25_000);
    let db = b.step_dt(-9_000_000, 25_000);
    assert!(
        da < db,
        "the slower release constant must decay more slowly: {} vs {}",
        da,
        db
    );
}

#[test]
fn falling_target_ignores_attack_constant() {
    let mut a = Smoother::new(5_000_000, 100_000, 800_000);
    let mut b = Smoother::new(5_000_000, 2_000_000, 800_000);
    for _ in 0..8 {
        let va = a.step_dt(-5_000_000, 25_000);
        let vb = b.step_dt(-5_000_000, 25_000);
        assert_eq!(va, vb, "release must not depend on the attack constant");
    }
}

#[test]
fn non_positive_elapsed_time_is_a_no_op() {
    let mut s = Smoother::new(1_234_567, 100_000, 1_000_000);
    assert_eq!(s.step_dt(9_000_000, 0), 1_234_567);
    assert_eq!(s.step_dt(9_000_000, -50_000), 1_234_567);
    // a clock that did not advance changes nothing either
    let mut c = Smoother::new(1_234_567, 100_000, 1_000_000);
    c.step(9_000_000, 40_000);
    let held = c.value_db;
    assert_eq!(c.step(9_000_000, 40_000), held);
}
