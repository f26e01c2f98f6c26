use cursor_trail::num::axis_step;
use cursor_trail::num::corner_dot;
use cursor_trail::num::isqrt;
use cursor_trail::num::pow2_neg;
use cursor_trail::num::step_of;
use cursor_trail::num::FP_ONE;

#[test]
fn isqrt_exact_values() {
    assert_eq!(isqrt(0), 0);
    assert_eq!(isqrt(1), 1);
    assert_eq!(isqrt(3), 1);
    assert_eq!(isqrt(4), 2);
    assert_eq!(isqrt(999_999), 999);
    assert_eq!(isqrt(1_000_000_000_000), 1_000_000);
}

#[test]
fn pow2_neg_exact_values() {
    assert_eq!(pow2_neg(0), 1_000_000);
    assert_eq!(pow2_neg(500_000), 750_000);
    assert_eq!(pow2_neg(1_000_000), 500_000);
    assert_eq!(pow2_neg(2_000_000), 250_000);
    assert_eq!(pow2_neg(20_000_000), 0);
}

#[test]
fn step_covers_most_distance_in_one_decay_constant() {
    // with dt equal to the decay constant the step factor is about 99.9%
    assert_eq!(step_of(100, 100), 999_024);
}

#[test]
fn step_edge_cases() {
    assert_eq!(step_of(0, 100), 0);
    assert_eq!(step_of(100, 0), FP_ONE);
    assert_eq!(step_of(100, 400), 812_500);
    // any positive time delta gives at least the minimal nudge
    assert_eq!(step_of(1, u64::MAX), 1);
}

#[test]
fn step_antitone_in_decay() {
    let mut prev = u64::MAX;
    for decay in [1u64, 10, 100, 1_000, 10_000, 100_000] {
        let s = step_of(16, decay);
        assert!(s <= prev);
        prev = s;
    }
}

#[test]
fn corner_dot_exact_values() {
    assert_eq!(corner_dot(0, 0, 1, 1), 0);
    // displacement (3, 4) has length 5; both components point with the signs
    assert_eq!(corner_dot(3, 4, 1, 1), 1_400_000);
    assert_eq!(corner_dot(-3, 4, 1, -1), -1_400_000);
    // a pure-x displacement aligned with the sign scores exactly one
    assert_eq!(corner_dot(5_000_000, 0, 1, 1), 1_000_000);
    assert_eq!(corner_dot(5_000_000, 0, -1, 1), -1_000_000);
}

#[test]
fn axis_step_moves_toward_target_and_never_past() {
    // full step lands exactly on the target
    assert_eq!(axis_step(0, 5, 1_000_000), 5);
    // a tiny step still nudges by one unit
    assert_eq!(axis_step(0, 5, 1), 1);
    // half step, both directions
    assert_eq!(axis_step(0, 1_000_000, 500_000), 500_000);
    assert_eq!(axis_step(1_000_000, 0, 500_000), 500_000);
    // no time, no movement
    assert_eq!(axis_step(7, 100, 0), 7);
}
