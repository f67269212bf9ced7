//! Fixed-point scalar arithmetic and trigonometry.

use pathtracer::fixed::{fx_add, fx_div, fx_divi, fx_mul, fx_neg, fx_sqrt, fx_sub, FX_MAX, FX_ONE};
use pathtracer::trig::{fx_cos, fx_sin, FX_HALF_PI, FX_PI, FX_TWO_PI};

#[test]
fn add_sub_neg_exact() {
    assert_eq!(fx_add(3 * FX_ONE, 4 * FX_ONE), 7 * FX_ONE);
    assert_eq!(fx_sub(3 * FX_ONE, 4 * FX_ONE), -FX_ONE);
    assert_eq!(fx_neg(5 * FX_ONE), -5 * FX_ONE);
    assert_eq!(fx_neg(0), 0);
}

#[test]
fn add_saturates() {
    assert_eq!(fx_add(FX_MAX, FX_MAX), FX_MAX);
    assert_eq!(fx_sub(-FX_MAX, FX_MAX), -FX_MAX);
    assert_eq!(fx_neg(i64::MIN), FX_MAX);
}

#[test]
fn mul_exact_and_truncating() {
    assert_eq!(fx_mul(3 * FX_ONE, 2 * FX_ONE), 6 * FX_ONE);
    assert_eq!(fx_mul(-3 * FX_ONE, 2 * FX_ONE), -6 * FX_ONE);
    // Half times half is a quarter.
    assert_eq!(fx_mul(FX_ONE / 2, FX_ONE / 2), FX_ONE / 4);
    // The smallest positive values truncate to zero.
    assert_eq!(fx_mul(1, 1), 0);
    // Truncation is toward zero for negative products.
    assert_eq!(fx_mul(-1, 1), 0);
    assert_eq!(fx_mul(FX_MAX, FX_MAX), FX_MAX);
}

#[test]
fn div_exact_and_by_zero() {
    assert_eq!(fx_div(6 * FX_ONE, 2 * FX_ONE), 3 * FX_ONE);
    assert_eq!(fx_div(FX_ONE, 2 * FX_ONE), FX_ONE / 2);
    assert_eq!(fx_div(-FX_ONE, 2 * FX_ONE), -FX_ONE / 2);
    // Division by zero is defined as zero (total operation).
    assert_eq!(fx_div(5 * FX_ONE, 0), 0);
    assert_eq!(fx_divi(7 * FX_ONE, 7), FX_ONE);
    assert_eq!(fx_divi(7 * FX_ONE, 0), 0);
}

#[test]
fn sqrt_exact_squares() {
    assert_eq!(fx_sqrt(4 * FX_ONE), 2 * FX_ONE);
    assert_eq!(fx_sqrt(9 * FX_ONE), 3 * FX_ONE);
    assert_eq!(fx_sqrt(FX_ONE), FX_ONE);
    // A quarter's root is a half.
    assert_eq!(fx_sqrt(FX_ONE / 4), FX_ONE / 2);
    assert_eq!(fx_sqrt(0), 0);
    assert_eq!(fx_sqrt(-5 * FX_ONE), 0);
}

#[test]
fn sqrt_is_floor() {
    // sqrt(2) = 1.41421..., fixed point floor 92681.
    let r = fx_sqrt(2 * FX_ONE);
    assert_eq!(r, 92681);
}

#[test]
fn cos_and_sin_at_zero_are_exact() {
    assert_eq!(fx_cos(0), FX_ONE);
    assert_eq!(fx_sin(0), 0);
}

#[test]
fn trig_quadrant_values() {
    // cos(pi/2) ~ 0, sin(pi/2) ~ 1.
    assert!(fx_cos(FX_HALF_PI).abs() <= 64);
    assert!((fx_sin(FX_HALF_PI) - FX_ONE).abs() <= 64);
    // cos(pi) ~ -1, sin(pi) ~ 0.
    assert!((fx_cos(FX_PI) + FX_ONE).abs() <= 64);
    assert!(fx_sin(FX_PI).abs() <= 64);
    // cos(2 pi) ~ 1, sin(2 pi) ~ 0.
    assert!((fx_cos(FX_TWO_PI) - FX_ONE).abs() <= 64);
    assert!(fx_sin(FX_TWO_PI).abs() <= 64);
    // cos(pi/3) ~ 1/2.
    assert!((fx_cos(FX_PI / 3) - FX_ONE / 2).abs() <= 64);
}

#[test]
fn trig_stays_in_unit_range() {
    let mut a: i64 = 0;
    while a <= FX_TWO_PI {
        let c = fx_cos(a);
        let s = fx_sin(a);
        assert!(-FX_ONE <= c && c <= FX_ONE);
        assert!(-FX_ONE <= s && s <= FX_ONE);
        // The Pythagorean identity holds loosely.
        let sum = fx_mul(c, c) + fx_mul(s, s);
        assert!((sum - FX_ONE).abs() <= 256, "angle {a}: c^2+s^2 = {sum}");
        a += 1000;
    }
}
