//! Exact-value tests of the fixed-point scalar operations.

use raytrace::fixed::{
    fp_add, fp_div, fp_from_int, fp_mul, fp_neg, fp_sqrt, fp_sub, fp_to_int, SCALE,
};

#[test]
fn fp_mul_exact_unit() {
    assert_eq!(fp_mul(SCALE, SCALE), SCALE);
    assert_eq!(fp_mul(3 * SCALE, 4 * SCALE), 12 * SCALE);
    assert_eq!(fp_mul(-3 * SCALE, 4 * SCALE), -12 * SCALE);
}

#[test]
fn fp_mul_rounds_toward_zero() {
    // one half squared is a quarter, exactly
    assert_eq!(fp_mul(32768, 32768), 16384);
    // tiny magnitudes truncate toward zero from both sides
    assert_eq!(fp_mul(3, 1), 0);
    assert_eq!(fp_mul(-3, 1), 0);
}

#[test]
fn fp_add_saturates() {
    assert_eq!(fp_add(i64::MAX, 1), i64::MAX);
    assert_eq!(fp_add(i64::MIN, -1), i64::MIN);
    assert_eq!(fp_sub(i64::MIN, 1), i64::MIN);
    assert_eq!(fp_neg(i64::MIN), i64::MAX);
}

#[test]
fn fp_div_exact() {
    assert_eq!(fp_div(SCALE, 2 * SCALE), 32768);
    assert_eq!(fp_div(-SCALE, 2 * SCALE), -32768);
    assert_eq!(fp_div(3 * SCALE, SCALE), 3 * SCALE);
}

#[test]
fn fp_sqrt_exact_squares() {
    assert_eq!(fp_sqrt(SCALE), SCALE);
    assert_eq!(fp_sqrt(4 * SCALE), 2 * SCALE);
    assert_eq!(fp_sqrt(25 * SCALE), 5 * SCALE);
    assert_eq!(fp_sqrt(0), 0);
}

#[test]
fn fp_int_conversions_truncate() {
    assert_eq!(fp_from_int(7), 7 * SCALE);
    assert_eq!(fp_to_int(7 * SCALE), 7);
    // -1.5 truncates toward zero
    assert_eq!(fp_to_int(-98304), -1);
    assert_eq!(fp_to_int(98304), 1);
}
