//! Exact-value checks of the fixed-point scalar layer.

use raytracer_in_a_weekend::fixed::{fx_div, fx_mul, fx_sqrt, isqrt_u128, tdiv_i128};
use raytracer_in_a_weekend::{HALF, ONE};

#[test]
fn multiply_exact() {
    assert_eq!(fx_mul(3 * ONE, HALF), 3 * HALF);
    assert_eq!(fx_mul(ONE, ONE), ONE);
    assert_eq!(fx_mul(0, ONE), 0);
    assert_eq!(fx_mul(ONE, 12345), 12345);
}

#[test]
fn multiply_truncates_toward_zero() {
    // 1/3 * 1 truncates the same magnitude on both signs.
    assert_eq!(fx_mul(-3 * ONE, HALF), -(3 * HALF));
    assert_eq!(fx_mul(21845, 3), 0);
    assert_eq!(fx_mul(-21845, 3), 0);
}

#[test]
fn divide_exact_and_truncating() {
    assert_eq!(fx_div(ONE, 3 * ONE), 21845);
    // Truncation toward zero, not flooring: -1/3 gives -21845.
    assert_eq!(fx_div(-ONE, 3 * ONE), -21845);
    assert_eq!(fx_div(3 * ONE, HALF), 6 * ONE);
}

#[test]
fn machine_division_truncates() {
    assert_eq!(tdiv_i128(7, 2), 3);
    assert_eq!(tdiv_i128(-7, 2), -3);
    assert_eq!(tdiv_i128(7, -2), -3);
    assert_eq!(tdiv_i128(-7, -2), 3);
}

#[test]
fn integer_square_roots() {
    assert_eq!(isqrt_u128(0), 0);
    assert_eq!(isqrt_u128(1), 1);
    assert_eq!(isqrt_u128(3), 1);
    assert_eq!(isqrt_u128(4), 2);
    assert_eq!(isqrt_u128(1 << 78), 1 << 39);
}

#[test]
fn fixed_square_roots() {
    assert_eq!(fx_sqrt(4 * ONE), 2 * ONE);
    assert_eq!(fx_sqrt(ONE), ONE);
    assert_eq!(fx_sqrt(0), 0);
    // sqrt(2) in fixed point, truncated.
    assert_eq!(fx_sqrt(2 * ONE), 92681);
}
