//! Fixed-point scalar arithmetic.
//!
//! A scalar is an `i64` holding a real value multiplied by [`SCALE`]:
//! `65536` stands for `1.0`, `32768` for `0.5`.  Multiplication and
//! division truncate toward zero, exactly as Rust's `/` does on machine
//! integers; [`tdiv`] is the specification of that rounding, and every
//! executable operation here is proved to return precisely the value its
//! spec function names.

use vstd::arithmetic::div_mod::{
    lemma_div_is_ordered, lemma_div_multiples_vanish, lemma_div_nonincreasing, lemma_div_of0,
    lemma_div_pos_is_pos,
};
use vstd::prelude::*;

verus! {

/// A fixed-point scalar holds its real value times this factor.
pub const SCALE: i64 = 65536;

/// The real value one in fixed-point form.
pub const ONE: i64 = 65536;

/// The real value one half in fixed-point form.
pub const HALF: i64 = 32768;

/// Magnitude bound on scene coordinates, ray components and ray
/// parameters (2^29, about 8192 real units).  Keeping inputs inside this
/// range lets every intermediate of the intersection math fit in `i128`.
pub const CMAX: i64 = 536870912;

/// Magnitude of an integer.
pub open spec fn mag(a: int) -> int {
    if a >= 0 {
        a
    } else {
        -a
    }
}

/// Division truncating toward zero, the rounding of Rust's `/` on
/// machine integers.  (Spec-level `/` on `int` is Euclidean instead.)
pub open spec fn tdiv(a: int, b: int) -> int {
    if (a >= 0) == (b >= 0) {
        mag(a) / mag(b)
    } else {
        -(mag(a) / mag(b))
    }
}

/// Product of two fixed-point scalars.
pub open spec fn fxmul(a: int, b: int) -> int {
    tdiv(a * b, SCALE as int)
}

/// Quotient of two fixed-point scalars.
pub open spec fn fxdiv(a: int, b: int) -> int {
    tdiv(a * (SCALE as int), b)
}

pub open spec fn i64_fits(x: int) -> bool {
    i64::MIN <= x <= i64::MAX
}

/// `r` is the floor of the square root of `n`.
pub open spec fn is_sqrt(n: int, r: int) -> bool {
    0 <= r && r * r <= n && n < (r + 1) * (r + 1)
}

/// The floor of the square root of `n` (for `n >= 0`; see
/// `lemma_sqrt_exists`).
pub open spec fn sqrt_floor(n: int) -> int {
    choose|r: int| is_sqrt(n, r)
}

pub proof fn lemma_tdiv_zero(b: int)
    requires
        b != 0,
    ensures
        tdiv(0, b) == 0,
{
    lemma_div_of0(mag(b));
}

/// Truncating division is antisymmetric in its numerator.
pub proof fn lemma_tdiv_neg(a: int, b: int)
    requires
        b != 0,
    ensures
        tdiv(-a, b) == -tdiv(a, b),
{
}

/// The quotient's magnitude is below `m + 1` when the numerator's
/// magnitude is below `(m + 1) * b`.
pub proof fn lemma_tdiv_bound(a: int, b: int, m: int)
    requires
        b >= 1,
        0 <= m,
        mag(a) < (m + 1) * b,
    ensures
        -m <= tdiv(a, b) <= m,
{
    let q = mag(a) / b;
    lemma_div_pos_is_pos(mag(a), b);
    lemma_div_is_ordered(mag(a), (m + 1) * b - 1, b);
    assert(((m + 1) * b - 1) / b == m) by {
        assert((m + 1) * b - 1 == b * m + (b - 1)) by (nonlinear_arith);
        vstd::arithmetic::div_mod::lemma_fundamental_div_mod_converse(
            (m + 1) * b - 1,
            b,
            m,
            b - 1,
        );
    }
}

/// Division by a positive divisor is exact on multiples of it.
pub proof fn lemma_tdiv_exact(k: int, d: int)
    requires
        d >= 1,
    ensures
        tdiv(k * d, d) == k,
{
    if k >= 0 {
        assert(k * d >= 0 && k * d == d * k) by (nonlinear_arith)
            requires
                k >= 0 && d >= 1,
        ;
        lemma_div_multiples_vanish(k, d);
    } else {
        assert(k * d < 0 && -(k * d) == d * (-k)) by (nonlinear_arith)
            requires
                k < 0 && d >= 1,
        ;
        lemma_div_multiples_vanish(-k, d);
    }
}

/// Truncating division is monotone in the numerator.
pub proof fn lemma_tdiv_mono(a1: int, a2: int, b: int)
    requires
        b >= 1,
        a1 <= a2,
    ensures
        tdiv(a1, b) <= tdiv(a2, b),
{
    if a1 >= 0 {
        lemma_div_is_ordered(a1, a2, b);
    } else if a2 < 0 {
        lemma_div_is_ordered(-a2, -a1, b);
    } else {
        lemma_div_pos_is_pos(-a1, b);
        lemma_div_pos_is_pos(a2, b);
    }
}

/// The product of two fixed-point scalars is bounded by the scaled
/// product of their bounds.
pub proof fn lemma_fxmul_bound(a: int, b: int, p: int, q: int)
    requires
        0 <= p,
        0 <= q,
        mag(a) <= p,
        mag(b) <= q,
    ensures
        mag(fxmul(a, b)) <= (p * q) / (SCALE as int),
{
    let m = (p * q) / (SCALE as int);
    lemma_div_pos_is_pos(p * q, SCALE as int);
    assert(mag(a * b) <= p * q) by (nonlinear_arith)
        requires
            mag(a) <= p && mag(b) <= q && 0 <= p && 0 <= q,
    ;
    assert(p * q < (m + 1) * (SCALE as int)) by {
        vstd::arithmetic::div_mod::lemma_fundamental_div_mod(p * q, SCALE as int);
        assert((m + 1) * (SCALE as int) == (SCALE as int) * m + SCALE) by (nonlinear_arith);
    }
    lemma_tdiv_bound(a * b, SCALE as int, m);
}

/// Products of fixed-point scalars in `[0, 1]` stay in `[0, 1]`.
pub proof fn lemma_fxmul_unit(a: int, b: int)
    requires
        0 <= a <= SCALE as int,
        0 <= b <= SCALE as int,
    ensures
        0 <= fxmul(a, b) <= SCALE as int,
{
    assert(0 <= a * b <= (SCALE as int) * (SCALE as int)) by (nonlinear_arith)
        requires
            0 <= a <= SCALE as int && 0 <= b <= SCALE as int,
    ;
    lemma_div_pos_is_pos(a * b, SCALE as int);
    lemma_tdiv_bound(a * b, SCALE as int, SCALE as int);
}

/// A product with a factor in `[0, 1]` can only shrink the other
/// factor.
pub proof fn lemma_fxmul_le(t: int, c: int)
    requires
        0 <= t,
        0 <= c <= SCALE as int,
    ensures
        0 <= fxmul(t, c) <= t,
{
    assert(0 <= t * c <= t * (SCALE as int)) by (nonlinear_arith)
        requires
            0 <= t && 0 <= c <= SCALE as int,
    ;
    lemma_div_pos_is_pos(t * c, SCALE as int);
    lemma_tdiv_mono(t * c, t * (SCALE as int), SCALE as int);
    lemma_tdiv_exact(t, SCALE as int);
}

/// Floors of square roots are unique.
pub proof fn lemma_sqrt_unique(n: int, r1: int, r2: int)
    requires
        is_sqrt(n, r1),
        is_sqrt(n, r2),
    ensures
        r1 == r2,
{
    assert(r1 == r2) by (nonlinear_arith)
        requires
            0 <= r1 && r1 * r1 <= n && n < (r1 + 1) * (r1 + 1) && 0 <= r2 && r2 * r2 <= n && n < (
            r2 + 1) * (r2 + 1),
    ;
}

/// Once a witness is known, `sqrt_floor` equals it.
pub proof fn lemma_sqrt_floor_is_sqrt(n: int, r: int)
    requires
        is_sqrt(n, r),
    ensures
        sqrt_floor(n) == r,
{
    let w = choose|k: int| is_sqrt(n, k);
    lemma_sqrt_unique(n, w, r);
}

/// Every nonnegative integer has a square-root floor.
pub proof fn lemma_sqrt_exists(n: int)
    requires
        n >= 0,
    ensures
        is_sqrt(n, sqrt_floor(n)),
    decreases n,
{
    if n == 0 {
        assert(is_sqrt(0, 0));
    } else {
        lemma_sqrt_exists(n - 1);
        let r = sqrt_floor(n - 1);
        if n < (r + 1) * (r + 1) {
            assert(is_sqrt(n, r));
        } else {
            assert(is_sqrt(n, r + 1)) by (nonlinear_arith)
                requires
                    0 <= r && r * r <= n - 1 && n - 1 < (r + 1) * (r + 1) && n >= (r + 1) * (r + 1),
            ;
        }
        lemma_sqrt_floor_is_sqrt(n, choose|k: int| is_sqrt(n, k));
    }
}

/// A square bound on `n` bounds its root.
pub proof fn lemma_sqrt_le(n: int, m: int)
    requires
        0 <= n,
        0 <= m,
        n <= m * m,
    ensures
        sqrt_floor(n) <= m,
{
    lemma_sqrt_exists(n);
    let r = sqrt_floor(n);
    assert(r <= m) by (nonlinear_arith)
        requires
            0 <= r && r * r <= n && 0 <= m && n <= m * m,
    ;
}

/// `i128` division truncating toward zero, computed on unsigned
/// magnitudes since that is the rounding `tdiv` names.
pub fn tdiv_i128(a: i128, b: i128) -> (q: i128)
    requires
        b != 0,
        a != i128::MIN,
        b != i128::MIN,
    ensures
        q == tdiv(a as int, b as int),
{
    let ua: u128 = if a >= 0 {
        a as u128
    } else {
        (-a) as u128
    };
    let ub: u128 = if b >= 0 {
        b as u128
    } else {
        (-b) as u128
    };
    let d: u128 = ua / ub;
    proof {
        lemma_div_nonincreasing(ua as int, ub as int);
        lemma_div_pos_is_pos(ua as int, ub as int);
    }
    if (a >= 0) == (b >= 0) {
        d as i128
    } else {
        -(d as i128)
    }
}

/// Exact product of two `i64` values, widened to `i128`.
pub fn mul_i64(a: i64, b: i64) -> (r: i128)
    ensures
        r == (a as int) * (b as int),
{
    proof {
        assert(-0x40000000000000000000000000000000 <= (a as int) * (b as int)
            <= 0x40000000000000000000000000000000) by (nonlinear_arith)
            requires
                i64::MIN <= a <= i64::MAX && i64::MIN <= b <= i64::MAX,
        ;
    }
    (a as i128) * (b as i128)
}

/// Fixed-point product, exact to `fxmul`.
pub fn fx_mul(a: i64, b: i64) -> (r: i64)
    requires
        i64_fits(fxmul(a as int, b as int)),
    ensures
        r == fxmul(a as int, b as int),
{
    proof {
        assert(-0x40000000000000000000000000000000 <= (a as int) * (b as int)
            <= 0x40000000000000000000000000000000) by (nonlinear_arith)
            requires
                i64::MIN <= a <= i64::MAX && i64::MIN <= b <= i64::MAX,
        ;
    }
    let p: i128 = (a as i128) * (b as i128);
    let q: i128 = tdiv_i128(p, 65536);
    q as i64
}

/// Fixed-point quotient, exact to `fxdiv`.
pub fn fx_div(a: i64, b: i64) -> (r: i64)
    requires
        b != 0,
        i64_fits(fxdiv(a as int, b as int)),
    ensures
        r == fxdiv(a as int, b as int),
{
    let p: i128 = (a as i128) * 65536;
    let q: i128 = tdiv_i128(p, b as i128);
    q as i64
}

/// Binary search for the integer square root.
pub fn isqrt_u128(n: u128) -> (r: u128)
    requires
        (n as int) < 0x40000000000000000000000000000000,
    ensures
        is_sqrt(n as int, r as int),
{
    let mut lo: u128 = 0;
    let mut hi: u128 = 0x8000000000000000;
    proof {
        assert((0x8000000000000000 as int) * (0x8000000000000000 as int)
            == 0x40000000000000000000000000000000) by (nonlinear_arith);
    }
    while lo + 1 < hi
        invariant
            lo < hi <= 0x8000000000000000,
            (lo as int) * (lo as int) <= n as int,
            (n as int) < (hi as int) * (hi as int),
        decreases hi - lo,
    {
        let mid: u128 = lo + (hi - lo) / 2;
        proof {
            lemma_div_pos_is_pos((hi - lo) as int, 2);
            assert((mid as int) * (mid as int) < 0x40000000000000000000000000000000) by (
            nonlinear_arith)
                requires
                    0 <= mid < 0x8000000000000000,
            ;
        }
        if mid * mid <= n {
            lo = mid;
        } else {
            hi = mid;
        }
    }
    lo
}

/// Floor square root of a fixed-point scalar: the root of `a * SCALE`
/// is the fixed-point form of the real square root of `a / SCALE`.
pub fn fx_sqrt(a: i64) -> (r: i64)
    requires
        0 <= a,
    ensures
        r == sqrt_floor(a as int * SCALE as int),
        is_sqrt(a as int * SCALE as int, r as int),
        0 <= r,
{
    let n: u128 = (a as u128) * 65536;
    let s: u128 = isqrt_u128(n);
    proof {
        lemma_sqrt_floor_is_sqrt(n as int, s as int);
        assert(s as int <= 0x10000000000) by (nonlinear_arith)
            requires
                0 <= s as int && (s as int) * (s as int) <= n as int && n as int
                    <= 0xffffffffffffffff * 65536,
        ;
    }
    s as i64
}

} // verus!
