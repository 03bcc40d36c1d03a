//! Three-component vectors of fixed-point scalars.
//!
//! Each operation has a spec-level twin (`add3_s`, `dot3_s`, ...) built
//! from the exact scalar semantics in [`crate::fixed`]; the executable
//! functions are proved to return precisely those values.

use crate::fixed::{
    fx_div, fx_mul, fx_sqrt, fxdiv, fxmul, i64_fits, is_sqrt, lemma_sqrt_exists, lemma_tdiv_bound,
    mag, sqrt_floor, tdiv, CMAX, SCALE,
};
use vstd::prelude::*;

verus! {

#[derive(Clone, Copy, Debug, PartialEq, Eq, Structural)]
pub struct Vec3 {
    pub x: i64,
    pub y: i64,
    pub z: i64,
}

/// A vector from three spec-level scalars (callers keep them in `i64`
/// range, making the casts exact).
pub open spec fn v3(x: int, y: int, z: int) -> Vec3 {
    Vec3 { x: x as i64, y: y as i64, z: z as i64 }
}

pub open spec fn add3_s(u: Vec3, v: Vec3) -> Vec3 {
    v3(u.x + v.x, u.y + v.y, u.z + v.z)
}

pub open spec fn sub3_s(u: Vec3, v: Vec3) -> Vec3 {
    v3(u.x - v.x, u.y - v.y, u.z - v.z)
}

pub open spec fn neg3_s(u: Vec3) -> Vec3 {
    v3(-u.x, -u.y, -u.z)
}

/// Scaling by a fixed-point factor.
pub open spec fn scale3_s(k: int, u: Vec3) -> Vec3 {
    v3(fxmul(k, u.x as int), fxmul(k, u.y as int), fxmul(k, u.z as int))
}

/// Element-wise fixed-point product.
pub open spec fn mul3_s(u: Vec3, v: Vec3) -> Vec3 {
    v3(
        fxmul(u.x as int, v.x as int),
        fxmul(u.y as int, v.y as int),
        fxmul(u.z as int, v.z as int),
    )
}

/// Fixed-point dot product.
pub open spec fn dot3_s(u: Vec3, v: Vec3) -> int {
    fxmul(u.x as int, v.x as int) + fxmul(u.y as int, v.y as int) + fxmul(u.z as int, v.z as int)
}

/// Squared magnitude, a fixed-point scalar.
pub open spec fn sq_len_s(u: Vec3) -> int {
    dot3_s(u, u)
}

/// Magnitude, the fixed-point square root of the squared magnitude.
pub open spec fn len_s(u: Vec3) -> int {
    sqrt_floor(sq_len_s(u) * (SCALE as int))
}

pub open spec fn cross3_s(u: Vec3, v: Vec3) -> Vec3 {
    v3(
        fxmul(u.y as int, v.z as int) - fxmul(u.z as int, v.y as int),
        fxmul(u.z as int, v.x as int) - fxmul(u.x as int, v.z as int),
        fxmul(u.x as int, v.y as int) - fxmul(u.y as int, v.x as int),
    )
}

/// The unit-length vector with `u`'s direction (defined for
/// `sq_len_s(u) >= 1`).
pub open spec fn unit3_s(u: Vec3) -> Vec3 {
    v3(
        fxdiv(u.x as int, len_s(u)),
        fxdiv(u.y as int, len_s(u)),
        fxdiv(u.z as int, len_s(u)),
    )
}

/// Every component's magnitude is at most `m`.
pub open spec fn in_range(u: Vec3, m: int) -> bool {
    mag(u.x as int) <= m && mag(u.y as int) <= m && mag(u.z as int) <= m
}

impl Vec3 {
    pub fn new(x: i64, y: i64, z: i64) -> (r: Vec3)
        ensures
            r == (Vec3 { x, y, z }),
    {
        Vec3 { x, y, z }
    }
}

pub fn add3(u: &Vec3, v: &Vec3) -> (r: Vec3)
    requires
        i64_fits(u.x + v.x),
        i64_fits(u.y + v.y),
        i64_fits(u.z + v.z),
    ensures
        r == add3_s(*u, *v),
{
    Vec3 { x: u.x + v.x, y: u.y + v.y, z: u.z + v.z }
}

pub fn sub3(u: &Vec3, v: &Vec3) -> (r: Vec3)
    requires
        i64_fits(u.x - v.x),
        i64_fits(u.y - v.y),
        i64_fits(u.z - v.z),
    ensures
        r == sub3_s(*u, *v),
{
    Vec3 { x: u.x - v.x, y: u.y - v.y, z: u.z - v.z }
}

pub fn neg3(u: &Vec3) -> (r: Vec3)
    requires
        in_range(*u, i64::MAX as int),
    ensures
        r == neg3_s(*u),
{
    Vec3 { x: -u.x, y: -u.y, z: -u.z }
}

pub fn scale3(k: i64, u: &Vec3) -> (r: Vec3)
    requires
        i64_fits(fxmul(k as int, u.x as int)),
        i64_fits(fxmul(k as int, u.y as int)),
        i64_fits(fxmul(k as int, u.z as int)),
    ensures
        r == scale3_s(k as int, *u),
{
    Vec3 { x: fx_mul(k, u.x), y: fx_mul(k, u.y), z: fx_mul(k, u.z) }
}

pub fn mul3(u: &Vec3, v: &Vec3) -> (r: Vec3)
    requires
        i64_fits(fxmul(u.x as int, v.x as int)),
        i64_fits(fxmul(u.y as int, v.y as int)),
        i64_fits(fxmul(u.z as int, v.z as int)),
    ensures
        r == mul3_s(*u, *v),
{
    Vec3 { x: fx_mul(u.x, v.x), y: fx_mul(u.y, v.y), z: fx_mul(u.z, v.z) }
}

pub fn dot3(u: &Vec3, v: &Vec3) -> (r: i64)
    requires
        i64_fits(fxmul(u.x as int, v.x as int)),
        i64_fits(fxmul(u.y as int, v.y as int)),
        i64_fits(fxmul(u.z as int, v.z as int)),
        i64_fits(fxmul(u.x as int, v.x as int) + fxmul(u.y as int, v.y as int)),
        i64_fits(dot3_s(*u, *v)),
    ensures
        r == dot3_s(*u, *v),
{
    fx_mul(u.x, v.x) + fx_mul(u.y, v.y) + fx_mul(u.z, v.z)
}

pub fn cross3(u: &Vec3, v: &Vec3) -> (r: Vec3)
    requires
        i64_fits(fxmul(u.y as int, v.z as int)),
        i64_fits(fxmul(u.z as int, v.y as int)),
        i64_fits(fxmul(u.z as int, v.x as int)),
        i64_fits(fxmul(u.x as int, v.z as int)),
        i64_fits(fxmul(u.x as int, v.y as int)),
        i64_fits(fxmul(u.y as int, v.x as int)),
        i64_fits(fxmul(u.y as int, v.z as int) - fxmul(u.z as int, v.y as int)),
        i64_fits(fxmul(u.z as int, v.x as int) - fxmul(u.x as int, v.z as int)),
        i64_fits(fxmul(u.x as int, v.y as int) - fxmul(u.y as int, v.x as int)),
    ensures
        r == cross3_s(*u, *v),
{
    Vec3 {
        x: fx_mul(u.y, v.z) - fx_mul(u.z, v.y),
        y: fx_mul(u.z, v.x) - fx_mul(u.x, v.z),
        z: fx_mul(u.x, v.y) - fx_mul(u.y, v.x),
    }
}

/// Decide `in_range` executably.
pub fn check_in_range(v: &Vec3, m: i64) -> (b: bool)
    requires
        0 <= m,
    ensures
        b == in_range(*v, m as int),
{
    -m <= v.x && v.x <= m && -m <= v.y && v.y <= m && -m <= v.z && v.z <= m
}

/// A component-wise bound keeps every term of a dot product in range.
pub proof fn lemma_dot3_fits(u: Vec3, v: Vec3, p: int, q: int)
    requires
        0 <= p,
        0 <= q,
        in_range(u, p),
        in_range(v, q),
        3 * ((p * q) / (SCALE as int)) <= i64::MAX,
    ensures
        i64_fits(fxmul(u.x as int, v.x as int)),
        i64_fits(fxmul(u.y as int, v.y as int)),
        i64_fits(fxmul(u.z as int, v.z as int)),
        i64_fits(fxmul(u.x as int, v.x as int) + fxmul(u.y as int, v.y as int)),
        i64_fits(dot3_s(u, v)),
        mag(dot3_s(u, v)) <= 3 * ((p * q) / (SCALE as int)),
{
    crate::fixed::lemma_fxmul_bound(u.x as int, v.x as int, p, q);
    crate::fixed::lemma_fxmul_bound(u.y as int, v.y as int, p, q);
    crate::fixed::lemma_fxmul_bound(u.z as int, v.z as int, p, q);
}

/// The squared magnitude is never negative.
pub proof fn lemma_sq_len_nonneg(u: Vec3)
    ensures
        sq_len_s(u) >= 0,
        fxmul(u.x as int, u.x as int) >= 0,
        fxmul(u.y as int, u.y as int) >= 0,
        fxmul(u.z as int, u.z as int) >= 0,
{
    lemma_fxmul_sq_nonneg(u.x as int);
    lemma_fxmul_sq_nonneg(u.y as int);
    lemma_fxmul_sq_nonneg(u.z as int);
}

proof fn lemma_fxmul_sq_nonneg(a: int)
    ensures
        fxmul(a, a) >= 0,
{
    assert(a * a >= 0) by (nonlinear_arith);
    vstd::arithmetic::div_mod::lemma_div_pos_is_pos(a * a, SCALE as int);
}

/// A vector of squared magnitude at least one has magnitude at least
/// 256 (the fixed-point root of `SCALE`).
pub proof fn lemma_len_min(u: Vec3)
    requires
        sq_len_s(u) >= 1,
    ensures
        len_s(u) >= 256,
{
    lemma_sqrt_exists(sq_len_s(u) * (SCALE as int));
    let r = len_s(u);
    assert(r >= 256) by (nonlinear_arith)
        requires
            0 <= r && (r + 1) * (r + 1) > 65536,
    ;
}

/// Squared magnitude of a coordinate-range vector.
pub proof fn lemma_sq_len_range(u: Vec3)
    requires
        in_range(u, CMAX as int),
    ensures
        0 <= sq_len_s(u) <= 0xc0000000000,
        i64_fits(fxmul(u.x as int, u.x as int)),
        i64_fits(fxmul(u.y as int, u.y as int)),
        i64_fits(fxmul(u.z as int, u.z as int)),
        i64_fits(fxmul(u.x as int, u.x as int) + fxmul(u.y as int, u.y as int)),
        i64_fits(sq_len_s(u)),
{
    lemma_dot3_fits(u, u, CMAX as int, CMAX as int);
    lemma_sq_len_nonneg(u);
}

/// Squared magnitude of a coordinate-range vector, executably.
pub fn sq_len(u: &Vec3) -> (r: i64)
    requires
        in_range(*u, CMAX as int),
    ensures
        r == sq_len_s(*u),
        0 <= r <= 0xc0000000000,
{
    proof {
        lemma_sq_len_range(*u);
    }
    dot3(u, u)
}

/// Fixed-point magnitude of a coordinate-range vector.
pub fn length(u: &Vec3) -> (r: i64)
    requires
        in_range(*u, CMAX as int),
    ensures
        r == len_s(*u),
        r >= 0,
{
    proof {
        lemma_sq_len_range(*u);
    }
    let s: i64 = sq_len(u);
    fx_sqrt(s)
}

/// The unit vector of a coordinate-range vector with nonzero squared
/// magnitude; every component stays below 2^37.
pub fn unit3(u: &Vec3) -> (r: Vec3)
    requires
        in_range(*u, CMAX as int),
        sq_len_s(*u) >= 1,
    ensures
        r == unit3_s(*u),
        in_range(r, 0x2000000000),
{
    proof {
        lemma_unit3_range(*u);
        lemma_sq_len_range(*u);
        lemma_len_min(*u);
    }
    let l: i64 = length(u);
    Vec3 { x: fx_div(u.x, l), y: fx_div(u.y, l), z: fx_div(u.z, l) }
}

/// Unit vectors of coordinate-range inputs have components below 2^37.
pub proof fn lemma_unit3_range(u: Vec3)
    requires
        in_range(u, CMAX as int),
        sq_len_s(u) >= 1,
    ensures
        in_range(unit3_s(u), 0x2000000000),
        len_s(u) >= 256,
        i64_fits(fxdiv(u.x as int, len_s(u))),
        i64_fits(fxdiv(u.y as int, len_s(u))),
        i64_fits(fxdiv(u.z as int, len_s(u))),
{
    lemma_sq_len_range(u);
    lemma_len_min(u);
    let l = len_s(u);
    assert(-((0x2000000000 + 1) * l) < u.x as int * (SCALE as int) < (0x2000000000 + 1) * l) by (
    nonlinear_arith)
        requires
            -(CMAX as int) <= u.x as int <= (CMAX as int) && l >= 256,
    ;
    assert(-((0x2000000000 + 1) * l) < u.y as int * (SCALE as int) < (0x2000000000 + 1) * l) by (
    nonlinear_arith)
        requires
            -(CMAX as int) <= u.y as int <= (CMAX as int) && l >= 256,
    ;
    assert(-((0x2000000000 + 1) * l) < u.z as int * (SCALE as int) < (0x2000000000 + 1) * l) by (
    nonlinear_arith)
        requires
            -(CMAX as int) <= u.z as int <= (CMAX as int) && l >= 256,
    ;
    lemma_tdiv_bound(u.x as int * (SCALE as int), l, 0x2000000000);
    lemma_tdiv_bound(u.y as int * (SCALE as int), l, 0x2000000000);
    lemma_tdiv_bound(u.z as int * (SCALE as int), l, 0x2000000000);
}

} // verus!
