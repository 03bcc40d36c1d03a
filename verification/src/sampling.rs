//! Randomness for the sampler: fixed-point draws and rejection sampling
//! inside the unit sphere, on top of the `rand` crate.

use crate::fixed::ONE;
use crate::material::{scatter_rand_wf, ScatterRand};
use crate::vec3::{in_range, sq_len, sq_len_s, Vec3};
use vstd::prelude::*;

verus! {

/// Relies on rand::random: a draw from the thread-local generator.
/// Nothing can be promised of the value.
pub assume_specification<T>[ rand::random::<T> ]() -> (r: T)
    where
        rand::distributions::Standard: rand::distributions::Distribution<T>,
;

/// A fixed-point scalar drawn uniformly from `[0, 1)`.
pub fn rand_fx() -> (r: i64)
    ensures
        0 <= r < ONE,
{
    let raw: u64 = rand::random::<u64>();
    (raw % 65536) as i64
}

/// A point drawn from the unit ball by rejection sampling, as
/// `2 * (x, y, z) - (1, 1, 1)` over uniform draws; after 64 misses (the
/// chance of which is astronomically small) the center is taken.
pub fn rand_in_unit_sphere() -> (p: Vec3)
    ensures
        in_range(p, ONE as int),
        sq_len_s(p) < ONE as int,
{
    let mut tries: usize = 0;
    while tries < 64
        invariant
            true,
        decreases 64 - tries,
    {
        let x: i64 = 2 * rand_fx() - ONE;
        let y: i64 = 2 * rand_fx() - ONE;
        let z: i64 = 2 * rand_fx() - ONE;
        let p: Vec3 = Vec3 { x, y, z };
        if sq_len(&p) < ONE {
            return p;
        }
        tries = tries + 1;
    }
    proof {
        crate::fixed::lemma_tdiv_zero(crate::fixed::SCALE as int);
    }
    Vec3 { x: 0, y: 0, z: 0 }
}

/// Draw one bounce's worth of randomness.
pub fn draw_scatter_rand() -> (sr: ScatterRand)
    ensures
        scatter_rand_wf(sr),
{
    ScatterRand { unit_ball: rand_in_unit_sphere(), coin: rand_fx() }
}

/// Draw a sequence of `n` bounce samples.
pub fn draw_bounces(n: usize) -> (v: Vec<ScatterRand>)
    ensures
        v@.len() == n,
        forall|i: int| 0 <= i < v@.len() ==> scatter_rand_wf(#[trigger] v@[i]),
{
    let mut v: Vec<ScatterRand> = Vec::new();
    let mut k: usize = 0;
    while k < n
        invariant
            0 <= k <= n,
            v@.len() == k,
            forall|i: int| 0 <= i < v@.len() ==> scatter_rand_wf(#[trigger] v@[i]),
        decreases n - k,
    {
        v.push(draw_scatter_rand());
        k = k + 1;
    }
    v
}

} // verus!
