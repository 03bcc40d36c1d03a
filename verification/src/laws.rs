//! Laws of the intersection and rendering model, proved over the spec
//! functions that the executable functions are held to.

use crate::camera::{camera_ray_s, Camera};
use crate::fixed::{
    fxmul, lemma_sqrt_floor_is_sqrt, lemma_sqrt_exists, lemma_tdiv_exact, lemma_tdiv_mono,
    lemma_tdiv_neg, lemma_tdiv_zero, mag, sqrt_floor, tdiv, CMAX, HALF, ONE, SCALE,
};
use crate::hit_table::{list_hit_from, list_hit_s, HitRecord};
use crate::material::{
    dielectric_scatter_s, lambertian_scatter_s, metal_scatter_s, reflect_s, scatter_rand_wf,
    Dielectric, Lambertian, Metal, ScatterRand,
};
use crate::pixel::Pixel;
use crate::ray::Ray;
use crate::render::{
    background_s, color_s, pixel_color_sum_s, pixel_u_s, ray_ok, render_pixel_s, to_byte_s,
    RaySample, MAX_DEPTH, T_MAX_FAR, T_MIN_EPS,
};
use crate::sphere::{
    hit_record_s, quad_a, quad_c, quad_disc, quad_hb, sphere_hit_s, sphere_hit_t, sphere_root1,
    sphere_root2, Sphere,
};
use crate::vec3::{add3_s, dot3_s, in_range, neg3_s, unit3_s, v3, Vec3};
use vstd::prelude::*;

verus! {

/// A direction's squared length is never negative.
pub proof fn lemma_quad_a_nonneg(r: Ray)
    ensures
        quad_a(r) >= 0,
{
    assert(r.direction.x as int * r.direction.x as int >= 0) by (nonlinear_arith);
    assert(r.direction.y as int * r.direction.y as int >= 0) by (nonlinear_arith);
    assert(r.direction.z as int * r.direction.z as int >= 0) by (nonlinear_arith);
}

/// With a positive discriminant the first root never exceeds the
/// second.
pub proof fn lemma_roots_ordered(s: Sphere, r: Ray)
    requires
        quad_a(r) >= 1,
        quad_disc(s, r) > 0,
    ensures
        sphere_root1(s, r) <= sphere_root2(s, r),
{
    lemma_sqrt_exists(quad_disc(s, r));
    let sd = sqrt_floor(quad_disc(s, r));
    let hb = quad_hb(s, r);
    lemma_tdiv_mono((-hb - sd) * (SCALE as int), (-hb + sd) * (SCALE as int), quad_a(r));
}

/// A sphere that reports nothing on an interval reports nothing on any
/// interval shrunk from above.
pub proof fn lemma_sphere_hit_shrink_none(s: Sphere, r: Ray, t_min: int, t_max: int, t_max2: int)
    requires
        sphere_hit_t(s, r, t_min, t_max) is None,
        t_max2 <= t_max,
    ensures
        sphere_hit_t(s, r, t_min, t_max2) is None,
{
}

/// A reported parameter still below the shrunk bound is reported
/// unchanged.
pub proof fn lemma_sphere_hit_shrink_some(
    s: Sphere,
    r: Ray,
    t_min: int,
    t_max: int,
    t_max2: int,
    t: int,
)
    requires
        sphere_hit_t(s, r, t_min, t_max) == Some(t),
        t < t_max2 <= t_max,
    ensures
        sphere_hit_t(s, r, t_min, t_max2) == Some(t),
{
}

/// Shrinking the interval to or below the reported parameter leaves
/// nothing to report.
pub proof fn lemma_sphere_hit_vanish(
    s: Sphere,
    r: Ray,
    t_min: int,
    t_max: int,
    t_max2: int,
    t: int,
)
    requires
        sphere_hit_t(s, r, t_min, t_max) == Some(t),
        t_max2 <= t,
        t_max2 <= t_max,
    ensures
        sphere_hit_t(s, r, t_min, t_max2) is None,
{
    lemma_quad_a_nonneg(r);
    lemma_roots_ordered(s, r);
}

/// Primitives that report nothing on the full interval never displace
/// the best record, whatever the scan's shrunken interval is.
proof fn lemma_from_all_none(
    list: Seq<Sphere>,
    i: int,
    r: Ray,
    t_min: int,
    t_max: int,
    closest: int,
    best: Option<HitRecord>,
)
    requires
        0 <= i <= list.len(),
        closest <= t_max,
        forall|j: int| i <= j < list.len() ==> sphere_hit_t(#[trigger] list[j], r, t_min, t_max) is None,
    ensures
        list_hit_from(list, i, r, t_min, closest, best) == best,
    decreases list.len() - i,
{
    if i < list.len() {
        lemma_sphere_hit_shrink_none(list[i], r, t_min, t_max, closest);
        lemma_from_all_none(list, i + 1, r, t_min, t_max, closest, best);
    }
}

/// When exactly one primitive reports a hit on the query interval, the
/// aggregate returns that primitive's record — wherever it stands in
/// the insertion order.
pub proof fn lemma_aggregate_single_hit(list: Seq<Sphere>, r: Ray, t_min: int, t_max: int, k: int)
    requires
        0 <= k < list.len(),
        mag(t_min) <= CMAX as int,
        mag(t_max) <= CMAX as int,
        sphere_hit_t(list[k], r, t_min, t_max) is Some,
        forall|j: int|
            0 <= j < list.len() && j != k ==> sphere_hit_t(#[trigger] list[j], r, t_min, t_max) is None,
    ensures
        list_hit_s(list, r, t_min, t_max) == sphere_hit_s(list[k], r, t_min, t_max),
{
    lemma_from_prefix(list, 0, r, t_min, t_max, k);
}

/// Helper induction for `lemma_aggregate_single_hit`: walking the
/// prefix of misses leaves the state untouched until index `k`.
proof fn lemma_from_prefix(list: Seq<Sphere>, i: int, r: Ray, t_min: int, t_max: int, k: int)
    requires
        0 <= i <= k < list.len(),
        mag(t_min) <= CMAX as int,
        mag(t_max) <= CMAX as int,
        sphere_hit_t(list[k], r, t_min, t_max) is Some,
        forall|j: int|
            0 <= j < list.len() && j != k ==> sphere_hit_t(#[trigger] list[j], r, t_min, t_max) is None,
    ensures
        list_hit_from(list, i, r, t_min, t_max, None) == sphere_hit_s(list[k], r, t_min, t_max),
    decreases k - i,
{
    if i < k {
        lemma_from_prefix(list, i + 1, r, t_min, t_max, k);
    } else {
        let t = sphere_hit_t(list[k], r, t_min, t_max)->Some_0;
        let rec = hit_record_s(list[k], r, t);
        assert(rec.t == t);
        lemma_from_all_none(list, k + 1, r, t_min, t_max, t, Some(rec));
    }
}

/// Over two overlapping spheres the aggregate returns the record with
/// the strictly smaller parameter; on an exact tie the first-inserted
/// sphere wins.
pub proof fn lemma_aggregate_closest_of_two(
    s1: Sphere,
    s2: Sphere,
    r: Ray,
    t_min: int,
    t_max: int,
    t1: int,
    t2: int,
)
    requires
        mag(t_min) <= CMAX as int,
        mag(t_max) <= CMAX as int,
        sphere_hit_t(s1, r, t_min, t_max) == Some(t1),
        sphere_hit_t(s2, r, t_min, t_max) == Some(t2),
    ensures
        t2 < t1 ==> list_hit_s(seq![s1, s2], r, t_min, t_max) == Some(hit_record_s(s2, r, t2)),
        t1 <= t2 ==> list_hit_s(seq![s1, s2], r, t_min, t_max) == Some(hit_record_s(s1, r, t1)),
{
    let list = seq![s1, s2];
    assert(list.len() == 2 && list[0] == s1 && list[1] == s2);
    assert(t_min < t1 < t_max);
    let rec1 = hit_record_s(s1, r, t1);
    assert(rec1.t == t1);
    assert(list_hit_s(list, r, t_min, t_max) == list_hit_from(list, 0, r, t_min, t_max, None));
    assert(list_hit_from(list, 0, r, t_min, t_max, None) == list_hit_from(
        list,
        1,
        r,
        t_min,
        t1,
        Some(rec1),
    ));
    if t2 < t1 {
        lemma_sphere_hit_shrink_some(s2, r, t_min, t_max, t1, t2);
        let rec2 = hit_record_s(s2, r, t2);
        assert(rec2.t == t2);
        assert(list_hit_from(list, 1, r, t_min, t1, Some(rec1)) == list_hit_from(
            list,
            2,
            r,
            t_min,
            t2,
            Some(rec2),
        ));
        assert(list_hit_from(list, 2, r, t_min, t2, Some(rec2)) == Some(rec2));
    } else {
        lemma_sphere_hit_vanish(s2, r, t_min, t_max, t1, t2);
        assert(list_hit_from(list, 1, r, t_min, t1, Some(rec1)) == list_hit_from(
            list,
            2,
            r,
            t_min,
            t1,
            Some(rec1),
        ));
        assert(list_hit_from(list, 2, r, t_min, t1, Some(rec1)) == Some(rec1));
    }
}

/// A ray starting exactly on a sphere's surface and pointing outward
/// (or tangent) reports no hit on any nonnegative interval: both roots
/// of the quadratic lie at or behind the origin.
pub proof fn lemma_surface_outward_no_hit(s: Sphere, r: Ray, t_min: int, t_max: int)
    requires
        quad_c(s, r) == 0,
        quad_hb(s, r) >= 0,
        t_min >= 0,
    ensures
        sphere_hit_t(s, r, t_min, t_max) is None,
{
    if quad_a(r) != 0 {
        lemma_quad_a_nonneg(r);
        let a = quad_a(r);
        let hb = quad_hb(s, r);
        assert(quad_disc(s, r) == hb * hb) by (nonlinear_arith)
            requires
                quad_c(s, r) == 0 && quad_disc(s, r) == quad_hb(s, r) * quad_hb(s, r) - quad_a(r)
                    * quad_c(s, r) && hb == quad_hb(s, r),
        ;
        if hb > 0 {
            assert(hb * hb > 0 && hb * hb < (hb + 1) * (hb + 1)) by (nonlinear_arith)
                requires
                    hb > 0,
            ;
            lemma_sqrt_floor_is_sqrt(hb * hb, hb);
            lemma_tdiv_mono((-hb - hb) * (SCALE as int), 0, a);
            lemma_tdiv_zero(a);
            assert(sphere_root1(s, r) <= 0);
            assert(sphere_root2(s, r) == tdiv(0 * (SCALE as int), a));
            assert(sphere_root2(s, r) == 0);
        } else {
            assert(hb * hb == 0) by (nonlinear_arith)
                requires
                    hb == 0,
            ;
        }
    }
}

/// A ray starting exactly on a sphere's surface and pointing inward
/// enters at parameter zero when the interval reaches below zero; the
/// matching exit root is `-2 hb / a`, the far crossing.
pub proof fn lemma_surface_inward_hits_origin(s: Sphere, r: Ray, t_min: int, t_max: int)
    requires
        quad_c(s, r) == 0,
        quad_hb(s, r) < 0,
        quad_a(r) != 0,
        t_min < 0 < t_max,
    ensures
        sphere_hit_t(s, r, t_min, t_max) == Some(0int),
        sphere_root2(s, r) == tdiv(-2 * quad_hb(s, r) * (SCALE as int), quad_a(r)),
{
    lemma_quad_a_nonneg(r);
    let a = quad_a(r);
    let hb = quad_hb(s, r);
    assert(quad_disc(s, r) == hb * hb) by (nonlinear_arith)
        requires
            quad_c(s, r) == 0 && quad_disc(s, r) == quad_hb(s, r) * quad_hb(s, r) - quad_a(r)
                * quad_c(s, r) && hb == quad_hb(s, r),
    ;
    assert(hb * hb > 0 && (-hb) * (-hb) <= hb * hb && hb * hb < (-hb + 1) * (-hb + 1)) by (
    nonlinear_arith)
        requires
            hb < 0,
    ;
    lemma_sqrt_floor_is_sqrt(hb * hb, -hb);
    assert(sphere_root1(s, r) == tdiv(0 * (SCALE as int), a));
    lemma_tdiv_zero(a);
}

/// Negating one factor negates a fixed-point product.
pub proof fn lemma_fxmul_neg_left(a: int, b: int)
    ensures
        fxmul(-a, b) == -fxmul(a, b),
{
    assert((-a) * b == -(a * b)) by (nonlinear_arith);
    lemma_tdiv_neg(a * b, SCALE as int);
}

/// Mirror reflection sends the exact opposite of a unit normal back to
/// the normal itself: `reflect(-n, n) == n`.
pub proof fn lemma_mirror_reflection(n: Vec3)
    requires
        dot3_s(n, n) == ONE,
        in_range(n, ONE as int),
    ensures
        reflect_s(neg3_s(n), n) == n,
{
    lemma_fxmul_neg_left(n.x as int, n.x as int);
    lemma_fxmul_neg_left(n.y as int, n.y as int);
    lemma_fxmul_neg_left(n.z as int, n.z as int);
    let m = neg3_s(n);
    let d = dot3_s(m, n);
    assert(d == -65536);
    lemma_tdiv_exact(-2 * n.x as int, SCALE as int);
    lemma_tdiv_exact(-2 * n.y as int, SCALE as int);
    lemma_tdiv_exact(-2 * n.z as int, SCALE as int);
    assert(2 * d * (n.x as int) == (-2 * n.x as int) * 65536) by (nonlinear_arith)
        requires
            d == -65536,
    ;
    assert(2 * d * (n.y as int) == (-2 * n.y as int) * 65536) by (nonlinear_arith)
        requires
            d == -65536,
    ;
    assert(2 * d * (n.z as int) == (-2 * n.z as int) * 65536) by (nonlinear_arith)
        requires
            d == -65536,
    ;
}

/// Polished metal (`fuzz == 0`) scatters a ray arriving exactly
/// opposite a unit normal back along that normal, attenuated by the
/// albedo, and never absorbs it.
pub proof fn lemma_metal_mirror_scatter(m: Metal, r: Ray, rec: HitRecord, sr: ScatterRand)
    requires
        m.fuzz == 0,
        dot3_s(rec.normal, rec.normal) == ONE,
        in_range(rec.normal, ONE as int),
        unit3_s(r.direction) == neg3_s(rec.normal),
    ensures
        metal_scatter_s(m, r, rec, sr) == Some(
            (m.albedo, Ray { origin: rec.p, direction: rec.normal }),
        ),
{
    lemma_mirror_reflection(rec.normal);
}

/// Diffuse scattering never absorbs, and its attenuation is exactly the
/// configured albedo.
pub proof fn lemma_lambertian_never_absorbs(m: Lambertian, rec: HitRecord, sr: ScatterRand)
    ensures
        lambertian_scatter_s(m, rec, sr) matches Some((att, _)) && att == m.albedo,
{
}

/// A clear dielectric never absorbs, and its attenuation is exactly
/// pure white.
pub proof fn lemma_dielectric_never_absorbs(m: Dielectric, r: Ray, rec: HitRecord, sr: ScatterRand)
    ensures
        dielectric_scatter_s(m, r, rec, sr) matches Some((att, _)) && att == v3(
            ONE as int,
            ONE as int,
            ONE as int,
        ),
{
}

/// At the recursion cutoff the evaluator returns exactly black,
/// whatever the scene holds.
pub proof fn lemma_color_depth_cutoff(
    world: Seq<Sphere>,
    r: Ray,
    depth: nat,
    samples: Seq<ScatterRand>,
)
    requires
        depth >= MAX_DEPTH,
    ensures
        color_s(world, r, depth, samples) == v3(0, 0, 0),
{
}

/// A ray that hits nothing returns exactly the background gradient.
pub proof fn lemma_color_miss_background(
    world: Seq<Sphere>,
    r: Ray,
    depth: nat,
    samples: Seq<ScatterRand>,
)
    requires
        depth < MAX_DEPTH,
        ray_ok(r),
        list_hit_s(world, r, T_MIN_EPS as int, T_MAX_FAR as int) is None,
    ensures
        color_s(world, r, depth, samples) == background_s(r),
{
}

/// A plan of one sample jittered to the pixel center renders exactly
/// the gamma-corrected radiance of that single centered ray: averaging
/// over one sample changes nothing.
pub proof fn lemma_single_sample_render(
    world: Seq<Sphere>,
    cam: Camera,
    x: int,
    y: int,
    w: int,
    h: int,
    plan: Seq<RaySample>,
)
    requires
        plan.len() == 1,
        plan[0].ju == HALF,
        plan[0].jv == HALF,
    ensures
        render_pixel_s(world, cam, x, y, w, h, plan) == ({
            let c = color_s(
                world,
                camera_ray_s(cam, pixel_u_s(x, HALF as int, w), pixel_u_s(y, HALF as int, h)),
                0,
                plan[0].bounces@,
            );
            (Pixel {
                r: to_byte_s(c.x as int) as u8,
                g: to_byte_s(c.y as int) as u8,
                b: to_byte_s(c.z as int) as u8,
            })
        }),
{
    let c = color_s(
        world,
        camera_ray_s(cam, pixel_u_s(x, HALF as int, w), pixel_u_s(y, HALF as int, h)),
        0,
        plan[0].bounces@,
    );
    assert(pixel_color_sum_s(world, cam, x, y, w, h, plan, 0) == v3(0, 0, 0));
    let total = pixel_color_sum_s(world, cam, x, y, w, h, plan, 1);
    assert(total == add3_s(v3(0, 0, 0), c));
    assert(total.x == c.x && total.y == c.y && total.z == c.z);
    vstd::arithmetic::div_mod::lemma_div_basics(mag(total.x as int));
    vstd::arithmetic::div_mod::lemma_div_basics(mag(total.y as int));
    vstd::arithmetic::div_mod::lemma_div_basics(mag(total.z as int));
    assert(tdiv(total.x as int, 1) == total.x);
    assert(tdiv(total.y as int, 1) == total.y);
    assert(tdiv(total.z as int, 1) == total.z);
}

} // verus!
