//! The recursive radiance evaluator and the per-pixel sampling routine.
//!
//! `color` resolves the nearest hit, asks the material to scatter, and
//! recurses up to a fixed depth, multiplying attenuations; a miss yields
//! the background gradient, absorption and the depth cutoff yield black.
//! All randomness arrives pre-drawn (one [`ScatterRand`] per possible
//! bounce), so the evaluator is a pure function of its arguments and its
//! result is pinned exactly by `color_s`.

use crate::fixed::{
    fx_div, fx_mul, fxdiv, fxmul, lemma_fxmul_bound, lemma_fxmul_le, lemma_fxmul_unit,
    lemma_tdiv_bound, lemma_tdiv_exact, mag, tdiv, CMAX, HALF, ONE, SCALE,
};
use crate::hit_table::{
    lemma_list_hit_material, list_hit_s, world_wf, HitRecord, HitTable, HitTableList,
};
use crate::material::{
    clamp_unit_s, color_in_unit, mat_wf, scatter_input_wf, scatter_rand_wf, scatter_s,
    MaterialKind, ScatterRand,
};
use crate::ray::Ray;
use crate::sphere::Sphere;
use crate::vec3::{
    check_in_range, in_range, len_s, length, mul3, mul3_s, sq_len, sq_len_s, v3, Vec3,
};
use vstd::prelude::*;

verus! {

/// Hard recursion cutoff of the radiance evaluator.
pub const MAX_DEPTH: usize = 50;

/// Lower query bound of every radiance ray: about 0.001, the
/// shadow-acne guard that keeps a scattered ray from re-hitting its own
/// origin.
pub const T_MIN_EPS: i64 = 65;

/// Upper query bound standing in for an unbounded reach.
pub const T_MAX_FAR: i64 = CMAX;

/// The blue vertical component of the sky gradient (0.7).
pub const SKY_BLUE_G: i64 = 45875;

/// A ray the evaluator can trace further: coordinates in range and a
/// direction long enough to normalize.  Scattering in exact real
/// arithmetic always satisfies this; the evaluator treats the rare
/// fixed-point escape as absorbed.
pub open spec fn ray_ok(r: Ray) -> bool {
    in_range(r.origin, CMAX as int) && in_range(r.direction, CMAX as int) && sq_len_s(r.direction)
        >= 1
}

/// A hit record the scattering routines can take.
pub open spec fn rec_ok(rec: HitRecord) -> bool {
    in_range(rec.p, CMAX as int) && in_range(rec.normal, 2 * ONE as int)
}

/// The background gradient: white blended toward sky blue by the
/// height of the unit direction.
pub open spec fn background_s(r: Ray) -> Vec3 {
    let l = len_s(r.direction);
    let uy = if l == 0 {
        0
    } else {
        fxdiv(r.direction.y as int, l)
    };
    let t = clamp_unit_s(fxmul(HALF as int, uy + ONE));
    v3(
        fxmul(ONE as int - t, ONE as int) + fxmul(t, HALF as int),
        fxmul(ONE as int - t, ONE as int) + fxmul(t, SKY_BLUE_G as int),
        fxmul(ONE as int - t, ONE as int) + fxmul(t, ONE as int),
    )
}

/// The radiance carried back along a ray: black at the depth cutoff,
/// the background on a miss, black on absorption, and otherwise the
/// attenuation times the radiance of the scattered ray, which consumes
/// the sample at index `depth`.
pub open spec fn color_s(world: Seq<Sphere>, r: Ray, depth: nat, samples: Seq<ScatterRand>) -> Vec3
    decreases MAX_DEPTH as int - depth,
{
    if depth >= MAX_DEPTH {
        v3(0, 0, 0)
    } else if !ray_ok(r) {
        v3(0, 0, 0)
    } else {
        match list_hit_s(world, r, T_MIN_EPS as int, T_MAX_FAR as int) {
            None => background_s(r),
            Some(rec) => if !rec_ok(rec) {
                v3(0, 0, 0)
            } else {
                match scatter_s(rec.material, r, rec, samples[depth as int]) {
                    None => v3(0, 0, 0),
                    Some((att, sc)) => mul3_s(att, color_s(world, sc, (depth + 1) as nat, samples)),
                }
            },
        }
    }
}

/// Compute the background gradient of a ray that hits nothing.
pub fn background(r: &Ray) -> (c: Vec3)
    requires
        in_range(r.direction, CMAX as int),
    ensures
        c == background_s(*r),
        color_in_unit(c),
{
    let l: i64 = length(&r.direction);
    let uy: i64 = if l == 0 {
        0
    } else {
        proof {
            lemma_tdiv_bound(
                r.direction.y as int * SCALE as int,
                l as int,
                0x200000000000,
            );
        }
        fx_div(r.direction.y, l)
    };
    proof {
        lemma_fxmul_bound(HALF as int, uy as int + ONE as int, HALF as int, 0x200010000000);
    }
    let tr: i64 = fx_mul(HALF, uy + ONE);
    let t: i64 = if tr < 0 {
        0
    } else if tr > ONE {
        ONE
    } else {
        tr
    };
    proof {
        lemma_tdiv_exact(ONE as int - t, SCALE as int);
        lemma_fxmul_le(t as int, HALF as int);
        lemma_fxmul_le(t as int, SKY_BLUE_G as int);
        lemma_fxmul_le(t as int, ONE as int);
    }
    Vec3 {
        x: fx_mul(ONE - t, ONE) + fx_mul(t, HALF),
        y: fx_mul(ONE - t, ONE) + fx_mul(t, SKY_BLUE_G),
        z: fx_mul(ONE - t, ONE) + fx_mul(t, ONE),
    }
}

/// Every sample of a bounce sequence is well formed and there is one
/// for each possible depth.
pub open spec fn samples_wf(samples: Seq<ScatterRand>) -> bool {
    samples.len() >= MAX_DEPTH && forall|i: int|
        0 <= i < samples.len() ==> scatter_rand_wf(#[trigger] samples[i])
}

/// Evaluate the radiance of a ray through the scene.
pub fn color(world: &HitTableList, r: &Ray, depth: usize, samples: &Vec<ScatterRand>) -> (c: Vec3)
    requires
        world_wf(world.list@),
        samples_wf(samples@),
    ensures
        c == color_s(world.list@, *r, depth as nat, samples@),
        color_in_unit(c),
    decreases MAX_DEPTH as int - depth,
{
    if depth >= MAX_DEPTH {
        return Vec3 { x: 0, y: 0, z: 0 };
    }
    if !(check_in_range(&r.origin, CMAX) && check_in_range(&r.direction, CMAX)) {
        return Vec3 { x: 0, y: 0, z: 0 };
    }
    if sq_len(&r.direction) < 1 {
        return Vec3 { x: 0, y: 0, z: 0 };
    }
    match world.hit(r, T_MIN_EPS, T_MAX_FAR) {
        None => background(r),
        Some(rec) => {
            if !(check_in_range(&rec.p, CMAX) && check_in_range(&rec.normal, 2 * ONE)) {
                return Vec3 { x: 0, y: 0, z: 0 };
            }
            proof {
                lemma_list_hit_material(
                    world.list@,
                    0,
                    *r,
                    T_MIN_EPS as int,
                    T_MAX_FAR as int,
                    None,
                );
            }
            match rec.get_material().scatter(r, &rec, &samples[depth]) {
                None => Vec3 { x: 0, y: 0, z: 0 },
                Some((att, sc)) => {
                    let rest: Vec3 = color(world, &sc, depth + 1, samples);
                    proof {
                        lemma_fxmul_unit(att.x as int, rest.x as int);
                        lemma_fxmul_unit(att.y as int, rest.y as int);
                        lemma_fxmul_unit(att.z as int, rest.z as int);
                    }
                    mul3(&att, &rest)
                },
            }
        },
    }
}

/// One antialiasing sample: the jitter inside the pixel and the bounce
/// randomness for its ray.
#[derive(Debug)]
pub struct RaySample {
    pub ju: i64,
    pub jv: i64,
    pub bounces: Vec<ScatterRand>,
}

pub open spec fn ray_sample_wf(s: RaySample) -> bool {
    0 <= s.ju < ONE && 0 <= s.jv < ONE && samples_wf(s.bounces@)
}

pub open spec fn plan_wf(plan: Seq<RaySample>) -> bool {
    1 <= plan.len() <= 65536 && forall|i: int| 0 <= i < plan.len() ==> ray_sample_wf(
        #[trigger] plan[i],
    )
}

/// The normalized image-plane coordinate of pixel index `x` jittered by
/// `j`: `(x + j) / w` with `j` a fixed-point offset inside the pixel.
pub open spec fn pixel_u_s(x: int, j: int, w: int) -> int {
    fxdiv(x * (ONE as int) + j, w * (ONE as int))
}

pub fn pixel_u(x: usize, j: i64, w: usize) -> (u: i64)
    requires
        x < w,
        w <= 4096,
        0 <= j < ONE,
    ensures
        u == pixel_u_s(x as int, j as int, w as int),
        0 <= u < ONE,
{
    proof {
        lemma_tdiv_bound(
            (x as int * (ONE as int) + j) * (SCALE as int),
            w as int * (ONE as int),
            65535,
        );
        vstd::arithmetic::div_mod::lemma_div_pos_is_pos(
            (x as int * (ONE as int) + j) * (SCALE as int),
            w as int * (ONE as int),
        );
    }
    fx_div((x as i64) * ONE + j, (w as i64) * ONE)
}

/// The radiance sum of a plan's first `n` samples.
pub open spec fn pixel_color_sum_s(
    world: Seq<Sphere>,
    cam: crate::camera::Camera,
    x: int,
    y: int,
    w: int,
    h: int,
    plan: Seq<RaySample>,
    n: int,
) -> Vec3
    decreases n,
{
    if n <= 0 {
        v3(0, 0, 0)
    } else {
        let s = plan[n - 1];
        let r = crate::camera::camera_ray_s(cam, pixel_u_s(x, s.ju as int, w), pixel_u_s(y, s.jv as int, h));
        crate::vec3::add3_s(
            pixel_color_sum_s(world, cam, x, y, w, h, plan, n - 1),
            color_s(world, r, 0, s.bounces@),
        )
    }
}

/// Gamma-correct a unit-interval channel (by square root) and scale it
/// to a byte: `sqrt(c) * 255.99`, truncated.
pub open spec fn to_byte_s(c: int) -> int {
    tdiv(crate::fixed::sqrt_floor(c * (SCALE as int)) * 25599, 6553600)
}

pub fn to_byte(c: i64) -> (b: u8)
    requires
        0 <= c <= ONE,
    ensures
        b == to_byte_s(c as int),
{
    let s: i64 = crate::fixed::fx_sqrt(c);
    proof {
        crate::fixed::lemma_sqrt_le(c as int * SCALE as int, ONE as int);
        lemma_tdiv_bound(s as int * 25599, 6553600, 255);
        vstd::arithmetic::div_mod::lemma_div_pos_is_pos(s as int * 25599, 6553600);
    }
    let n: i64 = crate::fixed::tdiv_i128((s as i128) * 25599, 6553600) as i64;
    n as u8
}

/// The pixel a plan of jittered samples produces: the per-sample
/// radiances averaged, gamma-corrected and scaled to bytes.
pub open spec fn render_pixel_s(
    world: Seq<Sphere>,
    cam: crate::camera::Camera,
    x: int,
    y: int,
    w: int,
    h: int,
    plan: Seq<RaySample>,
) -> crate::pixel::Pixel {
    let total = pixel_color_sum_s(world, cam, x, y, w, h, plan, plan.len() as int);
    crate::pixel::Pixel {
        r: to_byte_s(tdiv(total.x as int, plan.len() as int)) as u8,
        g: to_byte_s(tdiv(total.y as int, plan.len() as int)) as u8,
        b: to_byte_s(tdiv(total.z as int, plan.len() as int)) as u8,
    }
}

/// Render one pixel from pre-drawn samples.
pub fn render_pixel(
    world: &HitTableList,
    cam: &crate::camera::Camera,
    x: usize,
    y: usize,
    width: usize,
    height: usize,
    plan: &Vec<RaySample>,
) -> (px: crate::pixel::Pixel)
    requires
        world_wf(world.list@),
        crate::camera::camera_wf(*cam),
        x < width,
        y < height,
        width <= 4096,
        height <= 4096,
        plan_wf(plan@),
    ensures
        px == render_pixel_s(
            world.list@,
            *cam,
            x as int,
            y as int,
            width as int,
            height as int,
            plan@,
        ),
{
    let ghost gw = world.list@;
    let mut sx: i64 = 0;
    let mut sy: i64 = 0;
    let mut sz: i64 = 0;
    let mut i: usize = 0;
    while i < plan.len()
        invariant
            world_wf(world.list@),
            world.list@ == gw,
            crate::camera::camera_wf(*cam),
            x < width <= 4096,
            y < height <= 4096,
            plan_wf(plan@),
            0 <= i <= plan@.len(),
            0 <= sx <= i * (ONE as int),
            0 <= sy <= i * (ONE as int),
            0 <= sz <= i * (ONE as int),
            (Vec3 { x: sx, y: sy, z: sz }) == pixel_color_sum_s(
                gw,
                *cam,
                x as int,
                y as int,
                width as int,
                height as int,
                plan@,
                i as int,
            ),
        decreases plan@.len() - i,
    {
        let s = &plan[i];
        let u: i64 = pixel_u(x, s.ju, width);
        let v: i64 = pixel_u(y, s.jv, height);
        let r: Ray = cam.ray(u, v);
        let c: Vec3 = color(world, &r, 0, &s.bounces);
        sx = sx + c.x;
        sy = sy + c.y;
        sz = sz + c.z;
        i = i + 1;
    }
    let n: i64 = plan.len() as i64;
    proof {
        lemma_tdiv_bound(sx as int, n as int, ONE as int);
        lemma_tdiv_bound(sy as int, n as int, ONE as int);
        lemma_tdiv_bound(sz as int, n as int, ONE as int);
        vstd::arithmetic::div_mod::lemma_div_pos_is_pos(sx as int, n as int);
        vstd::arithmetic::div_mod::lemma_div_pos_is_pos(sy as int, n as int);
        vstd::arithmetic::div_mod::lemma_div_pos_is_pos(sz as int, n as int);
    }
    let ax: i64 = crate::fixed::tdiv_i128(sx as i128, n as i128) as i64;
    let ay: i64 = crate::fixed::tdiv_i128(sy as i128, n as i128) as i64;
    let az: i64 = crate::fixed::tdiv_i128(sz as i128, n as i128) as i64;
    crate::pixel::Pixel { r: to_byte(ax), g: to_byte(ay), b: to_byte(az) }
}

/// Render one pixel with freshly drawn randomness: `aa_steps` jittered
/// camera rays, their radiances averaged.  Whatever the generator
/// returns, the result is what `render_pixel_s` gives for some
/// well-formed sample plan of that size.
pub fn render_pixel_rand(
    world: &HitTableList,
    cam: &crate::camera::Camera,
    x: usize,
    y: usize,
    width: usize,
    height: usize,
    aa_steps: usize,
) -> (px: crate::pixel::Pixel)
    requires
        world_wf(world.list@),
        crate::camera::camera_wf(*cam),
        x < width,
        y < height,
        width <= 4096,
        height <= 4096,
        1 <= aa_steps <= 65536,
    ensures
        exists|plan: Seq<RaySample>|
            plan.len() == aa_steps && #[trigger] plan_wf(plan) && px == render_pixel_s(
                world.list@,
                *cam,
                x as int,
                y as int,
                width as int,
                height as int,
                plan,
            ),
{
    let mut plan: Vec<RaySample> = Vec::new();
    let mut k: usize = 0;
    while k < aa_steps
        invariant
            0 <= k <= aa_steps,
            plan@.len() == k,
            forall|i: int| 0 <= i < plan@.len() ==> ray_sample_wf(#[trigger] plan@[i]),
        decreases aa_steps - k,
    {
        let sample = RaySample {
            ju: crate::sampling::rand_fx(),
            jv: crate::sampling::rand_fx(),
            bounces: crate::sampling::draw_bounces(MAX_DEPTH),
        };
        plan.push(sample);
        k = k + 1;
    }
    let px = render_pixel(world, cam, x, y, width, height, &plan);
    proof {
        assert(plan_wf(plan@));
    }
    px
}

/// A buffer entry at flat index `j` shows pixel
/// `(j % w, h - 1 - j / w)` — row-major, top row first — rendered from
/// some well-formed plan of `aa` samples.
pub open spec fn frame_entry_ok(
    world: Seq<Sphere>,
    cam: crate::camera::Camera,
    w: int,
    h: int,
    aa: int,
    j: int,
    px: crate::pixel::Pixel,
) -> bool {
    exists|plan: Seq<RaySample>|
        plan.len() == aa && #[trigger] plan_wf(plan) && px == render_pixel_s(
            world,
            cam,
            j % w,
            h - 1 - j / w,
            w,
            h,
            plan,
        )
}

/// Render a whole frame: one pixel per entry, row-major with the top
/// row first, each pixel from its own freshly drawn samples.
pub fn render_frame(
    world: &HitTableList,
    cam: &crate::camera::Camera,
    width: usize,
    height: usize,
    aa_steps: usize,
) -> (buf: Vec<crate::pixel::Pixel>)
    requires
        world_wf(world.list@),
        crate::camera::camera_wf(*cam),
        1 <= width <= 4096,
        1 <= height <= 4096,
        1 <= aa_steps <= 65536,
    ensures
        buf@.len() == width * height,
        forall|j: int|
            0 <= j < buf@.len() ==> frame_entry_ok(
                world.list@,
                *cam,
                width as int,
                height as int,
                aa_steps as int,
                j,
                #[trigger] buf@[j],
            ),
{
    let mut buf: Vec<crate::pixel::Pixel> = Vec::new();
    let mut row: usize = 0;
    while row < height
        invariant
            world_wf(world.list@),
            crate::camera::camera_wf(*cam),
            1 <= width <= 4096,
            1 <= height <= 4096,
            1 <= aa_steps <= 65536,
            0 <= row <= height,
            buf@.len() == row * width,
            forall|j: int|
                0 <= j < buf@.len() ==> frame_entry_ok(
                    world.list@,
                    *cam,
                    width as int,
                    height as int,
                    aa_steps as int,
                    j,
                    #[trigger] buf@[j],
                ),
        decreases height - row,
    {
        let y: usize = height - 1 - row;
        let mut x: usize = 0;
        while x < width
            invariant
                world_wf(world.list@),
                crate::camera::camera_wf(*cam),
                1 <= width <= 4096,
                1 <= height <= 4096,
                1 <= aa_steps <= 65536,
                0 <= row < height,
                y == height - 1 - row,
                0 <= x <= width,
                buf@.len() == row * width + x,
                forall|j: int|
                    0 <= j < buf@.len() ==> frame_entry_ok(
                        world.list@,
                        *cam,
                        width as int,
                        height as int,
                        aa_steps as int,
                        j,
                        #[trigger] buf@[j],
                    ),
            decreases width - x,
        {
            let px = render_pixel_rand(world, cam, x, y, width, height, aa_steps);
            proof {
                let j = buf@.len() as int;
                vstd::arithmetic::div_mod::lemma_fundamental_div_mod_converse(
                    j,
                    width as int,
                    row as int,
                    x as int,
                );
                assert(j % (width as int) == x as int && j / (width as int) == row as int);
            }
            buf.push(px);
            x = x + 1;
        }
        proof {
            assert((row + 1) * (width as int) == row * (width as int) + width) by (nonlinear_arith);
        }
        row = row + 1;
    }
    proof {
        assert((height as int) * (width as int) == (width as int) * (height as int)) by (
        nonlinear_arith);
    }
    buf
}

} // verus!
