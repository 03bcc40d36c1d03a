//! The camera: an immutable view basis derived once from eye, target,
//! up vector, vertical field of view and aspect ratio, producing one ray
//! per normalized image-plane coordinate.

use crate::fixed::{
    fxdiv, fxmul, i64_fits, lemma_fxmul_bound, lemma_tdiv_bound, mag, tdiv, tdiv_i128, CMAX, ONE,
    SCALE,
};
use crate::ray::Ray;
use crate::vec3::{
    add3, add3_s, check_in_range, cross3, cross3_s, in_range, lemma_dot3_fits, scale3, scale3_s,
    sq_len, sq_len_s, sub3, sub3_s, unit3, unit3_s, Vec3,
};
use vstd::prelude::*;

verus! {

/// Magnitude bound on camera eye, target and up components
/// (2^26, about 1024 real units).
pub const PMAX: i64 = 67108864;

/// Magnitude bound on the four stored camera vectors; four of them
/// combine into a ray direction, which must stay within `CMAX`.
pub const CVMAX: i64 = 134217728;

/// Pi in fixed-point form.
pub const PI_FX: i64 = 205887;

#[derive(Clone, Copy, Debug, PartialEq, Eq, Structural)]
pub struct Camera {
    pub origin: Vec3,
    pub lower_left_corner: Vec3,
    pub horizontal: Vec3,
    pub vertical: Vec3,
}

/// A camera whose stored vectors are small enough that every generated
/// ray stays in coordinate range.
pub open spec fn camera_wf(c: Camera) -> bool {
    &&& in_range(c.origin, CVMAX as int)
    &&& in_range(c.lower_left_corner, CVMAX as int)
    &&& in_range(c.horizontal, CVMAX as int)
    &&& in_range(c.vertical, CVMAX as int)
}

/// Odd-polynomial approximation of the tangent,
/// `x + x^3/3 + 2 x^5/15 + 17 x^7/315`, in fixed point.  It is accurate
/// to a fraction of a percent up to about `pi/4` and within a few
/// percent up to `pi/2`; this library defines the camera's image-plane
/// height by this polynomial.
pub open spec fn tan_approx_s(x: int) -> int {
    let x2 = fxmul(x, x);
    let x3 = fxmul(x2, x);
    let x5 = fxmul(x3, x2);
    let x7 = fxmul(x5, x2);
    x + tdiv(x3, 3) + tdiv(2 * x5, 15) + tdiv(17 * x7, 315)
}

/// Compute the tangent polynomial.
pub fn tan_approx(x: i64) -> (r: i64)
    requires
        0 <= x <= 2 * ONE,
    ensures
        r == tan_approx_s(x as int),
        0 <= r <= 17 * ONE,
{
    proof {
        lemma_fxmul_bound(x as int, x as int, 131072, 131072);
        vstd::arithmetic::div_mod::lemma_div_pos_is_pos(x as int * x as int, SCALE as int);
    }
    let x2: i64 = crate::fixed::fx_mul(x, x);
    proof {
        lemma_fxmul_bound(x2 as int, x as int, 262144, 131072);
        vstd::arithmetic::div_mod::lemma_div_pos_is_pos(x2 as int * x as int, SCALE as int);
    }
    let x3: i64 = crate::fixed::fx_mul(x2, x);
    proof {
        lemma_fxmul_bound(x3 as int, x2 as int, 524288, 262144);
        vstd::arithmetic::div_mod::lemma_div_pos_is_pos(x3 as int * x2 as int, SCALE as int);
    }
    let x5: i64 = crate::fixed::fx_mul(x3, x2);
    proof {
        lemma_fxmul_bound(x5 as int, x2 as int, 2097152, 262144);
        vstd::arithmetic::div_mod::lemma_div_pos_is_pos(x5 as int * x2 as int, SCALE as int);
    }
    let x7: i64 = crate::fixed::fx_mul(x5, x2);
    proof {
        lemma_tdiv_bound(x3 as int, 3, 196608);
        lemma_tdiv_bound(2 * x5 as int, 15, 327680);
        lemma_tdiv_bound(17 * x7 as int, 315, 458752);
        vstd::arithmetic::div_mod::lemma_div_pos_is_pos(x3 as int, 3);
        vstd::arithmetic::div_mod::lemma_div_pos_is_pos(2 * x5 as int, 15);
        vstd::arithmetic::div_mod::lemma_div_pos_is_pos(17 * x7 as int, 315);
    }
    let t2: i64 = tdiv_i128(x3 as i128, 3) as i64;
    let t3: i64 = tdiv_i128(2 * (x5 as i128), 15) as i64;
    let t4: i64 = tdiv_i128(17 * (x7 as i128), 315) as i64;
    x + t2 + t3 + t4
}

/// The eye, target and up vector span a usable view basis: the viewing
/// direction and the horizontal axis can be normalized, and the
/// normalized basis vectors are of roughly unit size (their fixed-point
/// forms cannot stray far from the real unit vectors).
pub open spec fn camera_basis_ok(origin: Vec3, look_at: Vec3, up: Vec3) -> bool {
    let diff = sub3_s(origin, look_at);
    let w = unit3_s(diff);
    let cu = cross3_s(up, w);
    let u = unit3_s(cu);
    &&& sq_len_s(diff) >= 1
    &&& in_range(w, 2 * ONE as int)
    &&& in_range(cu, CMAX as int)
    &&& sq_len_s(cu) >= 1
    &&& in_range(u, 2 * ONE as int)
    &&& in_range(cross3_s(w, u), 2 * ONE as int)
}

/// The camera a given configuration derives: image-plane half-height
/// `tan(v_fov / 2)`, half-width `aspect` times that, and the orthonormal
/// basis `w` (toward the eye), `u` (right), `v` (up).
pub open spec fn camera_new_s(
    origin: Vec3,
    look_at: Vec3,
    up: Vec3,
    v_fov: int,
    aspect: int,
) -> Camera {
    let theta = fxdiv(fxmul(v_fov, PI_FX as int), 180 * ONE as int);
    let half_height = tan_approx_s(tdiv(theta, 2));
    let half_width = fxmul(aspect, half_height);
    let w = unit3_s(sub3_s(origin, look_at));
    let u = unit3_s(cross3_s(up, w));
    let v = cross3_s(w, u);
    Camera {
        origin,
        lower_left_corner: sub3_s(
            sub3_s(sub3_s(origin, scale3_s(half_width, u)), scale3_s(half_height, v)),
            w,
        ),
        horizontal: scale3_s(2 * half_width, u),
        vertical: scale3_s(2 * half_height, v),
    }
}

/// What `Camera::ray` returns: a ray from the eye through the image
/// plane point `lower_left + u * horizontal + v * vertical`.
pub open spec fn camera_ray_s(c: Camera, u: int, v: int) -> Ray {
    Ray {
        origin: c.origin,
        direction: sub3_s(
            add3_s(add3_s(c.lower_left_corner, scale3_s(u, c.horizontal)), scale3_s(v, c.vertical)),
            c.origin,
        ),
    }
}

impl Camera {
    /// Decide executably whether a configuration spans a usable basis.
    pub fn basis_ok(origin: &Vec3, look_at: &Vec3, up: &Vec3) -> (b: bool)
        requires
            in_range(*origin, PMAX as int),
            in_range(*look_at, PMAX as int),
            in_range(*up, PMAX as int),
        ensures
            b == camera_basis_ok(*origin, *look_at, *up),
    {
        let diff: Vec3 = sub3(origin, look_at);
        if sq_len(&diff) < 1 {
            return false;
        }
        let w: Vec3 = unit3(&diff);
        if !check_in_range(&w, 2 * ONE) {
            return false;
        }
        proof {
            lemma_fxmul_bound(up.x as int, w.y as int, 67108864, 131072);
            lemma_fxmul_bound(up.x as int, w.z as int, 67108864, 131072);
            lemma_fxmul_bound(up.y as int, w.x as int, 67108864, 131072);
            lemma_fxmul_bound(up.y as int, w.z as int, 67108864, 131072);
            lemma_fxmul_bound(up.z as int, w.x as int, 67108864, 131072);
            lemma_fxmul_bound(up.z as int, w.y as int, 67108864, 131072);
        }
        let cu: Vec3 = cross3(up, &w);
        if !check_in_range(&cu, CMAX) {
            return false;
        }
        if sq_len(&cu) < 1 {
            return false;
        }
        let u: Vec3 = unit3(&cu);
        if !check_in_range(&u, 2 * ONE) {
            return false;
        }
        proof {
            lemma_cross_unit_fits(w, u);
        }
        let v: Vec3 = cross3(&w, &u);
        check_in_range(&v, 2 * ONE)
    }

    /// Derive the view basis; see `camera_new_s`.
    pub fn new(origin: Vec3, look_at: Vec3, up: Vec3, v_fov: i64, aspect: i64) -> (c: Camera)
        requires
            in_range(origin, PMAX as int),
            in_range(look_at, PMAX as int),
            in_range(up, PMAX as int),
            camera_basis_ok(origin, look_at, up),
            ONE <= v_fov <= 179 * ONE,
            ONE <= aspect <= 8 * ONE,
        ensures
            c == camera_new_s(origin, look_at, up, v_fov as int, aspect as int),
            camera_wf(c),
    {
        proof {
            lemma_fxmul_bound(v_fov as int, PI_FX as int, 11730944, 205887);
            vstd::arithmetic::div_mod::lemma_div_pos_is_pos(
                v_fov as int * PI_FX as int,
                SCALE as int,
            );
        }
        let theta_num: i64 = crate::fixed::fx_mul(v_fov, PI_FX);
        proof {
            lemma_tdiv_bound(theta_num as int * SCALE as int, 11796480, 262144);
            vstd::arithmetic::div_mod::lemma_div_pos_is_pos(
                theta_num as int * SCALE as int,
                180 * ONE as int,
            );
        }
        let theta: i64 = crate::fixed::fx_div(theta_num, 180 * ONE);
        proof {
            lemma_tdiv_bound(theta as int, 2, 131072);
            vstd::arithmetic::div_mod::lemma_div_pos_is_pos(theta as int, 2);
        }
        let half_theta: i64 = tdiv_i128(theta as i128, 2) as i64;
        let half_height: i64 = tan_approx(half_theta);
        proof {
            lemma_fxmul_bound(aspect as int, half_height as int, 524288, 1114112);
            vstd::arithmetic::div_mod::lemma_div_pos_is_pos(
                aspect as int * half_height as int,
                SCALE as int,
            );
        }
        let half_width: i64 = crate::fixed::fx_mul(aspect, half_height);
        let diff: Vec3 = sub3(&origin, &look_at);
        let w: Vec3 = unit3(&diff);
        proof {
            lemma_fxmul_bound(up.x as int, w.y as int, 67108864, 131072);
            lemma_fxmul_bound(up.x as int, w.z as int, 67108864, 131072);
            lemma_fxmul_bound(up.y as int, w.x as int, 67108864, 131072);
            lemma_fxmul_bound(up.y as int, w.z as int, 67108864, 131072);
            lemma_fxmul_bound(up.z as int, w.x as int, 67108864, 131072);
            lemma_fxmul_bound(up.z as int, w.y as int, 67108864, 131072);
        }
        let cu: Vec3 = cross3(&up, &w);
        let u: Vec3 = unit3(&cu);
        proof {
            lemma_cross_unit_fits(w, u);
        }
        let v: Vec3 = cross3(&w, &u);
        proof {
            lemma_fxmul_bound(half_width as int, u.x as int, 8912896, 131072);
            lemma_fxmul_bound(half_width as int, u.y as int, 8912896, 131072);
            lemma_fxmul_bound(half_width as int, u.z as int, 8912896, 131072);
            lemma_fxmul_bound(half_height as int, v.x as int, 1114112, 131072);
            lemma_fxmul_bound(half_height as int, v.y as int, 1114112, 131072);
            lemma_fxmul_bound(half_height as int, v.z as int, 1114112, 131072);
            lemma_fxmul_bound(2 * half_width as int, u.x as int, 17825792, 131072);
            lemma_fxmul_bound(2 * half_width as int, u.y as int, 17825792, 131072);
            lemma_fxmul_bound(2 * half_width as int, u.z as int, 17825792, 131072);
            lemma_fxmul_bound(2 * half_height as int, v.x as int, 2228224, 131072);
            lemma_fxmul_bound(2 * half_height as int, v.y as int, 2228224, 131072);
            lemma_fxmul_bound(2 * half_height as int, v.z as int, 2228224, 131072);
        }
        let hw_u: Vec3 = scale3(half_width, &u);
        let hh_v: Vec3 = scale3(half_height, &v);
        let lower_left_corner: Vec3 = sub3(&sub3(&sub3(&origin, &hw_u), &hh_v), &w);
        let horizontal: Vec3 = scale3(2 * half_width, &u);
        let vertical: Vec3 = scale3(2 * half_height, &v);
        Camera { origin, lower_left_corner, horizontal, vertical }
    }

    /// The ray through normalized image-plane coordinates `(u, v)`.
    pub fn ray(&self, u: i64, v: i64) -> (r: Ray)
        requires
            camera_wf(*self),
            mag(u as int) <= ONE as int,
            mag(v as int) <= ONE as int,
        ensures
            r == camera_ray_s(*self, u as int, v as int),
            in_range(r.origin, CMAX as int),
            in_range(r.direction, CMAX as int),
    {
        proof {
            lemma_fxmul_bound(u as int, self.horizontal.x as int, 65536, 134217728);
            lemma_fxmul_bound(u as int, self.horizontal.y as int, 65536, 134217728);
            lemma_fxmul_bound(u as int, self.horizontal.z as int, 65536, 134217728);
            lemma_fxmul_bound(v as int, self.vertical.x as int, 65536, 134217728);
            lemma_fxmul_bound(v as int, self.vertical.y as int, 65536, 134217728);
            lemma_fxmul_bound(v as int, self.vertical.z as int, 65536, 134217728);
        }
        let su: Vec3 = scale3(u, &self.horizontal);
        let sv: Vec3 = scale3(v, &self.vertical);
        let plane: Vec3 = add3(&add3(&self.lower_left_corner, &su), &sv);
        Ray::new(self.origin, sub3(&plane, &self.origin))
    }

    /// Decide `camera_wf` executably.
    pub fn is_wf(&self) -> (b: bool)
        ensures
            b == camera_wf(*self),
    {
        check_in_range(&self.origin, CVMAX) && check_in_range(&self.lower_left_corner, CVMAX)
            && check_in_range(&self.horizontal, CVMAX) && check_in_range(&self.vertical, CVMAX)
    }
}

/// Cross products of roughly unit vectors fit comfortably in range.
proof fn lemma_cross_unit_fits(a: Vec3, b: Vec3)
    requires
        in_range(a, 2 * ONE as int),
        in_range(b, 2 * ONE as int),
    ensures
        i64_fits(fxmul(a.y as int, b.z as int)),
        i64_fits(fxmul(a.z as int, b.y as int)),
        i64_fits(fxmul(a.z as int, b.x as int)),
        i64_fits(fxmul(a.x as int, b.z as int)),
        i64_fits(fxmul(a.x as int, b.y as int)),
        i64_fits(fxmul(a.y as int, b.x as int)),
        i64_fits(fxmul(a.y as int, b.z as int) - fxmul(a.z as int, b.y as int)),
        i64_fits(fxmul(a.z as int, b.x as int) - fxmul(a.x as int, b.z as int)),
        i64_fits(fxmul(a.x as int, b.y as int) - fxmul(a.y as int, b.x as int)),
{
    lemma_fxmul_bound(a.y as int, b.z as int, 131072, 131072);
    lemma_fxmul_bound(a.z as int, b.y as int, 131072, 131072);
    lemma_fxmul_bound(a.z as int, b.x as int, 131072, 131072);
    lemma_fxmul_bound(a.x as int, b.z as int, 131072, 131072);
    lemma_fxmul_bound(a.x as int, b.y as int, 131072, 131072);
    lemma_fxmul_bound(a.y as int, b.x as int, 131072, 131072);
}

} // verus!
