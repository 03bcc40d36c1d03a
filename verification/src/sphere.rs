//! The sphere primitive and its quadratic intersection test.
//!
//! The quadratic coefficients are taken at the doubled fixed-point scale
//! (plain integer products, no rounding), so the only rounding in a root
//! is the final truncating division by the direction's squared length —
//! the tightest the fixed-point form allows.

use crate::fixed::{
    fx_div, fxdiv, fxmul, i64_fits, isqrt_u128, lemma_fxmul_bound, lemma_sqrt_floor_is_sqrt,
    lemma_tdiv_bound, mag, mul_i64, sqrt_floor, tdiv, tdiv_i128, CMAX, SCALE,
};
use crate::hit_table::{HitRecord, HitTable};
use crate::material::{mat_wf, MaterialKind};
use crate::ray::{ray_at_s, Ray};
use crate::vec3::{in_range, v3, Vec3};
use vstd::prelude::*;

verus! {

#[derive(Clone, Copy, Debug, PartialEq, Eq, Structural)]
pub struct Sphere {
    pub center: Vec3,
    pub radius: i64,
    pub material: MaterialKind,
}

/// A sphere the intersection math can take: coordinates in range, a
/// positive radius, well-formed material parameters.
pub open spec fn sphere_wf(s: Sphere) -> bool {
    in_range(s.center, CMAX as int) && 1 <= s.radius <= CMAX && mat_wf(s.material)
}

/// Squared length of the direction, at the doubled scale.
pub open spec fn quad_a(r: Ray) -> int {
    r.direction.x * r.direction.x + r.direction.y * r.direction.y + r.direction.z * r.direction.z
}

/// Half the linear coefficient: `(origin - center) . direction`, at the
/// doubled scale.
pub open spec fn quad_hb(s: Sphere, r: Ray) -> int {
    (r.origin.x - s.center.x) * r.direction.x + (r.origin.y - s.center.y) * r.direction.y + (
    r.origin.z - s.center.z) * r.direction.z
}

/// The constant coefficient: `|origin - center|^2 - radius^2`, at the
/// doubled scale.
pub open spec fn quad_c(s: Sphere, r: Ray) -> int {
    (r.origin.x - s.center.x) * (r.origin.x - s.center.x) + (r.origin.y - s.center.y) * (r.origin.y
        - s.center.y) + (r.origin.z - s.center.z) * (r.origin.z - s.center.z) - s.radius * s.radius
}

pub open spec fn quad_disc(s: Sphere, r: Ray) -> int {
    quad_hb(s, r) * quad_hb(s, r) - quad_a(r) * quad_c(s, r)
}

/// The smaller quadratic root, as a fixed-point ray parameter.
pub open spec fn sphere_root1(s: Sphere, r: Ray) -> int {
    tdiv((-quad_hb(s, r) - sqrt_floor(quad_disc(s, r))) * (SCALE as int), quad_a(r))
}

/// The larger quadratic root, as a fixed-point ray parameter.
pub open spec fn sphere_root2(s: Sphere, r: Ray) -> int {
    tdiv((-quad_hb(s, r) + sqrt_floor(quad_disc(s, r))) * (SCALE as int), quad_a(r))
}

/// The ray parameter a sphere intersection reports: the first root in
/// ascending order strictly inside `(t_min, t_max)`, none if the
/// discriminant shows no crossing, and none for a degenerate
/// (zero-length) direction, which can intersect nothing.
pub open spec fn sphere_hit_t(s: Sphere, r: Ray, t_min: int, t_max: int) -> Option<int> {
    if quad_a(r) == 0 || quad_disc(s, r) <= 0 {
        None
    } else if t_min < sphere_root1(s, r) < t_max {
        Some(sphere_root1(s, r))
    } else if t_min < sphere_root2(s, r) < t_max {
        Some(sphere_root2(s, r))
    } else {
        None
    }
}

/// The record built for a hit at parameter `t`: the point on the ray
/// and the outward normal `(point - center) / radius`.
pub open spec fn hit_record_s(s: Sphere, r: Ray, t: int) -> HitRecord {
    let p = ray_at_s(r, t);
    HitRecord {
        t: t as i64,
        p,
        normal: v3(
            fxdiv(p.x - s.center.x, s.radius as int),
            fxdiv(p.y - s.center.y, s.radius as int),
            fxdiv(p.z - s.center.z, s.radius as int),
        ),
        material: s.material,
    }
}

/// What `Sphere::hit` returns.
pub open spec fn sphere_hit_s(s: Sphere, r: Ray, t_min: int, t_max: int) -> Option<HitRecord> {
    match sphere_hit_t(s, r, t_min, t_max) {
        Some(t) => Some(hit_record_s(s, r, t)),
        None => None,
    }
}

/// A product of bounded factors is bounded by the product of the bounds.
pub proof fn lemma_prod_bound(a: int, b: int, p: int, q: int)
    requires
        0 <= p,
        0 <= q,
        mag(a) <= p,
        mag(b) <= q,
    ensures
        mag(a * b) <= p * q,
{
    assert(-(p * q) <= a * b <= p * q) by (nonlinear_arith)
        requires
            -p <= a <= p && -q <= b <= q && 0 <= p && 0 <= q,
    ;
}

impl Sphere {
    pub fn new(center: Vec3, radius: i64, material: MaterialKind) -> (s: Sphere)
        ensures
            s == (Sphere { center, radius, material }),
    {
        Sphere { center, radius, material }
    }

    /// Build the record for a hit at parameter `t`.
    pub fn hit_record(&self, ray: &Ray, t: i64) -> (rec: HitRecord)
        requires
            sphere_wf(*self),
            in_range(ray.origin, CMAX as int),
            in_range(ray.direction, CMAX as int),
            mag(t as int) <= CMAX as int,
        ensures
            rec == hit_record_s(*self, *ray, t as int),
    {
        proof {
            lemma_fxmul_bound(t as int, ray.direction.x as int, CMAX as int, CMAX as int);
            lemma_fxmul_bound(t as int, ray.direction.y as int, CMAX as int, CMAX as int);
            lemma_fxmul_bound(t as int, ray.direction.z as int, CMAX as int, CMAX as int);
        }
        let p: Vec3 = ray.point_at_parameter(t);
        proof {
            lemma_tdiv_bound(
                (p.x - self.center.x) * (SCALE as int),
                self.radius as int,
                0x1000000000000000,
            );
            lemma_tdiv_bound(
                (p.y - self.center.y) * (SCALE as int),
                self.radius as int,
                0x1000000000000000,
            );
            lemma_tdiv_bound(
                (p.z - self.center.z) * (SCALE as int),
                self.radius as int,
                0x1000000000000000,
            );
        }
        let normal: Vec3 = Vec3 {
            x: fx_div(p.x - self.center.x, self.radius),
            y: fx_div(p.y - self.center.y, self.radius),
            z: fx_div(p.z - self.center.z, self.radius),
        };
        HitRecord::new(t, p, normal, self.material)
    }
}

impl HitTable for Sphere {
    open spec fn wf(&self) -> bool {
        sphere_wf(*self)
    }

    /// Solve `|origin + t*direction - center|^2 = radius^2` and return
    /// the first root in ascending order strictly inside
    /// `(t_min, t_max)`.
    fn hit(&self, r: &Ray, t_min: i64, t_max: i64) -> (res: Option<HitRecord>)
        ensures
            res == sphere_hit_s(*self, *r, t_min as int, t_max as int),
    {
        let ocx: i64 = r.origin.x - self.center.x;
        let ocy: i64 = r.origin.y - self.center.y;
        let ocz: i64 = r.origin.z - self.center.z;
        let dx: i64 = r.direction.x;
        let dy: i64 = r.direction.y;
        let dz: i64 = r.direction.z;
        proof {
            lemma_prod_bound(dx as int, dx as int, CMAX as int, CMAX as int);
            lemma_prod_bound(dy as int, dy as int, CMAX as int, CMAX as int);
            lemma_prod_bound(dz as int, dz as int, CMAX as int, CMAX as int);
            lemma_prod_bound(ocx as int, dx as int, 2 * CMAX as int, CMAX as int);
            lemma_prod_bound(ocy as int, dy as int, 2 * CMAX as int, CMAX as int);
            lemma_prod_bound(ocz as int, dz as int, 2 * CMAX as int, CMAX as int);
            lemma_prod_bound(ocx as int, ocx as int, 2 * CMAX as int, 2 * CMAX as int);
            lemma_prod_bound(ocy as int, ocy as int, 2 * CMAX as int, 2 * CMAX as int);
            lemma_prod_bound(ocz as int, ocz as int, 2 * CMAX as int, 2 * CMAX as int);
            lemma_prod_bound(self.radius as int, self.radius as int, CMAX as int, CMAX as int);
        }
        let a: i128 = mul_i64(dx, dx) + mul_i64(dy, dy) + mul_i64(dz, dz);
        let hb: i128 = mul_i64(ocx, dx) + mul_i64(ocy, dy) + mul_i64(ocz, dz);
        let c: i128 = mul_i64(ocx, ocx) + mul_i64(ocy, ocy) + mul_i64(ocz, ocz) - mul_i64(
            self.radius,
            self.radius,
        );
        proof {
            assert(a == quad_a(*r));
            assert(hb == quad_hb(*self, *r));
            assert(c == quad_c(*self, *r));
            assert(dx as int * dx as int >= 0) by (nonlinear_arith);
            assert(dy as int * dy as int >= 0) by (nonlinear_arith);
            assert(dz as int * dz as int >= 0) by (nonlinear_arith);
        }
        if a == 0 {
            return None;
        }
        proof {
            lemma_prod_bound(hb as int, hb as int, 0x1800000000000000, 0x1800000000000000);
            lemma_prod_bound(a as int, c as int, 0xc00000000000000, 0x4000000000000000);
        }
        let disc: i128 = hb * hb - a * c;
        if disc <= 0 {
            return None;
        }
        let sd_u: u128 = isqrt_u128(disc as u128);
        proof {
            assert((sd_u as int) * (sd_u as int) <= disc as int);
            assert(sd_u < 0x8000000000000000) by (nonlinear_arith)
                requires
                    0 <= sd_u as int && (sd_u as int) * (sd_u as int) <= disc as int && (
                    disc as int) < 0x40000000000000000000000000000000,
            ;
            lemma_sqrt_floor_is_sqrt(disc as int, sd_u as int);
        }
        let sd: i128 = sd_u as i128;
        let root1: i128 = tdiv_i128((-hb - sd) * 65536, a);
        if (t_min as i128) < root1 && root1 < (t_max as i128) {
            let t: i64 = root1 as i64;
            return Some(self.hit_record(r, t));
        }
        let root2: i128 = tdiv_i128((-hb + sd) * 65536, a);
        if (t_min as i128) < root2 && root2 < (t_max as i128) {
            let t: i64 = root2 as i64;
            return Some(self.hit_record(r, t));
        }
        None
    }
}

} // verus!
