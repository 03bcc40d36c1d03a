//! Surface materials: diffuse (Lambertian), reflective (Metal) and
//! refractive (Dielectric), plus the closed sum of the three that the
//! scene stores.
//!
//! Scattering is a pure function of the incoming ray, the hit record and
//! one bounce's worth of pre-drawn randomness (a [`ScatterRand`]), so
//! each variant's behavior is pinned down exactly by its spec twin.

use crate::fixed::{
    fx_div, fx_mul, fx_sqrt, fxdiv, fxmul, i64_fits, lemma_fxmul_bound, lemma_fxmul_unit,
    lemma_sqrt_le, lemma_tdiv_bound, mag, sqrt_floor, CMAX, ONE, SCALE,
};
use crate::hit_table::HitRecord;
use crate::ray::Ray;
use crate::vec3::{
    add3, add3_s, dot3, dot3_s, in_range, lemma_dot3_fits, lemma_sq_len_nonneg, lemma_unit3_range,
    neg3, neg3_s, scale3, scale3_s, sq_len, sq_len_s, sub3, sub3_s, unit3, unit3_s, v3, Vec3,
};
use vstd::prelude::*;

verus! {

/// One bounce's worth of randomness: a point inside the unit sphere and
/// a coin in `[0, 1)`.  Drawing it ahead of the bounce keeps scattering
/// itself deterministic.
#[derive(Clone, Copy, Debug, PartialEq, Eq, Structural)]
pub struct ScatterRand {
    pub unit_ball: Vec3,
    pub coin: i64,
}

pub open spec fn scatter_rand_wf(sr: ScatterRand) -> bool {
    &&& in_range(sr.unit_ball, ONE as int)
    &&& sq_len_s(sr.unit_ball) < ONE as int
    &&& 0 <= sr.coin < ONE
}

/// What every scatter routine needs of its inputs: an incoming direction
/// that is in coordinate range and long enough to normalize, a hit point
/// in coordinate range, a normal of roughly unit size, and well-formed
/// randomness.
pub open spec fn scatter_input_wf(r: Ray, rec: HitRecord, sr: ScatterRand) -> bool {
    &&& in_range(r.direction, CMAX as int)
    &&& sq_len_s(r.direction) >= 1
    &&& in_range(rec.p, CMAX as int)
    &&& in_range(rec.normal, 2 * ONE as int)
    &&& scatter_rand_wf(sr)
}

/// The scattering capability: an attenuation color and a scattered ray,
/// or none when the surface absorbs the ray.
pub trait Material {
    spec fn wf(&self) -> bool;

    fn scatter(&self, r: &Ray, rec: &HitRecord, sr: &ScatterRand) -> (res: Option<(Vec3, Ray)>)
        requires
            self.wf(),
            scatter_input_wf(*r, *rec, *sr),
    ;
}

/// A diffuse surface: scattered rays leave toward a random point near
/// the surface normal, attenuated by `albedo`.
#[derive(Clone, Copy, Debug, PartialEq, Eq, Structural)]
pub struct Lambertian {
    pub albedo: Vec3,
}

impl Lambertian {
    pub fn new(albedo: Vec3) -> (m: Lambertian)
        ensures
            m == (Lambertian { albedo }),
    {
        Lambertian { albedo }
    }
}

/// Diffuse scattering: always some, attenuated by exactly the albedo,
/// toward `normal + random point in the unit ball`.
pub open spec fn lambertian_scatter_s(m: Lambertian, rec: HitRecord, sr: ScatterRand) -> Option<
    (Vec3, Ray),
> {
    Some((m.albedo, Ray { origin: rec.p, direction: add3_s(rec.normal, sr.unit_ball) }))
}

impl Material for Lambertian {
    open spec fn wf(&self) -> bool {
        color_in_unit(self.albedo)
    }

    fn scatter(&self, r: &Ray, rec: &HitRecord, sr: &ScatterRand) -> (res: Option<(Vec3, Ray)>)
        ensures
            res == lambertian_scatter_s(*self, *rec, *sr),
    {
        let target: Vec3 = add3(&add3(&rec.p, &rec.normal), &sr.unit_ball);
        let scattered: Ray = Ray::new(rec.p, sub3(&target, &rec.p));
        Some((self.albedo, scattered))
    }
}

/// A reflective surface: rays mirror about the normal, roughened by
/// `fuzz` (a fixed-point factor below one).
#[derive(Clone, Copy, Debug, PartialEq, Eq, Structural)]
pub struct Metal {
    pub albedo: Vec3,
    pub fuzz: i64,
}

impl Metal {
    pub fn new(albedo: Vec3, fuzz: i64) -> (m: Metal)
        ensures
            m == (Metal { albedo, fuzz }),
    {
        Metal { albedo, fuzz }
    }
}

/// Mirror reflection about a normal: `v - 2 (v . n) n`.
pub open spec fn reflect_s(v: Vec3, n: Vec3) -> Vec3 {
    sub3_s(v, scale3_s(2 * dot3_s(v, n), n))
}

pub fn reflect(v: &Vec3, n: &Vec3) -> (r: Vec3)
    requires
        in_range(*v, 0x2000000000),
        in_range(*n, 2 * ONE as int),
    ensures
        r == reflect_s(*v, *n),
{
    proof {
        lemma_dot3_fits(*v, *n, 0x2000000000, 2 * ONE as int);
        lemma_fxmul_bound(2 * dot3_s(*v, *n), n.x as int, 0x60000000000, 2 * ONE as int);
        lemma_fxmul_bound(2 * dot3_s(*v, *n), n.y as int, 0x60000000000, 2 * ONE as int);
        lemma_fxmul_bound(2 * dot3_s(*v, *n), n.z as int, 0x60000000000, 2 * ONE as int);
    }
    let d: i64 = dot3(v, n);
    sub3(v, &scale3(2 * d, n))
}

/// Component magnitude bound inside which a reflected direction is
/// taken further; a mirror of a roughly unit direction is itself roughly
/// unit, so real scattering never trips this fixed-point guard.
pub const RMAX: i64 = 1048576;

/// Metal scattering: mirror the normalized incoming direction, roughen
/// it by `fuzz` times the random unit-ball point (renormalizing after),
/// and absorb rays that end up under the surface.
pub open spec fn metal_scatter_s(m: Metal, r: Ray, rec: HitRecord, sr: ScatterRand) -> Option<
    (Vec3, Ray),
> {
    let u = unit3_s(r.direction);
    let reflected = reflect_s(u, rec.normal);
    if !in_range(reflected, RMAX as int) {
        None
    } else if m.fuzz > 0 {
        let perturbed = add3_s(reflected, scale3_s(m.fuzz as int, sr.unit_ball));
        if sq_len_s(perturbed) < 1 {
            None
        } else {
            let dir = unit3_s(perturbed);
            if dot3_s(dir, rec.normal) > 0 {
                Some((m.albedo, Ray { origin: rec.p, direction: dir }))
            } else {
                None
            }
        }
    } else {
        if dot3_s(reflected, rec.normal) > 0 {
            Some((m.albedo, Ray { origin: rec.p, direction: reflected }))
        } else {
            None
        }
    }
}

impl Material for Metal {
    open spec fn wf(&self) -> bool {
        color_in_unit(self.albedo) && 0 <= self.fuzz < ONE
    }

    fn scatter(&self, r: &Ray, rec: &HitRecord, sr: &ScatterRand) -> (res: Option<(Vec3, Ray)>)
        ensures
            res == metal_scatter_s(*self, *r, *rec, *sr),
    {
        let u: Vec3 = unit3(&r.direction);
        let reflected: Vec3 = reflect(&u, &rec.normal);
        if !(-RMAX <= reflected.x && reflected.x <= RMAX && -RMAX <= reflected.y && reflected.y
            <= RMAX && -RMAX <= reflected.z && reflected.z <= RMAX) {
            return None;
        }
        let dir: Vec3 = if self.fuzz > 0 {
            proof {
                lemma_fxmul_bound(self.fuzz as int, sr.unit_ball.x as int, ONE as int, ONE as int);
                lemma_fxmul_bound(self.fuzz as int, sr.unit_ball.y as int, ONE as int, ONE as int);
                lemma_fxmul_bound(self.fuzz as int, sr.unit_ball.z as int, ONE as int, ONE as int);
            }
            let perturbed: Vec3 = add3(&reflected, &scale3(self.fuzz, &sr.unit_ball));
            let sq: i64 = sq_len(&perturbed);
            if sq < 1 {
                return None;
            }
            unit3(&perturbed)
        } else {
            reflected
        };
        proof {
            lemma_dot3_fits(dir, rec.normal, 0x2000000000, 2 * ONE as int);
        }
        if dot3(&dir, &rec.normal) > 0 {
            Some((self.albedo, Ray::new(rec.p, dir)))
        } else {
            None
        }
    }
}

/// A clear refractive boundary with the given fixed-point index of
/// refraction.
#[derive(Clone, Copy, Debug, PartialEq, Eq, Structural)]
pub struct Dielectric {
    pub refractive_index: i64,
}

impl Dielectric {
    pub fn new(refractive_index: i64) -> (m: Dielectric)
        ensures
            m == (Dielectric { refractive_index }),
    {
        Dielectric { refractive_index }
    }
}

/// Clamp a fixed-point scalar into `[0, 1]`.
pub open spec fn clamp_unit_s(x: int) -> int {
    if x < 0 {
        0
    } else if x > ONE as int {
        ONE as int
    } else {
        x
    }
}

/// Fifth power of a fixed-point scalar.
pub open spec fn pow5_s(x: int) -> int {
    fxmul(x, fxmul(x, fxmul(x, fxmul(x, x))))
}

/// The Schlick reflectance approximation
/// `r0 + (1 - r0) (1 - cos)^5` with `r0 = ((eta - 1) / (eta + 1))^2`.
pub open spec fn schlick_s(cos: int, eta: int) -> int {
    let r0s = fxdiv(eta - ONE as int, eta + ONE as int);
    let r0 = fxmul(r0s, r0s);
    r0 + fxmul(ONE as int - r0, pow5_s(ONE as int - cos))
}

/// Dielectric scattering per Snell's law with the Schlick reflectance:
/// attenuation is always pure white; the boundary reflects on total
/// internal reflection or a reflectance coin draw, and refracts
/// otherwise.  The two `in_range`/clamp guards only catch fixed-point
/// escapes that exact arithmetic could not produce.
pub open spec fn dielectric_scatter_s(m: Dielectric, r: Ray, rec: HitRecord, sr: ScatterRand) -> Option<
    (Vec3, Ray),
> {
    let white = v3(ONE as int, ONE as int, ONE as int);
    let u = unit3_s(r.direction);
    let front = dot3_s(u, rec.normal) < 0;
    let n_eff = if front {
        rec.normal
    } else {
        neg3_s(rec.normal)
    };
    let cos = clamp_unit_s(-dot3_s(u, n_eff));
    let ratio = if front {
        fxdiv(ONE as int, m.refractive_index as int)
    } else {
        m.refractive_index as int
    };
    let sin2t = fxmul(fxmul(ratio, ratio), ONE as int - fxmul(cos, cos));
    if sin2t > ONE as int || sr.coin < schlick_s(cos, m.refractive_index as int) {
        Some((white, Ray { origin: rec.p, direction: reflect_s(u, n_eff) }))
    } else {
        let r_perp = scale3_s(ratio, add3_s(u, scale3_s(cos, n_eff)));
        if !in_range(r_perp, RMAX as int) {
            Some((white, Ray { origin: rec.p, direction: reflect_s(u, n_eff) }))
        } else {
            let k = sq_len_s(r_perp);
            let kc = if k > ONE as int {
                0
            } else {
                ONE as int - k
            };
            let dir = sub3_s(r_perp, scale3_s(sqrt_floor(kc * (SCALE as int)), n_eff));
            Some((white, Ray { origin: rec.p, direction: dir }))
        }
    }
}

impl Material for Dielectric {
    open spec fn wf(&self) -> bool {
        ONE <= self.refractive_index <= 8 * ONE
    }

    fn scatter(&self, r: &Ray, rec: &HitRecord, sr: &ScatterRand) -> (res: Option<(Vec3, Ray)>)
        ensures
            res == dielectric_scatter_s(*self, *r, *rec, *sr),
    {
        let white: Vec3 = Vec3 { x: ONE, y: ONE, z: ONE };
        let u: Vec3 = unit3(&r.direction);
        proof {
            lemma_dot3_fits(u, rec.normal, 0x2000000000, 2 * ONE as int);
            lemma_dot3_fits(u, neg3_s(rec.normal), 0x2000000000, 2 * ONE as int);
        }
        let d_n: i64 = dot3(&u, &rec.normal);
        let front: bool = d_n < 0;
        let n_eff: Vec3 = if front {
            rec.normal
        } else {
            neg3(&rec.normal)
        };
        let cos_raw: i64 = -dot3(&u, &n_eff);
        let cos: i64 = if cos_raw < 0 {
            0
        } else if cos_raw > ONE {
            ONE
        } else {
            cos_raw
        };
        let eta: i64 = self.refractive_index;
        let ratio: i64 = if front {
            proof {
                lemma_tdiv_bound(ONE as int * SCALE as int, eta as int, ONE as int);
            }
            fx_div(ONE, eta)
        } else {
            eta
        };
        proof {
            lemma_fxmul_unit(cos as int, cos as int);
            lemma_fxmul_bound(ratio as int, ratio as int, 8 * ONE as int, 8 * ONE as int);
            lemma_fxmul_bound(
                fxmul(ratio as int, ratio as int),
                ONE as int - fxmul(cos as int, cos as int),
                0x400000,
                ONE as int,
            );
        }
        let sin2t: i64 = fx_mul(fx_mul(ratio, ratio), ONE - fx_mul(cos, cos));
        let must_reflect: bool = sin2t > ONE || sr.coin < self.schlick(cos);
        if must_reflect {
            return Some((white, Ray::new(rec.p, reflect(&u, &n_eff))));
        }
        proof {
            lemma_fxmul_bound(cos as int, n_eff.x as int, ONE as int, 2 * ONE as int);
            lemma_fxmul_bound(cos as int, n_eff.y as int, ONE as int, 2 * ONE as int);
            lemma_fxmul_bound(cos as int, n_eff.z as int, ONE as int, 2 * ONE as int);
        }
        let inner: Vec3 = add3(&u, &scale3(cos, &n_eff));
        proof {
            lemma_fxmul_bound(ratio as int, inner.x as int, 8 * ONE as int, 0x2000000000 + 2 * ONE
                as int);
            lemma_fxmul_bound(ratio as int, inner.y as int, 8 * ONE as int, 0x2000000000 + 2 * ONE
                as int);
            lemma_fxmul_bound(ratio as int, inner.z as int, 8 * ONE as int, 0x2000000000 + 2 * ONE
                as int);
        }
        let r_perp: Vec3 = scale3(ratio, &inner);
        if !(-RMAX <= r_perp.x && r_perp.x <= RMAX && -RMAX <= r_perp.y && r_perp.y <= RMAX && -RMAX
            <= r_perp.z && r_perp.z <= RMAX) {
            return Some((white, Ray::new(rec.p, reflect(&u, &n_eff))));
        }
        let k: i64 = sq_len(&r_perp);
        proof {
            lemma_sq_len_nonneg(r_perp);
        }
        let kc: i64 = if k > ONE {
            0
        } else {
            ONE - k
        };
        let sq: i64 = fx_sqrt(kc);
        proof {
            lemma_sqrt_le(kc as int * SCALE as int, ONE as int);
            lemma_fxmul_bound(sq as int, n_eff.x as int, ONE as int, 2 * ONE as int);
            lemma_fxmul_bound(sq as int, n_eff.y as int, ONE as int, 2 * ONE as int);
            lemma_fxmul_bound(sq as int, n_eff.z as int, ONE as int, 2 * ONE as int);
        }
        let dir: Vec3 = sub3(&r_perp, &scale3(sq, &n_eff));
        Some((white, Ray::new(rec.p, dir)))
    }
}

impl Dielectric {
    /// The Schlick reflectance for a clamped cosine.
    fn schlick(&self, cos: i64) -> (p: i64)
        requires
            ONE <= self.refractive_index <= 8 * ONE,
            0 <= cos <= ONE,
        ensures
            p == schlick_s(cos as int, self.refractive_index as int),
            0 <= p <= 2 * ONE,
    {
        let eta: i64 = self.refractive_index;
        proof {
            lemma_tdiv_bound(
                (eta - ONE) as int * SCALE as int,
                (eta + ONE) as int,
                ONE as int,
            );
            assert(fxdiv((eta - ONE) as int, (eta + ONE) as int) >= 0) by {
                vstd::arithmetic::div_mod::lemma_div_pos_is_pos(
                    (eta - ONE) as int * SCALE as int,
                    (eta + ONE) as int,
                );
            }
        }
        let r0s: i64 = fx_div(eta - ONE, eta + ONE);
        proof {
            lemma_fxmul_unit(r0s as int, r0s as int);
        }
        let r0: i64 = fx_mul(r0s, r0s);
        let x: i64 = ONE - cos;
        proof {
            lemma_fxmul_unit(x as int, x as int);
            lemma_fxmul_unit(x as int, fxmul(x as int, x as int));
            lemma_fxmul_unit(x as int, fxmul(x as int, fxmul(x as int, x as int)));
            lemma_fxmul_unit(
                x as int,
                fxmul(x as int, fxmul(x as int, fxmul(x as int, x as int))),
            );
            lemma_fxmul_unit(
                (ONE - r0) as int,
                pow5_s(x as int),
            );
        }
        let p5: i64 = fx_mul(x, fx_mul(x, fx_mul(x, fx_mul(x, x))));
        r0 + fx_mul(ONE - r0, p5)
    }
}

/// The closed set of materials a primitive can carry.  Materials are
/// immutable values, freely copied between primitives and hit records.
#[derive(Clone, Copy, Debug, PartialEq, Eq, Structural)]
pub enum MaterialKind {
    Lambertian(Lambertian),
    Metal(Metal),
    Dielectric(Dielectric),
}

/// Every component lies in the fixed-point interval `[0, 1]`.
pub open spec fn color_in_unit(v: Vec3) -> bool {
    0 <= v.x <= ONE && 0 <= v.y <= ONE && 0 <= v.z <= ONE
}

/// Well-formed material parameters: albedos inside the unit color cube
/// (so attenuation can only dim), fuzz in `[0, 1)`, refractive index in
/// `[1, 8]`.
pub open spec fn mat_wf(m: MaterialKind) -> bool {
    match m {
        MaterialKind::Lambertian(l) => l.wf(),
        MaterialKind::Metal(mt) => mt.wf(),
        MaterialKind::Dielectric(d) => d.wf(),
    }
}

/// What scattering returns, over the whole sum of materials.
pub open spec fn scatter_s(m: MaterialKind, r: Ray, rec: HitRecord, sr: ScatterRand) -> Option<
    (Vec3, Ray),
> {
    match m {
        MaterialKind::Lambertian(l) => lambertian_scatter_s(l, rec, sr),
        MaterialKind::Metal(mt) => metal_scatter_s(mt, r, rec, sr),
        MaterialKind::Dielectric(d) => dielectric_scatter_s(d, r, rec, sr),
    }
}

impl MaterialKind {
    /// Dispatch scattering to the variant's routine.
    pub fn scatter(&self, r: &Ray, rec: &HitRecord, sr: &ScatterRand) -> (res: Option<(Vec3, Ray)>)
        requires
            mat_wf(*self),
            scatter_input_wf(*r, *rec, *sr),
        ensures
            res == scatter_s(*self, *r, *rec, *sr),
            res matches Some((att, _)) ==> color_in_unit(att),
    {
        match self {
            MaterialKind::Lambertian(l) => l.scatter(r, rec, sr),
            MaterialKind::Metal(mt) => mt.scatter(r, rec, sr),
            MaterialKind::Dielectric(d) => d.scatter(r, rec, sr),
        }
    }
}

} // verus!
