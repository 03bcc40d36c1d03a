//! Scattering behavior of the three materials on exact inputs.

use raytracer_in_a_weekend::material::reflect;
use raytracer_in_a_weekend::{
    Dielectric, HitRecord, Lambertian, Material, MaterialKind, Metal, Ray, ScatterRand, Vec3, ONE,
};

fn zero_rand() -> ScatterRand {
    ScatterRand { unit_ball: Vec3::new(0, 0, 0), coin: 0 }
}

fn front_hit(material: MaterialKind) -> HitRecord {
    HitRecord::new(ONE, Vec3::new(0, 0, -ONE), Vec3::new(0, 0, ONE), material)
}

#[test]
fn lambertian_never_absorbs_and_keeps_albedo() {
    let albedo = Vec3::new(13107, 26214, 39321);
    let l = Lambertian::new(albedo);
    let rec = front_hit(MaterialKind::Lambertian(l));
    let r = Ray::new(Vec3::new(0, 0, 0), Vec3::new(0, 0, -ONE));
    let sr = ScatterRand { unit_ball: Vec3::new(100, -200, 300), coin: 0 };
    let (att, scattered) = l.scatter(&r, &rec, &sr).unwrap();
    assert_eq!(att, albedo);
    assert_eq!(*scattered.origin(), Vec3::new(0, 0, -ONE));
    // Direction is exactly normal + unit-ball sample.
    assert_eq!(*scattered.direction(), Vec3::new(100, -200, ONE + 300));
}

#[test]
fn mirror_reflection_is_exact() {
    // reflect(v, n) = v - 2 (v.n) n, with v exactly opposite the normal.
    let reflected = reflect(&Vec3::new(0, 0, -ONE), &Vec3::new(0, 0, ONE));
    assert_eq!(reflected, Vec3::new(0, 0, ONE));
    // A grazing case: v = (1, -1, 0)/|.|-free exact form against n = y.
    let r2 = reflect(&Vec3::new(ONE, -ONE, 0), &Vec3::new(0, ONE, 0));
    assert_eq!(r2, Vec3::new(ONE, ONE, 0));
}

#[test]
fn metal_mirrors_head_on_rays() {
    let albedo = Vec3::new(45875, 39322, 32768);
    let m = Metal::new(albedo, 0);
    let rec = front_hit(MaterialKind::Metal(m));
    let r = Ray::new(Vec3::new(0, 0, 0), Vec3::new(0, 0, -ONE));
    let (att, scattered) = m.scatter(&r, &rec, &zero_rand()).unwrap();
    assert_eq!(att, albedo);
    assert_eq!(*scattered.direction(), Vec3::new(0, 0, ONE));
    assert_eq!(*scattered.origin(), Vec3::new(0, 0, -ONE));
}

#[test]
fn metal_absorbs_rays_leaving_under_the_surface() {
    // The mirrored direction points against the normal: absorbed.
    let m = Metal::new(Vec3::new(ONE, ONE, ONE), 0);
    let rec = HitRecord::new(
        ONE,
        Vec3::new(0, 0, -ONE),
        Vec3::new(0, 0, -ONE),
        MaterialKind::Metal(m),
    );
    let r = Ray::new(Vec3::new(0, 0, 0), Vec3::new(0, 0, -ONE));
    assert!(m.scatter(&r, &rec, &zero_rand()).is_none());
}

#[test]
fn dielectric_reflects_on_the_reflectance_coin() {
    // Head-on at glass: the Schlick probability is about 0.04; a coin
    // below it reflects.
    let d = Dielectric::new(98304);
    let rec = front_hit(MaterialKind::Dielectric(d));
    let r = Ray::new(Vec3::new(0, 0, 0), Vec3::new(0, 0, -ONE));
    let sr = ScatterRand { unit_ball: Vec3::new(0, 0, 0), coin: 0 };
    let (att, scattered) = d.scatter(&r, &rec, &sr).unwrap();
    assert_eq!(att, Vec3::new(ONE, ONE, ONE));
    assert_eq!(*scattered.direction(), Vec3::new(0, 0, ONE));
}

#[test]
fn dielectric_refracts_head_on_rays_through() {
    // A head-on ray refracts straight through once the coin clears the
    // reflectance.
    let d = Dielectric::new(98304);
    let rec = front_hit(MaterialKind::Dielectric(d));
    let r = Ray::new(Vec3::new(0, 0, 0), Vec3::new(0, 0, -ONE));
    let sr = ScatterRand { unit_ball: Vec3::new(0, 0, 0), coin: 30000 };
    let (att, scattered) = d.scatter(&r, &rec, &sr).unwrap();
    assert_eq!(att, Vec3::new(ONE, ONE, ONE));
    assert_eq!(*scattered.direction(), Vec3::new(0, 0, -ONE));
    assert_eq!(*scattered.origin(), Vec3::new(0, 0, -ONE));
}

#[test]
fn dielectric_total_internal_reflection() {
    // A ray leaving glass at a shallow angle (cos 0.6 against the inner
    // face) exceeds the critical angle and must reflect, whatever the
    // reflectance coin says.
    let d = Dielectric::new(98304);
    let rec = HitRecord::new(
        ONE,
        Vec3::new(0, 0, 0),
        Vec3::new(0, 0, ONE),
        MaterialKind::Dielectric(d),
    );
    let r = Ray::new(Vec3::new(0, 0, -ONE), Vec3::new(4 * ONE, 0, 3 * ONE));
    let sr = ScatterRand { unit_ball: Vec3::new(0, 0, 0), coin: 65535 };
    let (att, scattered) = d.scatter(&r, &rec, &sr).unwrap();
    assert_eq!(att, Vec3::new(ONE, ONE, ONE));
    // The unit direction (52428, 0, 39321) mirrors through the boundary.
    assert_eq!(*scattered.direction(), Vec3::new(52428, 0, -39321));
}

#[test]
fn fuzzed_metal_renormalizes_the_perturbed_mirror() {
    // With a zero perturbation sample the fuzz branch still runs: the
    // mirror direction is renormalized, which fixes it here exactly.
    let m = Metal::new(Vec3::new(ONE, ONE, ONE), 32768);
    let rec = front_hit(MaterialKind::Metal(m));
    let r = Ray::new(Vec3::new(0, 0, 0), Vec3::new(0, 0, -ONE));
    let (_, scattered) = m.scatter(&r, &rec, &zero_rand()).unwrap();
    assert_eq!(*scattered.direction(), Vec3::new(0, 0, ONE));
}

#[test]
fn dielectric_never_absorbs() {
    let d = Dielectric::new(98304);
    let rec = front_hit(MaterialKind::Dielectric(d));
    let r = Ray::new(Vec3::new(0, 0, 0), Vec3::new(0, 0, -ONE));
    for coin in [0i64, 1000, 10000, 65535] {
        let sr = ScatterRand { unit_ball: Vec3::new(0, 0, 0), coin };
        assert!(d.scatter(&r, &rec, &sr).is_some());
    }
}

#[test]
fn material_kind_dispatches_to_the_variant() {
    let albedo = Vec3::new(13107, 26214, 39321);
    let kind = MaterialKind::Lambertian(Lambertian::new(albedo));
    let rec = front_hit(kind);
    let r = Ray::new(Vec3::new(0, 0, 0), Vec3::new(0, 0, -ONE));
    let (att, _) = kind.scatter(&r, &rec, &zero_rand()).unwrap();
    assert_eq!(att, albedo);
}
