//! Sphere intersection and scene-aggregate behavior on exact inputs.

use raytracer_in_a_weekend::vec3::{dot3, sub3, unit3};
use raytracer_in_a_weekend::{
    HitRecord, HitTable, HitTableList, Lambertian, MaterialKind, Ray, Sphere, Vec3, CMAX, HALF,
    ONE,
};

fn gray() -> MaterialKind {
    MaterialKind::Lambertian(Lambertian::new(Vec3::new(HALF, HALF, HALF)))
}

fn tinted(x: i64) -> MaterialKind {
    MaterialKind::Lambertian(Lambertian::new(Vec3::new(x, x, x)))
}

#[test]
fn surface_ray_outward_misses() {
    // Origin exactly on the unit sphere, pointing away from the center:
    // no hit on any positive interval.
    let s = Sphere::new(Vec3::new(0, 0, 0), ONE, gray());
    let r = Ray::new(Vec3::new(0, 0, -ONE), Vec3::new(0, 0, -ONE));
    assert!(s.hit(&r, 0, CMAX).is_none());
    assert!(s.hit(&r, 1, CMAX).is_none());
}

#[test]
fn surface_ray_inward_enters_and_exits() {
    // Origin on the surface pointing at the center: entry at exactly 0
    // (visible once t_min goes below zero), exit at exactly the
    // diameter.
    let s = Sphere::new(Vec3::new(0, 0, 0), ONE, gray());
    let r = Ray::new(Vec3::new(0, 0, -ONE), Vec3::new(0, 0, ONE));
    let entry = s.hit(&r, -CMAX, CMAX).unwrap();
    assert_eq!(entry.get_t(), 0);
    let exit = s.hit(&r, 1, CMAX).unwrap();
    assert_eq!(exit.get_t(), 2 * ONE);
}

#[test]
fn hit_record_fields_are_exact() {
    // A ray from the origin toward a sphere half a unit behind the
    // image plane: hit parameter, point and outward normal are exact.
    let s = Sphere::new(Vec3::new(0, 0, -3 * ONE), HALF, tinted(13107));
    let r = Ray::new(Vec3::new(0, 0, 0), Vec3::new(0, 0, -ONE));
    let rec = s.hit(&r, 65, CMAX).unwrap();
    assert_eq!(rec.get_t(), 163840);
    assert_eq!(*rec.get_p(), Vec3::new(0, 0, -163840));
    assert_eq!(*rec.get_normal(), Vec3::new(0, 0, ONE));
    assert_eq!(*rec.get_material(), tinted(13107));
}

#[test]
fn aggregate_single_hit_is_order_independent() {
    // Three spheres, only the middle one on the ray: both insertion
    // orders return the same record.
    let a = Sphere::new(Vec3::new(5 * ONE, 0, 0), HALF, tinted(100));
    let b = Sphere::new(Vec3::new(0, 0, -3 * ONE), HALF, tinted(200));
    let c = Sphere::new(Vec3::new(-5 * ONE, 0, 0), HALF, tinted(300));
    let r = Ray::new(Vec3::new(0, 0, 0), Vec3::new(0, 0, -ONE));

    let mut w1 = HitTableList::new();
    w1.add(a);
    w1.add(b);
    w1.add(c);
    let h1 = w1.hit(&r, 65, CMAX).unwrap();

    let mut w2 = HitTableList::new();
    w2.add(c);
    w2.add(a);
    w2.add(b);
    let h2 = w2.hit(&r, 65, CMAX).unwrap();

    assert_eq!(h1, h2);
    assert_eq!(h1.get_t(), 163840);
    assert_eq!(*h1.get_material(), tinted(200));
}

#[test]
fn aggregate_overlapping_returns_strictly_closer() {
    // Two overlapping spheres on the ray; the nearer entry point wins
    // in either insertion order.
    let near = Sphere::new(Vec3::new(0, 0, -2 * ONE), ONE, tinted(111));
    let far = Sphere::new(Vec3::new(0, 0, -2 * ONE - HALF), ONE, tinted(222));
    let r = Ray::new(Vec3::new(0, 0, 0), Vec3::new(0, 0, -ONE));

    let mut w1 = HitTableList::new();
    w1.add(near);
    w1.add(far);
    let h1 = w1.hit(&r, 65, CMAX).unwrap();
    assert_eq!(h1.get_t(), ONE);
    assert_eq!(*h1.get_material(), tinted(111));

    let mut w2 = HitTableList::new();
    w2.add(far);
    w2.add(near);
    let h2 = w2.hit(&r, 65, CMAX).unwrap();
    assert_eq!(h2.get_t(), ONE);
    assert_eq!(*h2.get_material(), tinted(111));
}

#[test]
fn aggregate_exact_tie_first_inserted_wins() {
    // Identical geometry, different materials: the tie goes to the
    // first-inserted primitive.
    let first = Sphere::new(Vec3::new(0, 0, -2 * ONE), ONE, tinted(111));
    let second = Sphere::new(Vec3::new(0, 0, -2 * ONE), ONE, tinted(222));
    let r = Ray::new(Vec3::new(0, 0, 0), Vec3::new(0, 0, -ONE));

    let mut w1 = HitTableList::new();
    w1.add(first);
    w1.add(second);
    assert_eq!(*w1.hit(&r, 65, CMAX).unwrap().get_material(), tinted(111));

    let mut w2 = HitTableList::new();
    w2.add(second);
    w2.add(first);
    assert_eq!(*w2.hit(&r, 65, CMAX).unwrap().get_material(), tinted(222));
}

#[test]
fn empty_aggregate_reports_nothing() {
    let w = HitTableList::new();
    let r = Ray::new(Vec3::new(0, 0, 0), Vec3::new(0, 0, -ONE));
    assert!(w.hit(&r, 65, CMAX).is_none());
}

#[test]
fn record_accessors_and_setters() {
    let mut rec = HitRecord::new(7, Vec3::new(1, 2, 3), Vec3::new(0, ONE, 0), gray());
    assert_eq!(rec.get_t(), 7);
    rec.set_t(9);
    assert_eq!(rec.get_t(), 9);
    rec.set_p(Vec3::new(4, 5, 6));
    assert_eq!(*rec.get_p(), Vec3::new(4, 5, 6));
    rec.set_normal(Vec3::new(ONE, 0, 0));
    assert_eq!(*rec.get_normal(), Vec3::new(ONE, 0, 0));
}

#[test]
fn vector_operations_exact() {
    let v = Vec3::new(3 * ONE, 4 * ONE, 0);
    let u = unit3(&v);
    assert_eq!(u, Vec3::new(39321, 52428, 0));
    assert_eq!(dot3(&v, &v), 25 * ONE);
    assert_eq!(sub3(&v, &v), Vec3::new(0, 0, 0));
}

#[test]
fn point_at_parameter_is_exact() {
    let r = Ray::new(Vec3::new(ONE, 0, -ONE), Vec3::new(0, 0, -2 * ONE));
    assert_eq!(r.point_at_parameter(0), Vec3::new(ONE, 0, -ONE));
    assert_eq!(r.point_at_parameter(HALF), Vec3::new(ONE, 0, -2 * ONE));
    assert_eq!(r.point_at_parameter(-HALF), Vec3::new(ONE, 0, 0));
}

#[test]
fn degenerate_direction_hits_nothing() {
    let s = Sphere::new(Vec3::new(0, 0, -2 * ONE), ONE, gray());
    let r = Ray::new(Vec3::new(0, 0, 0), Vec3::new(0, 0, 0));
    assert!(s.hit(&r, 65, CMAX).is_none());
}
