//! The camera derivation and the generated demo scene.

use raytracer_in_a_weekend::camera::tan_approx;
use raytracer_in_a_weekend::sampling::{rand_fx, rand_in_unit_sphere};
use raytracer_in_a_weekend::vec3::sq_len;
use raytracer_in_a_weekend::{
    gen_world, Camera, Dielectric, Lambertian, MaterialKind, Metal, Pixel, Vec3, HALF, ONE,
};

#[test]
fn tangent_polynomial_values() {
    assert_eq!(tan_approx(0), 0);
    // At pi/4 the polynomial gives 0.9966 (65314 of 65536).
    assert_eq!(tan_approx(51471), 65314);
}

#[test]
fn camera_basis_for_the_demo_view() {
    // Eye at the origin looking down -z with a 90 degree field of view
    // and a 2:1 aspect: the derived vectors are exact.
    let origin = Vec3::new(0, 0, 0);
    let look_at = Vec3::new(0, 0, -ONE);
    let up = Vec3::new(0, ONE, 0);
    assert!(Camera::basis_ok(&origin, &look_at, &up));
    let cam = Camera::new(origin, look_at, up, 90 * ONE, 2 * ONE);
    assert!(cam.is_wf());
    assert_eq!(cam.origin, Vec3::new(0, 0, 0));
    assert_eq!(cam.horizontal, Vec3::new(261256, 0, 0));
    assert_eq!(cam.vertical, Vec3::new(0, 130628, 0));
    assert_eq!(cam.lower_left_corner, Vec3::new(-130628, -65314, -ONE));
}

#[test]
fn camera_center_ray_points_down_the_view_axis() {
    let cam = Camera::new(
        Vec3::new(0, 0, 0),
        Vec3::new(0, 0, -ONE),
        Vec3::new(0, ONE, 0),
        90 * ONE,
        2 * ONE,
    );
    let r = cam.ray(HALF, HALF);
    assert_eq!(*r.origin(), Vec3::new(0, 0, 0));
    assert_eq!(*r.direction(), Vec3::new(0, 0, -ONE));
}

#[test]
fn degenerate_camera_basis_is_rejected() {
    let p = Vec3::new(ONE, 2 * ONE, 3 * ONE);
    let up = Vec3::new(0, ONE, 0);
    // Eye and target coincide: no view direction.
    assert!(!Camera::basis_ok(&p, &p, &up));
    // Up parallel to the view direction: no horizontal axis.
    let eye = Vec3::new(0, 5 * ONE, 0);
    let target = Vec3::new(0, 0, 0);
    assert!(!Camera::basis_ok(&eye, &target, &up));
}

#[test]
fn generated_world_has_the_documented_shape() {
    let world = gen_world();
    assert_eq!(world.list.len(), 488);
    let ground = &world.list[0];
    assert_eq!(ground.center, Vec3::new(0, -65536000, 0));
    assert_eq!(ground.radius, 65536000);
    assert_eq!(
        ground.material,
        MaterialKind::Lambertian(Lambertian::new(Vec3::new(HALF, HALF, HALF)))
    );
    assert_eq!(
        world.list[485],
        raytracer_in_a_weekend::Sphere::new(
            Vec3::new(0, ONE, 0),
            ONE,
            MaterialKind::Dielectric(Dielectric::new(98304)),
        )
    );
    assert_eq!(
        world.list[486],
        raytracer_in_a_weekend::Sphere::new(
            Vec3::new(-4 * ONE, ONE, 0),
            ONE,
            MaterialKind::Lambertian(Lambertian::new(Vec3::new(26214, 13107, 6554))),
        )
    );
    assert_eq!(
        world.list[487],
        raytracer_in_a_weekend::Sphere::new(
            Vec3::new(4 * ONE, ONE, 0),
            ONE,
            MaterialKind::Metal(Metal::new(Vec3::new(45875, 39322, 32768), 0)),
        )
    );
    for s in &world.list[1..485] {
        assert_eq!(s.radius, 13107);
        assert_eq!(s.center.y, 13107);
        assert!(s.center.x.abs() <= 11 * ONE);
        assert!(s.center.z.abs() <= 11 * ONE);
        match s.material {
            MaterialKind::Lambertian(l) => {
                assert!(0 <= l.albedo.x && l.albedo.x <= ONE);
                assert!(0 <= l.albedo.y && l.albedo.y <= ONE);
                assert!(0 <= l.albedo.z && l.albedo.z <= ONE);
            }
            MaterialKind::Metal(m) => {
                assert!(HALF <= m.albedo.x && m.albedo.x <= ONE);
                assert!(0 <= m.fuzz && m.fuzz <= HALF);
            }
            MaterialKind::Dielectric(d) => {
                assert_eq!(d.refractive_index, 98304);
            }
        }
    }
}

#[test]
fn random_draws_stay_in_their_ranges() {
    for _ in 0..200 {
        let r = rand_fx();
        assert!((0..ONE).contains(&r));
        let p = rand_in_unit_sphere();
        assert!(sq_len(&p) < ONE);
        assert!(p.x.abs() <= ONE && p.y.abs() <= ONE && p.z.abs() <= ONE);
    }
}

#[test]
fn default_pixel_is_black() {
    let p = Pixel::default();
    assert_eq!(p, Pixel { r: 0, g: 0, b: 0 });
}
