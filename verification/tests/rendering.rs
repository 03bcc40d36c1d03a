//! The radiance evaluator, the background gradient, and the per-pixel
//! sampling routine on exact inputs.

use raytracer_in_a_weekend::render::{
    background, color, pixel_u, render_pixel, render_pixel_rand, to_byte, RaySample, MAX_DEPTH,
};
use raytracer_in_a_weekend::{
    Camera, HitTableList, Lambertian, MaterialKind, Pixel, Ray, ScatterRand, Sphere, Vec3, HALF,
    ONE,
};

fn zero_bounces() -> Vec<ScatterRand> {
    let mut v = Vec::new();
    for _ in 0..MAX_DEPTH {
        v.push(ScatterRand { unit_ball: Vec3::new(0, 0, 0), coin: 0 });
    }
    v
}

fn gray() -> MaterialKind {
    MaterialKind::Lambertian(Lambertian::new(Vec3::new(HALF, HALF, HALF)))
}

#[test]
fn background_straight_up_is_sky_blue() {
    let r = Ray::new(Vec3::new(0, 0, 0), Vec3::new(0, ONE, 0));
    assert_eq!(background(&r), Vec3::new(HALF, 45875, ONE));
}

#[test]
fn background_straight_down_is_white() {
    let r = Ray::new(Vec3::new(0, 0, 0), Vec3::new(0, -ONE, 0));
    assert_eq!(background(&r), Vec3::new(ONE, ONE, ONE));
}

#[test]
fn color_of_a_miss_is_the_background() {
    let world = HitTableList::new();
    let r = Ray::new(Vec3::new(0, 0, 0), Vec3::new(0, ONE, 0));
    let samples = zero_bounces();
    assert_eq!(color(&world, &r, 0, &samples), Vec3::new(HALF, 45875, ONE));
}

#[test]
fn color_at_the_depth_cutoff_is_black() {
    // Even a scene the ray is inside contributes nothing at the cutoff.
    let mut world = HitTableList::new();
    world.add(Sphere::new(Vec3::new(0, 0, 0), 10 * ONE, gray()));
    let r = Ray::new(Vec3::new(0, 0, 0), Vec3::new(0, 0, -ONE));
    let samples = zero_bounces();
    assert_eq!(color(&world, &r, MAX_DEPTH, &samples), Vec3::new(0, 0, 0));
    assert_eq!(color(&world, &r, MAX_DEPTH + 7, &samples), Vec3::new(0, 0, 0));
}

#[test]
fn gamma_bytes_are_exact() {
    assert_eq!(to_byte(0), 0);
    assert_eq!(to_byte(ONE), 255);
    assert_eq!(to_byte(HALF), 181);
}

#[test]
fn pixel_coordinates_are_exact() {
    // (0 + 0.5) / 100 and (99 + 0.5) / 100 in fixed point.
    assert_eq!(pixel_u(0, HALF, 100), 327);
    assert_eq!(pixel_u(99, HALF, 100), 65208);
}

fn demo_camera() -> Camera {
    Camera::new(
        Vec3::new(0, 0, 0),
        Vec3::new(0, 0, -ONE),
        Vec3::new(0, ONE, 0),
        90 * ONE,
        2 * ONE,
    )
}

fn two_sphere_world() -> HitTableList {
    let mut world = HitTableList::new();
    world.add(Sphere::new(Vec3::new(0, -6586368, -ONE), 6553600, gray()));
    world.add(
        Sphere::new(
            Vec3::new(0, 0, -ONE),
            HALF,
            MaterialKind::Lambertian(Lambertian::new(Vec3::new(26214, 13107, 6554))),
        ),
    );
    world
}

fn center_plan() -> Vec<RaySample> {
    vec![RaySample { ju: HALF, jv: HALF, bounces: zero_bounces() }]
}

#[test]
fn rendering_is_reproducible_for_equal_samples() {
    let world = two_sphere_world();
    let cam = demo_camera();
    assert!(cam.is_wf());
    let p1 = render_pixel(&world, &cam, 100, 50, 200, 100, &center_plan());
    let p2 = render_pixel(&world, &cam, 100, 50, 200, 100, &center_plan());
    assert_eq!(p1, p2);
}

#[test]
fn single_sample_render_equals_single_ray() {
    // One sample jittered to the pixel center is exactly the
    // gamma-corrected radiance of the one centered ray.
    let world = two_sphere_world();
    let cam = demo_camera();
    assert!(cam.is_wf());
    let x = 137usize;
    let y = 42usize;
    let px = render_pixel(&world, &cam, x, y, 200, 100, &center_plan());
    let u = pixel_u(x, HALF, 200);
    let v = pixel_u(y, HALF, 100);
    let c = color(&world, &cam.ray(u, v), 0, &zero_bounces());
    assert_eq!(px, Pixel { r: to_byte(c.x), g: to_byte(c.y), b: to_byte(c.z) });
}

#[test]
fn two_sphere_scene_center_and_sky() {
    // The classic two-sphere frame at 200 x 100: the center pixel shows
    // the foreground sphere (attenuated, not pure sky), the top row
    // shows the sky gradient, whose blue channel is exactly one.
    let world = two_sphere_world();
    let cam = demo_camera();
    assert!(cam.is_wf());
    let center = render_pixel(&world, &cam, 100, 50, 200, 100, &center_plan());
    let top = render_pixel(&world, &cam, 100, 99, 200, 100, &center_plan());
    assert_eq!(top.b, 255);
    assert!(top.r < 255);
    assert!(center.b < 255);
    assert!(center.r < top.r);
}

#[test]
fn whole_frame_is_row_major_and_complete() {
    // Over an empty scene every ray of every pixel shows the sky, whose
    // blue channel saturates; the frame has one entry per pixel.
    let world = HitTableList::new();
    let cam = demo_camera();
    assert!(cam.is_wf());
    let buf = raytracer_in_a_weekend::render::render_frame(&world, &cam, 6, 4, 1);
    assert_eq!(buf.len(), 24);
    for px in &buf {
        assert_eq!(px.b, 255);
    }
    // The top row comes first and looks higher into the gradient than
    // the bottom row: its red channel is dimmer.
    assert!(buf[0].r < buf[23].r);
}

#[test]
fn random_render_of_a_sky_pixel_saturates_blue() {
    // Every jittered ray through the top-center pixel misses both
    // spheres, so whatever the generator draws, the averaged background
    // keeps its blue channel at exactly one.
    let world = two_sphere_world();
    let cam = demo_camera();
    assert!(cam.is_wf());
    let px = render_pixel_rand(&world, &cam, 100, 99, 200, 100, 8);
    assert_eq!(px.b, 255);
    assert!(px.r < 255);
}
