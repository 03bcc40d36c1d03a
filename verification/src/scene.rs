//! The generated demo scene: a large ground sphere, a 22 by 22 grid of
//! small spheres with randomly chosen materials, and three large
//! feature spheres (glass, diffuse, metal).

use crate::fixed::{lemma_fxmul_le, lemma_fxmul_unit, mag, CMAX, HALF, ONE};
use crate::hit_table::{world_wf, HitTableList};
use crate::material::{mat_wf, Dielectric, Lambertian, MaterialKind, Metal};
use crate::sampling::rand_fx;
use crate::sphere::{sphere_wf, Sphere};
use crate::vec3::{v3, Vec3};
use vstd::prelude::*;

verus! {

/// 0.9 in fixed-point form: the random spread of a grid sphere inside
/// its cell.
pub const SPREAD: i64 = 58982;

/// Radius (and height) of a grid sphere: 0.2 in fixed-point form.
pub const SMALL_R: i64 = 13107;

/// Material-choice cut for diffuse spheres: 0.8.
pub const CUT_DIFFUSE: i64 = 52429;

/// Material-choice cut for metal spheres: 0.95.
pub const CUT_METAL: i64 = 62259;

/// Refractive index of the glass spheres: 1.5.
pub const GLASS_ETA: i64 = 98304;

/// The ground: a huge gray diffuse sphere below the origin.
pub open spec fn ground_sphere_s() -> Sphere {
    Sphere {
        center: v3(0, -65536000, 0),
        radius: 65536000,
        material: MaterialKind::Lambertian(Lambertian { albedo: v3(HALF as int, HALF as int, HALF as int) }),
    }
}

/// The large glass sphere at the middle.
pub open spec fn big_glass_s() -> Sphere {
    Sphere {
        center: v3(0, ONE as int, 0),
        radius: ONE,
        material: MaterialKind::Dielectric(Dielectric { refractive_index: GLASS_ETA }),
    }
}

/// The large brown diffuse sphere on the left.
pub open spec fn big_diffuse_s() -> Sphere {
    Sphere {
        center: v3(-4 * ONE as int, ONE as int, 0),
        radius: ONE,
        material: MaterialKind::Lambertian(Lambertian { albedo: v3(26214, 13107, 6554) }),
    }
}

/// The large polished metal sphere on the right.
pub open spec fn big_metal_s() -> Sphere {
    Sphere {
        center: v3(4 * ONE as int, ONE as int, 0),
        radius: ONE,
        material: MaterialKind::Metal(Metal { albedo: v3(45875, 39322, 32768), fuzz: 0 }),
    }
}

/// A sphere the grid generator may produce: small, sitting at height
/// 0.2 inside the 22 by 22 cell block, with a well-formed material.
pub open spec fn grid_sphere_ok(s: Sphere) -> bool {
    &&& s.radius == SMALL_R
    &&& s.center.y == SMALL_R
    &&& mag(s.center.x as int) <= 11 * ONE
    &&& mag(s.center.z as int) <= 11 * ONE
    &&& mat_wf(s.material)
}

/// One grid sphere, from the cell index and fresh draws.
fn gen_grid_sphere(g: usize) -> (s: Sphere)
    requires
        g < 484,
    ensures
        grid_sphere_ok(s),
        sphere_wf(s),
{
    let a: i64 = (g / 22) as i64 - 11;
    let b: i64 = (g % 22) as i64 - 11;
    let jx: i64 = fx_spread();
    let jz: i64 = fx_spread();
    let center: Vec3 = Vec3 { x: a * ONE + jx, y: SMALL_R, z: b * ONE + jz };
    let choose_mat: i64 = rand_fx();
    let material: MaterialKind = if choose_mat < CUT_DIFFUSE {
        let ax: i64 = rand_sq();
        let ay: i64 = rand_sq();
        let az: i64 = rand_sq();
        MaterialKind::Lambertian(Lambertian { albedo: Vec3 { x: ax, y: ay, z: az } })
    } else if choose_mat < CUT_METAL {
        let ax: i64 = rand_half_up();
        let ay: i64 = rand_half_up();
        let az: i64 = rand_half_up();
        let fz: i64 = rand_half();
        MaterialKind::Metal(Metal { albedo: Vec3 { x: ax, y: ay, z: az }, fuzz: fz })
    } else {
        MaterialKind::Dielectric(Dielectric { refractive_index: GLASS_ETA })
    };
    Sphere { center, radius: SMALL_R, material }
}

/// A jitter in `[0, 0.9)`: `0.9 * rand`.
fn fx_spread() -> (r: i64)
    ensures
        0 <= r <= SPREAD,
{
    let d: i64 = rand_fx();
    proof {
        lemma_fxmul_le(SPREAD as int, d as int);
    }
    crate::fixed::fx_mul(SPREAD, d)
}

/// A squared random albedo channel: `rand * rand`, in `[0, 1)`.
fn rand_sq() -> (r: i64)
    ensures
        0 <= r <= ONE,
{
    let d1: i64 = rand_fx();
    let d2: i64 = rand_fx();
    proof {
        lemma_fxmul_unit(d1 as int, d2 as int);
    }
    crate::fixed::fx_mul(d1, d2)
}

/// A random metal albedo channel: `0.5 * (1 + rand)`, in `[0.5, 1)`.
fn rand_half_up() -> (r: i64)
    ensures
        HALF <= r <= ONE,
{
    let d: i64 = rand_fx();
    proof {
        lemma_fxmul_le(HALF as int, d as int);
    }
    HALF + crate::fixed::fx_mul(HALF, d)
}

/// A random fuzz: `0.5 * rand`, in `[0, 0.5]`.
fn rand_half() -> (r: i64)
    ensures
        0 <= r <= HALF,
{
    let d: i64 = rand_fx();
    proof {
        lemma_fxmul_le(HALF as int, d as int);
    }
    crate::fixed::fx_mul(HALF, d)
}

/// Build the demo scene: the ground sphere, 484 random grid spheres and
/// the three large feature spheres, 488 primitives in insertion order.
pub fn gen_world() -> (world: HitTableList)
    ensures
        world_wf(world.list@),
        world.list@.len() == 488,
        world.list@[0] == ground_sphere_s(),
        world.list@[485] == big_glass_s(),
        world.list@[486] == big_diffuse_s(),
        world.list@[487] == big_metal_s(),
        forall|j: int| 1 <= j < 485 ==> grid_sphere_ok(#[trigger] world.list@[j]),
{
    let mut world: HitTableList = HitTableList::new();
    world.add(
        Sphere::new(
            Vec3 { x: 0, y: -65536000, z: 0 },
            65536000,
            MaterialKind::Lambertian(Lambertian { albedo: Vec3 { x: HALF, y: HALF, z: HALF } }),
        ),
    );
    let mut g: usize = 0;
    while g < 484
        invariant
            0 <= g <= 484,
            world.list@.len() == 1 + g,
            world.list@[0] == ground_sphere_s(),
            forall|j: int| 1 <= j < world.list@.len() ==> grid_sphere_ok(#[trigger] world.list@[j])
                && sphere_wf(#[trigger] world.list@[j]),
        decreases 484 - g,
    {
        let s: Sphere = gen_grid_sphere(g);
        world.add(s);
        g = g + 1;
    }
    world.add(
        Sphere::new(
            Vec3 { x: 0, y: ONE, z: 0 },
            ONE,
            MaterialKind::Dielectric(Dielectric { refractive_index: GLASS_ETA }),
        ),
    );
    world.add(
        Sphere::new(
            Vec3 { x: -4 * ONE, y: ONE, z: 0 },
            ONE,
            MaterialKind::Lambertian(Lambertian { albedo: Vec3 { x: 26214, y: 13107, z: 6554 } }),
        ),
    );
    world.add(
        Sphere::new(
            Vec3 { x: 4 * ONE, y: ONE, z: 0 },
            ONE,
            MaterialKind::Metal(Metal { albedo: Vec3 { x: 45875, y: 39322, z: 32768 }, fuzz: 0 }),
        ),
    );
    world
}

} // verus!
