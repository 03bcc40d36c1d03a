//! A small Monte Carlo ray tracer with a verified core.
//!
//! Geometry and color are carried as fixed-point scalars (see [`fixed`]):
//! an `i64` holds a real value scaled by `SCALE = 65536`, so every
//! arithmetic step has an exact, machine-checkable meaning.  The library
//! contains the intersection protocol and its scene aggregate, the material
//! scattering model, the recursive radiance evaluator and the per-pixel
//! sampling routine; window and thread plumbing live outside it.

pub mod camera;
pub mod fixed;
pub mod hit_table;
pub mod laws;
pub mod material;
pub mod pixel;
pub mod ray;
pub mod render;
pub mod sampling;
pub mod scene;
pub mod sphere;
pub mod vec3;

pub use camera::Camera;
pub use fixed::CMAX;
pub use fixed::HALF;
pub use fixed::ONE;
pub use fixed::SCALE;
pub use hit_table::{HitRecord, HitTable, HitTableList};
pub use material::{Dielectric, Lambertian, Material, MaterialKind, Metal, ScatterRand};
pub use pixel::Pixel;
pub use ray::Ray;
pub use render::{color, render_pixel, render_pixel_rand, RaySample};
pub use scene::gen_world;
pub use sphere::Sphere;
pub use vec3::Vec3;
