//! Rays: an origin plus a direction, traversed by a fixed-point
//! parameter `t`.

use crate::fixed::{fxmul, i64_fits};
use crate::vec3::{add3_s, scale3_s, v3, Vec3};
use vstd::prelude::*;

verus! {

#[derive(Clone, Copy, Debug, PartialEq, Eq, Structural)]
pub struct Ray {
    pub origin: Vec3,
    pub direction: Vec3,
}

/// The point reached after travelling `t` along the ray:
/// `origin + t * direction`.
pub open spec fn ray_at_s(r: Ray, t: int) -> Vec3 {
    add3_s(r.origin, scale3_s(t, r.direction))
}

impl Ray {
    pub fn new(origin: Vec3, direction: Vec3) -> (r: Ray)
        ensures
            r == (Ray { origin, direction }),
    {
        Ray { origin, direction }
    }

    pub fn origin(&self) -> (r: &Vec3)
        ensures
            *r == self.origin,
    {
        &self.origin
    }

    pub fn direction(&self) -> (r: &Vec3)
        ensures
            *r == self.direction,
    {
        &self.direction
    }

    pub fn point_at_parameter(&self, t: i64) -> (p: Vec3)
        requires
            i64_fits(fxmul(t as int, self.direction.x as int)),
            i64_fits(fxmul(t as int, self.direction.y as int)),
            i64_fits(fxmul(t as int, self.direction.z as int)),
            i64_fits(self.origin.x + fxmul(t as int, self.direction.x as int)),
            i64_fits(self.origin.y + fxmul(t as int, self.direction.y as int)),
            i64_fits(self.origin.z + fxmul(t as int, self.direction.z as int)),
        ensures
            p == ray_at_s(*self, t as int),
    {
        let d: Vec3 = crate::vec3::scale3(t, &self.direction);
        crate::vec3::add3(&self.origin, &d)
    }
}

} // verus!
