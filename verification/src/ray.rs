//! Rays: an origin point and a direction, parametrized as
//! `origin + t * direction`.

use vstd::prelude::*;
use crate::vec3::{Vec3, vadd, vscale};

verus! {

#[derive(Clone, Copy, Debug, PartialEq, Eq, Structural)]
pub struct Ray {
    pub origin: Vec3,
    pub direction: Vec3,
}

/// The point a ray reaches at parameter `t`.
pub open spec fn ray_at(r: Ray, t: i64) -> Vec3 {
    vadd(r.origin, vscale(r.direction, t))
}

impl Ray {
    pub fn new(origin: Vec3, direction: Vec3) -> (r: Ray)
        ensures
            r == (Ray { origin, direction }),
    {
        Ray { origin, direction }
    }

    pub fn at(&self, t: i64) -> (r: Vec3)
        ensures
            r == ray_at(*self, t),
    {
        self.origin.plus(self.direction.scale(t))
    }
}

} // verus!
