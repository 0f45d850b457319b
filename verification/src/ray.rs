//! Rays: an origin and an (unnormalized) direction.

use vstd::prelude::*;

verus! {

use crate::vec3::Vec3;
use crate::vec3::v3_add;
use crate::vec3::v3_scale;

/// A ray through world space.  The direction need not be a unit vector;
/// the parametric point at distance `t` is `origin + direction * t`.
#[derive(Clone, Copy, Debug, PartialEq, Eq, Structural)]
pub struct Ray {
    /// The starting point of the ray.
    pub origin: Vec3,
    /// The direction of travel.
    pub direction: Vec3,
}

/// The point the ray reaches at parameter `t`.
pub open spec fn ray_at_spec(r: Ray, t: int) -> Vec3 {
    v3_add(r.origin, v3_scale(r.direction, t))
}

impl Ray {
    /// Parameterize the ray linearly with `t`.
    pub fn at(self, t: i64) -> (p: Vec3)
        ensures
            p == ray_at_spec(self, t as int),
    {
        self.origin.plus(self.direction.scale(t))
    }
}

} // verus!
