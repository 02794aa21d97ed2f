//! Rays: an origin and a direction.
//!
//! A constructed ray normalizes its direction.  Rays produced by a
//! space transform bypass the constructor and keep the transformed,
//! un-renormalized direction, so that hit distances stay meaningful in
//! the outer parametrization.

use vstd::prelude::*;

use crate::vec3::{unit_s, v_add_s, v_scale_s, Vec3};

verus! {

/// A half-line through `origin` along `dir`.
#[derive(Clone, Copy, Debug, PartialEq, Eq, Structural)]
pub struct Ray {
    pub origin: Vec3,
    pub dir: Vec3,
}

/// The point reached after parameter `t`: `origin + dir * t`.
pub open spec fn ray_at_s(r: Ray, t: int) -> Vec3 {
    v_add_s(r.origin, v_scale_s(r.dir, t))
}

impl Ray {
    /// Build a ray; the direction is normalized.
    pub fn new(origin: Vec3, dir: Vec3) -> (r: Ray)
        ensures
            r.origin == origin,
            r.dir == unit_s(dir),
    {
        Ray { origin, dir: dir.unit_vector() }
    }

    /// The point at parameter `t` along the ray.
    pub fn at(self, t: i64) -> (p: Vec3)
        ensures
            p == ray_at_s(self, t as int),
    {
        self.origin.add(self.dir.scale(t))
    }
}

impl Default for Ray {
    /// A ray from the origin along -z.
    fn default() -> (r: Ray)
        ensures
            r.origin == (Vec3 { x: 0, y: 0, z: 0 }),
            r.dir == unit_s(Vec3 { x: 0, y: 0, z: (-65536int) as i64 }),
    {
        Ray::new(Vec3::default(), Vec3::new(0, 0, -65536))
    }
}

} // verus!
