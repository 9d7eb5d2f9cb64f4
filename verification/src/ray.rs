//! Rays: an origin point and a direction vector.

use vstd::prelude::*;
use crate::vec3::{Vec3, v_add, v_scale};

verus! {

#[derive(Clone, Copy, PartialEq, Eq, Structural, Debug)]
pub struct Ray {
    pub orig: Vec3,
    pub dir: Vec3,
}

/// The point reached after travelling `t` along the ray:
/// `origin + t * direction`.
pub open spec fn ray_at(r: Ray, t: int) -> Vec3 {
    v_add(r.orig, v_scale(t, r.dir))
}

impl Ray {
    /// The ray's starting point.
    pub fn origin(self) -> (r: Vec3)
        ensures
            r == self.orig,
    {
        self.orig
    }

    /// The ray's direction.
    pub fn direction(self) -> (r: Vec3)
        ensures
            r == self.dir,
    {
        self.dir
    }

    /// The point at parameter `t`, exactly `origin + t * direction`.
    pub fn at(self, t: i64) -> (r: Vec3)
        ensures
            r == ray_at(self, t as int),
    {
        self.orig.add(self.dir.scale(t))
    }
}

} // verus!
