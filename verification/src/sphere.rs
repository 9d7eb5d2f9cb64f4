//! Spheres and their ray intersection test.
//!
//! The sphere equation is quadratic in the ray parameter `t`; the test
//! solves it and picks the smaller root strictly inside the allowed
//! interval, falling back to the larger one.

use vstd::prelude::*;
use crate::fixed::{fadd, fsub, fmul, fdiv, fsqrt, fx_add, fx_sub, fx_mul, fx_div, fx_sqrt};
use crate::vec3::{Vec3, TWO, v_sub, v_dot, v_neg, v_div_scalar};
use crate::ray::{Ray, ray_at};
use crate::interval::{Interval, i_surrounds};
use crate::hittable::HitRecord;
use crate::material::Material;

verus! {

/// Four times [`crate::fixed::ONE`]: the quadratic formula's constant.
pub const FOUR: i64 = 4_000_000;

/// A sphere: center point, radius, and the material covering it.
#[derive(Clone, Copy, PartialEq, Eq, Structural, Debug)]
pub struct Sphere {
    pub center: Vec3,
    pub radius: i64,
    pub material: Material,
}

/// Vector from the ray origin to the sphere center.
pub open spec fn sphere_oc(s: Sphere, ray: Ray) -> Vec3 {
    v_sub(s.center, ray.orig)
}

/// Quadratic coefficient `a = dot(dir, dir)`.
pub open spec fn sphere_a(ray: Ray) -> int {
    v_dot(ray.dir, ray.dir)
}

/// Quadratic coefficient `b = -2 * dot(dir, oc)`.
pub open spec fn sphere_b(s: Sphere, ray: Ray) -> int {
    fmul(-(TWO as int), v_dot(ray.dir, sphere_oc(s, ray)))
}

/// Quadratic coefficient `c = dot(oc, oc) - radius^2`.
pub open spec fn sphere_c(s: Sphere, ray: Ray) -> int {
    fsub(v_dot(sphere_oc(s, ray), sphere_oc(s, ray)), fmul(s.radius as int, s.radius as int))
}

/// The discriminant `b^2 - 4*a*c`.
pub open spec fn sphere_disc(s: Sphere, ray: Ray) -> int {
    fsub(
        fmul(sphere_b(s, ray), sphere_b(s, ray)),
        fmul(fmul(FOUR as int, sphere_a(ray)), sphere_c(s, ray)),
    )
}

/// The accepted root: a non-negative discriminant and a non-degenerate
/// direction admit two roots `(-b -+ sqrt(disc)) / (2a)`; the smaller is
/// taken if strictly inside the interval, else the larger, else nothing.
pub open spec fn sphere_root(s: Sphere, ray: Ray, ray_t: Interval) -> Option<int> {
    let a = sphere_a(ray);
    let b = sphere_b(s, ray);
    let disc = sphere_disc(s, ray);
    if disc < 0 {
        None
    } else if fmul(TWO as int, a) == 0 {
        None
    } else {
        let sq = fsqrt(disc);
        let root1 = fdiv(fsub(fsub(0, b), sq), fmul(TWO as int, a));
        if i_surrounds(ray_t, root1) {
            Some(root1)
        } else {
            let root2 = fdiv(fadd(fsub(0, b), sq), fmul(TWO as int, a));
            if i_surrounds(ray_t, root2) {
                Some(root2)
            } else {
                None
            }
        }
    }
}

/// The record reported for a hit at parameter `t`: the point there, the
/// outward normal `(point - center) / radius` oriented against the ray,
/// and the sphere's material.
pub open spec fn sphere_record(s: Sphere, ray: Ray, t: int) -> HitRecord {
    let point = ray_at(ray, t);
    let outward = v_div_scalar(v_sub(point, s.center), s.radius as int);
    HitRecord {
        point: point,
        normal: if v_dot(ray.dir, outward) < 0 {
            outward
        } else {
            v_neg(outward)
        },
        t: t as i64,
        front_face: v_dot(ray.dir, outward) < 0,
        material: s.material,
    }
}

/// What the sphere reports for a ray over an interval, as a value.
pub open spec fn spec_sphere_hit(s: Sphere, ray: Ray, ray_t: Interval) -> Option<HitRecord> {
    match sphere_root(s, ray, ray_t) {
        Some(t) => Some(sphere_record(s, ray, t)),
        None => None,
    }
}

/// Every reported hit obeys the normal-orientation rule: the record is
/// front-face exactly when the ray arrives against the outward normal
/// `(point - center) / radius`, and the stored normal is that outward
/// normal or its negation accordingly — so it always opposes the ray's
/// side of approach.
pub proof fn lemma_hit_normal_orientation(s: Sphere, ray: Ray, ray_t: Interval)
    requires
        spec_sphere_hit(s, ray, ray_t).is_some(),
    ensures
        ({
            let rec = spec_sphere_hit(s, ray, ray_t).unwrap();
            let outward = v_div_scalar(v_sub(rec.point, s.center), s.radius as int);
            &&& rec.front_face == (v_dot(ray.dir, outward) < 0)
            &&& rec.normal == if rec.front_face {
                outward
            } else {
                v_neg(outward)
            }
            &&& rec.front_face ==> v_dot(ray.dir, rec.normal) < 0
        }),
{
}

impl Sphere {
    /// A positive radius and a well-formed material.
    pub open spec fn wf(self) -> bool {
        self.radius > 0 && self.material.wf()
    }

    /// Solve the quadratic for the ray parameter; on a root strictly
    /// inside `ray_t` fill the record with exactly the reported
    /// intersection, otherwise leave it untouched.
    pub fn hit(&self, ray: Ray, ray_t: Interval, hit_record: &mut HitRecord) -> (r: bool)
        requires
            self.wf(),
        ensures
            r == spec_sphere_hit(*self, ray, ray_t).is_some(),
            r ==> *final(hit_record) == spec_sphere_hit(*self, ray, ray_t).unwrap(),
            !r ==> *final(hit_record) == *old(hit_record),
            r ==> final(hit_record).material == self.material,
            r ==> final(hit_record).material.wf(),
    {
        let orig_to_center = self.center.sub(ray.origin());
        let a = ray.direction().dot(ray.direction());
        let b = fx_mul(-TWO, ray.direction().dot(orig_to_center));
        let c = fx_sub(
            orig_to_center.dot(orig_to_center),
            fx_mul(self.radius, self.radius),
        );
        let discriminant = fx_sub(fx_mul(b, b), fx_mul(fx_mul(FOUR, a), c));
        if discriminant < 0 {
            return false;
        }
        let denom = fx_mul(TWO, a);
        if denom == 0 {
            // A direction too short to square to anything: nothing to hit.
            return false;
        }
        let sqrt_d = fx_sqrt(discriminant);

        // Find the nearest root that lies in the acceptable range.
        let mut root = fx_div(fx_sub(fx_sub(0, b), sqrt_d), denom);
        if !ray_t.surrounds(root) {
            root = fx_div(fx_add(fx_sub(0, b), sqrt_d), denom);
            if !ray_t.surrounds(root) {
                return false;
            }
        }
        hit_record.t = root;
        hit_record.point = ray.at(hit_record.t);
        let outward_normal = hit_record.point.sub(self.center).div_scalar(self.radius);
        hit_record.set_face_normal(ray, outward_normal);
        hit_record.material = self.material;
        true
    }
}

} // verus!
