//! The intersection capability: hit records, the closed set of surfaces,
//! and the exhaustively tested aggregate list.

use vstd::prelude::*;
use crate::vec3::{Vec3, v_dot, v_neg};
use crate::ray::Ray;
use crate::interval::Interval;
use crate::material::{Material, Lambertian};
use crate::sphere::{Sphere, spec_sphere_hit};

verus! {

/// What an intersection test reports: the hit point, the normal oriented
/// against the incoming ray, the ray parameter, which side was struck,
/// and the material there.
#[derive(Clone, Copy, PartialEq, Eq, Structural, Debug)]
pub struct HitRecord {
    pub point: Vec3,
    pub normal: Vec3,
    pub t: i64,
    pub front_face: bool,
    pub material: Material,
}

impl Default for HitRecord {
    /// A blank record: everything zero, a black diffuse material.
    fn default() -> (r: HitRecord)
        ensures
            r == (HitRecord {
                point: Vec3 { x: 0, y: 0, z: 0 },
                normal: Vec3 { x: 0, y: 0, z: 0 },
                t: 0,
                front_face: false,
                material: Material::Lambertian(
                    Lambertian { albedo: Vec3 { x: 0, y: 0, z: 0 } },
                ),
            }),
    {
        HitRecord {
            point: Vec3 { x: 0, y: 0, z: 0 },
            normal: Vec3 { x: 0, y: 0, z: 0 },
            t: 0,
            front_face: false,
            material: Material::Lambertian(Lambertian { albedo: Vec3 { x: 0, y: 0, z: 0 } }),
        }
    }
}

impl HitRecord {
    /// Store the normal oriented against the ray: the outward normal
    /// as-is for a ray arriving from outside (front face), its negation
    /// for a ray arriving from inside.
    pub fn set_face_normal(&mut self, ray: Ray, outward_normal: Vec3)
        ensures
            final(self).front_face == (v_dot(ray.dir, outward_normal) < 0),
            final(self).normal == if v_dot(ray.dir, outward_normal) < 0 {
                outward_normal
            } else {
                v_neg(outward_normal)
            },
            final(self).point == old(self).point,
            final(self).t == old(self).t,
            final(self).material == old(self).material,
    {
        // NOTE: the parameter `outward_normal` is assumed to have unit length.
        self.front_face = ray.direction().dot(outward_normal) < 0;
        if self.front_face {
            self.normal = outward_normal;
        } else {
            self.normal = outward_normal.neg();
        }
    }
}

/// The closed set of surfaces a ray can strike.
#[derive(Clone, Copy, PartialEq, Eq, Structural, Debug)]
pub enum Hittable {
    Sphere(Sphere),
}

/// What a surface reports for a ray over an interval, as a value.
/// (Opaque: the dispatch below proves it; everything downstream carries
/// the reported record whole.)
#[verifier::opaque]
pub open spec fn spec_obj_hit(h: Hittable, ray: Ray, ray_t: Interval) -> Option<HitRecord> {
    match h {
        Hittable::Sphere(s) => spec_sphere_hit(s, ray, ray_t),
    }
}

impl Hittable {
    /// Well-formedness of the surface and its material.
    pub open spec fn wf(self) -> bool {
        match self {
            Hittable::Sphere(s) => s.wf(),
        }
    }

    /// Test this surface; on a hit fill the record with exactly the
    /// reported intersection, otherwise leave it untouched.
    pub fn hit(&self, ray: Ray, ray_t: Interval, hit_record: &mut HitRecord) -> (r: bool)
        requires
            self.wf(),
        ensures
            r == spec_obj_hit(*self, ray, ray_t).is_some(),
            r ==> *final(hit_record) == spec_obj_hit(*self, ray, ray_t).unwrap(),
            !r ==> *final(hit_record) == *old(hit_record),
            r ==> final(hit_record).material.wf(),
    {
        proof {
            reveal(spec_obj_hit);
        }
        match self {
            Hittable::Sphere(s) => s.hit(ray, ray_t, hit_record),
        }
    }
}

/// The nearest hit over a sequence of surfaces, tested in order with a
/// shrinking upper bound: each hit tightens the interval, so the last
/// accepted record is the closest (first-added winning exact ties).
pub open spec fn spec_list_hit_from(
    objs: Seq<Hittable>,
    ray: Ray,
    t_min: i64,
    closest: i64,
    best: Option<HitRecord>,
) -> Option<HitRecord>
    decreases objs.len(),
{
    if objs.len() == 0 {
        best
    } else {
        match spec_obj_hit(objs[0], ray, Interval(t_min, closest)) {
            Some(rec) => spec_list_hit_from(objs.skip(1), ray, t_min, rec.t, Some(rec)),
            None => spec_list_hit_from(objs.skip(1), ray, t_min, closest, best),
        }
    }
}

/// The nearest hit over a sequence of surfaces within `ray_t`.
pub open spec fn spec_list_hit(objs: Seq<Hittable>, ray: Ray, ray_t: Interval) -> Option<
    HitRecord,
> {
    spec_list_hit_from(objs, ray, ray_t.0, ray_t.1, None)
}

/// An ordered collection of surfaces, tested exhaustively.
pub struct HittableList {
    pub objects: Vec<Hittable>,
}

impl HittableList {
    /// Every contained surface is well-formed.
    pub open spec fn wf(self) -> bool {
        forall|i: int| 0 <= i < self.objects@.len() ==> (#[trigger] self.objects@[i]).wf()
    }

    /// Append a surface to the scene.
    pub fn add(&mut self, object: Hittable)
        ensures
            final(self).objects@ == old(self).objects@.push(object),
    {
        self.objects.push(object);
    }

    /// Remove every surface.
    pub fn clear(&mut self)
        ensures
            final(self).objects@ == Seq::<Hittable>::empty(),
    {
        self.objects.clear();
    }

    /// Test every surface against a shrinking interval and report the
    /// nearest hit; the record is written only if something was hit.
    pub fn hit(&self, ray: Ray, ray_t: Interval, hit_record: &mut HitRecord) -> (r: bool)
        requires
            self.wf(),
        ensures
            r == spec_list_hit(self.objects@, ray, ray_t).is_some(),
            r ==> *final(hit_record) == spec_list_hit(self.objects@, ray, ray_t).unwrap(),
            !r ==> *final(hit_record) == *old(hit_record),
            r ==> final(hit_record).material.wf(),
    {
        let mut temp_rec: HitRecord = Default::default();
        let mut hit_anything = false;
        let mut closest_so_far = ray_t.max();
        let ghost all = self.objects@;
        let mut idx: usize = 0;
        proof {
            assert(all.skip(0) =~= all);
        }
        while idx < self.objects.len()
            invariant
                self.wf(),
                all == self.objects@,
                idx <= all.len(),
                hit_anything ==> closest_so_far == temp_rec.t,
                hit_anything ==> *hit_record == temp_rec,
                hit_anything ==> temp_rec.material.wf(),
                !hit_anything ==> closest_so_far == ray_t.1,
                !hit_anything ==> *hit_record == *old(hit_record),
                spec_list_hit_from(
                    all.skip(idx as int),
                    ray,
                    ray_t.0,
                    closest_so_far,
                    if hit_anything {
                        Some(temp_rec)
                    } else {
                        None
                    },
                ) == spec_list_hit(all, ray, ray_t),
            decreases all.len() - idx,
        {
            let ghost before = all.skip(idx as int);
            assert(before[0] == all[idx as int]);
            if self.objects[idx].hit(ray, Interval(ray_t.min(), closest_so_far), &mut temp_rec) {
                hit_anything = true;
                closest_so_far = temp_rec.t;
                *hit_record = temp_rec;
            }
            idx = idx + 1;
            proof {
                assert(before.skip(1) =~= all.skip(idx as int));
            }
        }
        proof {
            assert(all.skip(all.len() as int) =~= Seq::<Hittable>::empty());
        }
        hit_anything
    }
}

impl Default for HittableList {
    /// An empty scene.
    fn default() -> (r: HittableList)
        ensures
            r.objects@ == Seq::<Hittable>::empty(),
    {
        HittableList { objects: Vec::new() }
    }
}

} // verus!
