//! Surface materials and their scattering behavior.
//!
//! A material, asked to scatter an incoming ray at a hit point, either
//! produces an outgoing ray with an attenuation color or absorbs the ray.
//! The three variants are ideal diffuse (Lambertian), specular with fuzz
//! (Metal) and refractive (Dielectric).

use vstd::prelude::*;
use crate::fixed::{
    ONE, fadd, fsub, fmul, fdiv, fsqrt, is_sqrt, fx_add, fx_sub, fx_mul, fx_div, fx_sqrt, fx_min,
    fx_max,
};
use crate::vec3::{
    Vec3, v_add, v_neg, v_scale, v_dot, v_unit, v_reflect, v_refract, v_near_zero,
    is_random_unit,
};
use crate::ray::Ray;
use crate::hittable::HitRecord;
use crate::random::{RandSource, random};

verus! {

/// Each channel lies in [0, 1]: a physically meaningful color.
pub open spec fn color_in_range(c: Vec3) -> bool {
    0 <= c.x <= ONE && 0 <= c.y <= ONE && 0 <= c.z <= ONE
}

/// Ideal diffuse surface with a base color.
#[derive(Clone, Copy, PartialEq, Eq, Structural, Debug)]
pub struct Lambertian {
    pub albedo: Vec3,
}

/// Specular surface with a base color and a fuzz radius in [0, 1].
#[derive(Clone, Copy, PartialEq, Eq, Structural, Debug)]
pub struct Metal {
    pub albedo: Vec3,
    pub fuzz: i64,
}

/// Refractive surface described by its refractive index.
#[derive(Clone, Copy, PartialEq, Eq, Structural, Debug)]
pub struct Dielectric {
    pub refraction_index: i64,
}

/// The closed set of material variants, dispatched by [`Material::scatter`].
#[derive(Clone, Copy, PartialEq, Eq, Structural, Debug)]
pub enum Material {
    Lambertian(Lambertian),
    Metal(Metal),
    Dielectric(Dielectric),
}

impl Material {
    /// Well-formedness: colors in range, fuzz in [0, 1], a positive
    /// refractive index.
    pub open spec fn wf(self) -> bool {
        match self {
            Material::Lambertian(l) => color_in_range(l.albedo),
            Material::Metal(m) => color_in_range(m.albedo) && 0 <= m.fuzz <= ONE,
            Material::Dielectric(d) => d.refraction_index > 0,
        }
    }
}

impl Default for Material {
    /// A black diffuse surface.
    fn default() -> (r: Material)
        ensures
            r == Material::Lambertian(Lambertian { albedo: (Vec3 { x: 0, y: 0, z: 0 }) }),
    {
        Material::Lambertian(Lambertian { albedo: Vec3 { x: 0, y: 0, z: 0 } })
    }
}

/// The diffuse scatter direction for the sampled unit vector `u`:
/// `normal + u`, or the normal alone when that sum degenerates to zero.
pub open spec fn lambertian_dir(normal: Vec3, u: Vec3) -> Vec3 {
    if v_near_zero(v_add(normal, u)) {
        normal
    } else {
        v_add(normal, u)
    }
}

impl Lambertian {
    /// Diffuse scattering: always scatters, from the hit point, along
    /// `normal + u` for a random unit `u` (or the normal itself if that
    /// cancels), attenuated by exactly the albedo.
    pub fn scatter(&self, ray_in: &Ray, hit_record: &HitRecord, rng: &mut RandSource) -> (r:
        Option<(Ray, Vec3)>)
        ensures
            r.is_some(),
            r.unwrap().1 == self.albedo,
            r.unwrap().0.orig == hit_record.point,
            exists|u: Vec3|
                #[trigger] is_random_unit(u) && r.unwrap().0.dir == lambertian_dir(
                    hit_record.normal,
                    u,
                ),
    {
        let u = Vec3::random_unit(rng);
        let mut scatter_direction = hit_record.normal.add(u);
        // Catch degenerate scatter direction
        if scatter_direction.near_zero() {
            scatter_direction = hit_record.normal;
        }
        let scattered = Ray { orig: hit_record.point, dir: scatter_direction };
        let attenuation = self.albedo;
        proof {
            assert(is_random_unit(u) && scattered.dir == lambertian_dir(hit_record.normal, u));
        }
        Some((scattered, attenuation))
    }
}

/// The fuzzed specular outcome for the sampled unit vector `u`: reflect,
/// perturb by `fuzz * u`, scatter if the result still leaves the surface,
/// absorb otherwise.
pub open spec fn metal_scatter(m: Metal, ray: Ray, rec: HitRecord, u: Vec3) -> Option<(Ray, Vec3)> {
    let fuzzed = v_add(v_unit(v_reflect(ray.dir, rec.normal)), v_scale(m.fuzz as int, u));
    if v_dot(fuzzed, rec.normal) > 0 {
        Some((Ray { orig: rec.point, dir: fuzzed }, m.albedo))
    } else {
        None
    }
}

impl Metal {
    /// Specular scattering: mirror-reflect the incoming direction, then
    /// perturb it by `fuzz` times a random unit vector; a perturbed ray
    /// pointing into the surface is absorbed. With zero fuzz the outcome
    /// is the exact mirror reflection, whatever was sampled.
    pub fn scatter(&self, ray_in: &Ray, hit_record: &HitRecord, rng: &mut RandSource) -> (r:
        Option<(Ray, Vec3)>)
        ensures
            exists|u: Vec3| #[trigger] is_random_unit(u) && r == metal_scatter(
                *self,
                *ray_in,
                *hit_record,
                u,
            ),
            r.is_some() ==> r.unwrap().1 == self.albedo && r.unwrap().0.orig == hit_record.point
                && v_dot(r.unwrap().0.dir, hit_record.normal) > 0,
            self.fuzz == 0 ==> r == metal_scatter(*self, *ray_in, *hit_record, Vec3 { x: 0, y: 0, z: 0 })
                && (r.is_some() ==> r.unwrap().0.dir == v_unit(
                v_reflect(ray_in.dir, hit_record.normal),
            )),
    {
        let u = Vec3::random_unit(rng);
        let reflected_direction = Vec3::reflect(&ray_in.direction(), &hit_record.normal);
        let fuzz_direction = reflected_direction.unit().add(u.scale(self.fuzz));
        proof {
            assert(is_random_unit(u));
            if self.fuzz == 0 {
                assert(v_scale(0, u) == (Vec3 { x: 0, y: 0, z: 0 }));
                assert(v_scale(0, Vec3 { x: 0, y: 0, z: 0 }) == (Vec3 { x: 0, y: 0, z: 0 }));
                assert(fuzz_direction == v_unit(v_reflect(ray_in.dir, hit_record.normal)));
            }
        }
        if fuzz_direction.dot(hit_record.normal) > 0 {
            let reflected = Ray { orig: hit_record.point, dir: fuzz_direction };
            let attenuation = self.albedo;
            Some((reflected, attenuation))
        } else {
            // If the fuzz calculation goes inwards the material, we absorb it
            None
        }
    }
}

/// The five-fold fixed-point power used by Schlick's approximation.
pub open spec fn pow5(x: int) -> int {
    fmul(fmul(fmul(fmul(x, x), x), x), x)
}

/// Schlick's reflectance approximation:
/// `r0 + (1 - r0) * (1 - cosine)^5` with `r0 = ((1 - n) / (1 + n))^2`.
pub open spec fn schlick(cosine: int, refraction_index: int) -> int {
    let q = fdiv(fsub(ONE as int, refraction_index), fadd(ONE as int, refraction_index));
    let r0 = fmul(q, q);
    fadd(r0, fmul(fsub(ONE as int, r0), pow5(fsub(ONE as int, cosine))))
}

/// The effective refraction ratio: the reciprocal index entering the
/// medium, the index itself leaving it.
pub open spec fn dielectric_ratio(d: Dielectric, rec: HitRecord) -> int {
    if rec.front_face {
        fdiv(ONE as int, d.refraction_index as int)
    } else {
        d.refraction_index as int
    }
}

/// Cosine of the angle of incidence, capped at 1.
pub open spec fn dielectric_cos(ray: Ray, rec: HitRecord) -> int {
    if v_dot(v_neg(v_unit(ray.dir)), rec.normal) <= ONE {
        v_dot(v_neg(v_unit(ray.dir)), rec.normal)
    } else {
        ONE as int
    }
}

/// Sine of the angle of incidence, from `sqrt(1 - cos^2)` with the
/// radicand floored at zero.
pub open spec fn dielectric_sin(ray: Ray, rec: HitRecord) -> int {
    let s2 = fsub(ONE as int, fmul(dielectric_cos(ray, rec), dielectric_cos(ray, rec)));
    fsqrt(
        if s2 < 0 {
            0
        } else {
            s2
        },
    )
}

/// Total internal reflection: the refraction ratio times the sine of the
/// angle of incidence exceeds 1, so no refracted ray exists.
pub open spec fn dielectric_tir(d: Dielectric, ray: Ray, rec: HitRecord) -> bool {
    fmul(dielectric_ratio(d, rec), dielectric_sin(ray, rec)) > ONE
}

/// The outgoing direction for the uniform draw `rnd`: reflect on total
/// internal reflection or when Schlick's reflectance beats the draw,
/// refract otherwise.
pub open spec fn dielectric_dir(d: Dielectric, ray: Ray, rec: HitRecord, rnd: int) -> Vec3 {
    if dielectric_tir(d, ray, rec) || schlick(dielectric_cos(ray, rec), dielectric_ratio(d, rec))
        > rnd {
        v_reflect(v_unit(ray.dir), rec.normal)
    } else {
        v_refract(v_unit(ray.dir), rec.normal, dielectric_ratio(d, rec))
    }
}

/// A dielectric whose refraction ratio is 1 (its index matching the
/// exterior medium), struck head-on, never reflects: total internal
/// reflection is impossible and Schlick's reflectance vanishes, so for
/// every possible draw the outgoing direction is exactly the incoming
/// unit direction — the ray passes through unbent.
pub proof fn lemma_dielectric_head_on(d: Dielectric, ray: Ray, rec: HitRecord, rnd: int)
    requires
        d.refraction_index == ONE,
        rec.front_face,
        v_unit(ray.dir) == v_neg(rec.normal),
        rec.normal.x > i64::MIN,
        rec.normal.y > i64::MIN,
        rec.normal.z > i64::MIN,
        v_dot(rec.normal, rec.normal) == ONE,
        0 <= rnd,
    ensures
        !dielectric_tir(d, ray, rec),
        dielectric_dir(d, ray, rec, rnd) == v_unit(ray.dir),
{
    let n = rec.normal;
    vstd::arithmetic::div_mod::lemma_div_multiples_vanish(ONE as int, ONE as int);
    assert(dielectric_ratio(d, rec) == ONE);
    assert(v_neg(v_unit(ray.dir)) == n);
    assert(dielectric_cos(ray, rec) == ONE);
    crate::fixed::lemma_fmul_one(ONE as int);
    crate::fixed::lemma_fmul_one(0);
    assert(is_sqrt(0, 0));
    crate::fixed::lemma_sqrt_floor_unique(0, 0);
    assert(dielectric_sin(ray, rec) == 0);
    assert(!dielectric_tir(d, ray, rec));
    assert(schlick(ONE as int, ONE as int) == 0);
    crate::vec3::lemma_refract_head_on(n);
}

impl Dielectric {
    /// Schlick's approximation for reflectance: the probability that a
    /// ray reflects rather than refracts at the boundary.
    pub fn reflectance(cosine: i64, refraction_index: i64) -> (r: i64)
        requires
            fadd(ONE as int, refraction_index as int) != 0,
        ensures
            r as int == schlick(cosine as int, refraction_index as int),
    {
        let q = fx_div(fx_sub(ONE, refraction_index), fx_add(ONE, refraction_index));
        let r0 = fx_mul(q, q);
        let p = fx_sub(ONE, cosine);
        let p5 = fx_mul(fx_mul(fx_mul(fx_mul(p, p), p), p), p);
        fx_add(r0, fx_mul(fx_sub(ONE, r0), p5))
    }

    /// Refractive scattering: always scatters from the hit point with
    /// white attenuation; the direction reflects under total internal
    /// reflection or a winning Schlick draw and refracts otherwise. A
    /// ratio at most 1 can never cause total internal reflection.
    pub fn scatter(&self, ray_in: &Ray, hit_record: &HitRecord, rng: &mut RandSource) -> (r:
        Option<(Ray, Vec3)>)
        requires
            self.refraction_index > 0,
        ensures
            r.is_some(),
            r.unwrap().1 == (Vec3 { x: ONE, y: ONE, z: ONE }),
            r.unwrap().0.orig == hit_record.point,
            dielectric_ratio(*self, *hit_record) <= ONE ==> !dielectric_tir(
                *self,
                *ray_in,
                *hit_record,
            ),
            exists|rnd: int|
                0 <= rnd < ONE && r.unwrap().0.dir == #[trigger] dielectric_dir(
                    *self,
                    *ray_in,
                    *hit_record,
                    rnd,
                ),
    {
        let refraction_i = if hit_record.front_face {
            fx_div(ONE, self.refraction_index)
        } else {
            self.refraction_index
        };
        proof {
            vstd::arithmetic::div_mod::lemma_div_pos_is_pos(
                (ONE as int) * (ONE as int),
                self.refraction_index as int,
            );
        }
        let unit_d = ray_in.direction().unit();
        let cos_in = fx_min(unit_d.neg().dot(hit_record.normal), ONE);
        let cos_sq = fx_mul(cos_in, cos_in);
        proof {
            assert(cos_in as int * cos_in as int >= 0) by (nonlinear_arith);
            vstd::arithmetic::div_mod::lemma_div_pos_is_pos(
                cos_in as int * cos_in as int,
                ONE as int,
            );
        }
        let sin_clamped = fx_max(fx_sub(ONE, cos_sq), 0);
        let sin_in = fx_sqrt(sin_clamped);
        proof {
            crate::fixed::lemma_fsqrt_le_one(sin_clamped as int, sin_in as int);
            if refraction_i <= ONE {
                crate::fixed::lemma_fmul_unit_range(refraction_i as int, sin_in as int);
            }
        }
        let rnd = random(rng);
        let direction = if fx_mul(refraction_i, sin_in) > ONE || Dielectric::reflectance(
            cos_in,
            refraction_i,
        ) > rnd {
            Vec3::reflect(&unit_d, &hit_record.normal)
        } else {
            unit_d.refract(hit_record.normal, refraction_i)
        };
        let scattered = Ray { orig: hit_record.point, dir: direction };
        let attenuation = Vec3 { x: ONE, y: ONE, z: ONE };
        proof {
            assert(0 <= rnd < ONE && scattered.dir == dielectric_dir(
                *self,
                *ray_in,
                *hit_record,
                rnd as int,
            ));
        }
        Some((scattered, attenuation))
    }
}

/// `r` is an outcome this material's scattering can produce for the ray
/// and hit: for each variant, exactly the support of its scatter
/// function over the random values drawn. (Opaque: callers pass the fact
/// along whole; only the scatter dispatch looks inside.)
#[verifier::opaque]
pub open spec fn is_scatter_outcome(
    r: Option<(Ray, Vec3)>,
    m: Material,
    ray: Ray,
    rec: HitRecord,
) -> bool {
    match m {
        Material::Lambertian(l) => exists|u: Vec3|
            #[trigger] is_random_unit(u) && r == Option::Some(
                (Ray { orig: rec.point, dir: lambertian_dir(rec.normal, u) }, l.albedo),
            ),
        Material::Metal(mt) => exists|u: Vec3|
            #[trigger] is_random_unit(u) && r == metal_scatter(mt, ray, rec, u),
        Material::Dielectric(d) => exists|rnd: int|
            0 <= rnd < ONE && r == Option::Some(
                (
                    Ray { orig: rec.point, dir: #[trigger] dielectric_dir(d, ray, rec, rnd) },
                    Vec3 { x: ONE, y: ONE, z: ONE },
                ),
            ),
    }
}

impl Material {
    /// Scatter the incoming ray at the recorded hit with whichever
    /// variant this material is. The result is always one of the
    /// variant's possible outcomes; whenever a ray comes back it starts
    /// at the hit point with an in-range attenuation, and a diffuse or
    /// refractive material always scatters.
    pub fn scatter(&self, ray_in: &Ray, hit_record: &HitRecord, rng: &mut RandSource) -> (r:
        Option<(Ray, Vec3)>)
        requires
            self.wf(),
        ensures
            r.is_some() ==> color_in_range(r.unwrap().1),
            r.is_some() ==> r.unwrap().0.orig == hit_record.point,
            forall|l: Lambertian|
                *self == Material::Lambertian(l) ==> r.is_some() && r.unwrap().1 == l.albedo,
            (*self matches Material::Dielectric(_)) ==> r.is_some() && r.unwrap().1 == (Vec3 {
                x: ONE,
                y: ONE,
                z: ONE,
            }),
            forall|m: Metal|
                *self == Material::Metal(m) && r.is_some() ==> r.unwrap().1 == m.albedo,
            is_scatter_outcome(r, *self, *ray_in, *hit_record),
    {
        match self {
            Material::Lambertian(l) => {
                let r = l.scatter(ray_in, hit_record, rng);
                proof {
                    reveal(is_scatter_outcome);
                    let u = choose|u: Vec3|
                        #[trigger] is_random_unit(u) && r.unwrap().0.dir == lambertian_dir(
                            hit_record.normal,
                            u,
                        );
                    assert(is_random_unit(u) && r == Option::Some(
                        (
                            Ray { orig: hit_record.point, dir: lambertian_dir(hit_record.normal, u) },
                            l.albedo,
                        ),
                    ));
                }
                r
            },
            Material::Metal(m) => {
                let r = m.scatter(ray_in, hit_record, rng);
                proof {
                    reveal(is_scatter_outcome);
                    let u = choose|u: Vec3|
                        #[trigger] is_random_unit(u) && r == metal_scatter(
                            *m,
                            *ray_in,
                            *hit_record,
                            u,
                        );
                    assert(is_random_unit(u) && r == metal_scatter(*m, *ray_in, *hit_record, u));
                }
                r
            },
            Material::Dielectric(d) => {
                let r = d.scatter(ray_in, hit_record, rng);
                proof {
                    reveal(is_scatter_outcome);
                    let rnd = choose|rnd: int|
                        0 <= rnd < ONE && r.unwrap().0.dir == #[trigger] dielectric_dir(
                            *d,
                            *ray_in,
                            *hit_record,
                            rnd,
                        );
                    assert(0 <= rnd < ONE && r == Option::Some(
                        (
                            Ray {
                                orig: hit_record.point,
                                dir: dielectric_dir(*d, *ray_in, *hit_record, rnd),
                            },
                            Vec3 { x: ONE, y: ONE, z: ONE },
                        ),
                    ));
                }
                r
            },
        }
    }
}

} // verus!
