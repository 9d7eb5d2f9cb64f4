use ray_tracer::hittable::{HitRecord, Hittable, HittableList};
use ray_tracer::interval::{Interval, INFINITY};
use ray_tracer::material::{Lambertian, Material};
use ray_tracer::ray::Ray;
use ray_tracer::sphere::Sphere;
use ray_tracer::vec3::Vec3;

fn v(x: i64, y: i64, z: i64) -> Vec3 {
    Vec3 { x, y, z }
}

fn gray() -> Material {
    Material::Lambertian(Lambertian { albedo: v(500_000, 500_000, 500_000) })
}

#[test]
fn ray_from_outside_hits_front_face() {
    let sphere = Sphere { center: v(0, 0, -2_000_000), radius: 500_000, material: gray() };
    let ray = Ray { orig: v(0, 0, 0), dir: v(0, 0, -1_000_000) };
    let mut rec: HitRecord = Default::default();
    assert!(sphere.hit(ray, Interval(0, INFINITY), &mut rec));
    assert!(rec.front_face);
    // The normal points back toward the ray origin.
    assert_eq!(rec.normal, v(0, 0, 1_000_000));
    assert!(ray.direction().dot(rec.normal) < 0);
}

#[test]
fn ray_from_inside_hits_back_face() {
    let sphere = Sphere { center: v(0, 0, -2_000_000), radius: 500_000, material: gray() };
    let ray = Ray { orig: v(0, 0, -2_000_000), dir: v(0, 0, -1_000_000) };
    let mut rec: HitRecord = Default::default();
    assert!(sphere.hit(ray, Interval(0, INFINITY), &mut rec));
    assert!(!rec.front_face);
    // The stored normal still opposes the ray.
    assert!(ray.direction().dot(rec.normal) < 0);
}

#[test]
fn head_on_hit_parameter_and_point_are_exact() {
    let sphere = Sphere { center: v(0, 0, -1_000_000), radius: 500_000, material: gray() };
    let ray = Ray { orig: v(0, 0, 0), dir: v(0, 0, -1_000_000) };
    let mut rec: HitRecord = Default::default();
    assert!(sphere.hit(ray, Interval(0, INFINITY), &mut rec));
    assert_eq!(rec.t, 500_000);
    assert_eq!(rec.point, v(0, 0, -500_000));
}

#[test]
fn ray_aimed_away_misses() {
    let sphere = Sphere { center: v(0, 0, -2_000_000), radius: 500_000, material: gray() };
    let ray = Ray { orig: v(0, 0, 0), dir: v(0, 0, 1_000_000) };
    let mut rec: HitRecord = Default::default();
    let before = rec;
    assert!(!sphere.hit(ray, Interval(0, INFINITY), &mut rec));
    // A miss leaves the record untouched.
    assert_eq!(rec, before);
}

#[test]
fn hit_outside_the_interval_is_rejected() {
    let sphere = Sphere { center: v(0, 0, -2_000_000), radius: 500_000, material: gray() };
    let ray = Ray { orig: v(0, 0, 0), dir: v(0, 0, -1_000_000) };
    let mut rec: HitRecord = Default::default();
    // Both roots (t = 1.5 and t = 2.5) lie beyond the allowed range.
    assert!(!sphere.hit(ray, Interval(0, 1_000_000), &mut rec));
}

#[test]
fn list_reports_the_nearest_hit() {
    let red = Material::Lambertian(Lambertian { albedo: v(900_000, 100_000, 100_000) });
    let blue = Material::Lambertian(Lambertian { albedo: v(100_000, 100_000, 900_000) });
    let mut world: HittableList = Default::default();
    world.add(Hittable::Sphere(Sphere {
        center: v(0, 0, -4_000_000),
        radius: 500_000,
        material: red,
    }));
    world.add(Hittable::Sphere(Sphere {
        center: v(0, 0, -2_000_000),
        radius: 500_000,
        material: blue,
    }));
    let ray = Ray { orig: v(0, 0, 0), dir: v(0, 0, -1_000_000) };
    let mut rec: HitRecord = Default::default();
    assert!(world.hit(ray, Interval(0, INFINITY), &mut rec));
    // The nearer (blue) sphere wins even though it was added second.
    assert_eq!(rec.t, 1_500_000);
    assert_eq!(rec.material, blue);
}

#[test]
fn list_resolves_exact_ties_by_insertion_order() {
    let first = Material::Lambertian(Lambertian { albedo: v(900_000, 0, 0) });
    let second = Material::Lambertian(Lambertian { albedo: v(0, 900_000, 0) });
    let mut world: HittableList = Default::default();
    world.add(Hittable::Sphere(Sphere {
        center: v(0, 0, -2_000_000),
        radius: 500_000,
        material: first,
    }));
    world.add(Hittable::Sphere(Sphere {
        center: v(0, 0, -2_000_000),
        radius: 500_000,
        material: second,
    }));
    let ray = Ray { orig: v(0, 0, 0), dir: v(0, 0, -1_000_000) };
    let mut rec: HitRecord = Default::default();
    assert!(world.hit(ray, Interval(0, INFINITY), &mut rec));
    assert_eq!(rec.material, first);
}

#[test]
fn set_face_normal_orients_against_the_ray() {
    let ray = Ray { orig: v(0, 0, 0), dir: v(0, 0, -1_000_000) };
    let outward = v(0, 0, 1_000_000);

    let mut rec: HitRecord = Default::default();
    rec.set_face_normal(ray, outward);
    assert!(rec.front_face);
    assert_eq!(rec.normal, outward);

    // The same outward normal seen from the other side is negated.
    let leaving = Ray { orig: v(0, 0, 0), dir: v(0, 0, 1_000_000) };
    let mut rec: HitRecord = Default::default();
    rec.set_face_normal(leaving, outward);
    assert!(!rec.front_face);
    assert_eq!(rec.normal, v(0, 0, -1_000_000));
}

#[test]
fn empty_list_hits_nothing() {
    let world: HittableList = Default::default();
    let ray = Ray { orig: v(0, 0, 0), dir: v(0, 0, -1_000_000) };
    let mut rec: HitRecord = Default::default();
    assert!(!world.hit(ray, Interval(0, INFINITY), &mut rec));
}

#[test]
fn add_and_clear_change_the_object_count() {
    let mut world: HittableList = Default::default();
    assert_eq!(world.objects.len(), 0);
    world.add(Hittable::Sphere(Sphere {
        center: v(0, 0, -2_000_000),
        radius: 500_000,
        material: gray(),
    }));
    assert_eq!(world.objects.len(), 1);
    world.clear();
    assert_eq!(world.objects.len(), 0);
}
