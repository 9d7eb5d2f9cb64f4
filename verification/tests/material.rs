use ray_tracer::hittable::HitRecord;
use ray_tracer::material::{Dielectric, Lambertian, Material, Metal};
use ray_tracer::random::RandSource;
use ray_tracer::ray::Ray;
use ray_tracer::vec3::Vec3;

fn v(x: i64, y: i64, z: i64) -> Vec3 {
    Vec3 { x, y, z }
}

fn record_at_origin(normal: Vec3, front_face: bool, material: Material) -> HitRecord {
    HitRecord { point: v(0, 0, 0), normal, t: 1_000_000, front_face, material }
}

#[test]
fn lambertian_always_scatters_with_albedo_attenuation() {
    let albedo = v(100_000, 200_000, 500_000);
    let lambertian = Lambertian { albedo };
    let rec = record_at_origin(v(0, 0, 1_000_000), true, Material::Lambertian(lambertian));
    let ray = Ray { orig: v(0, 0, 1_000_000), dir: v(0, 0, -1_000_000) };
    let mut rng = RandSource::from_seed(11);
    for _ in 0..64 {
        let out = lambertian.scatter(&ray, &rec, &mut rng);
        assert!(out.is_some());
        let (scattered, attenuation) = out.unwrap();
        assert_eq!(attenuation, albedo);
        assert_eq!(scattered.orig, rec.point);
    }
}

#[test]
fn metal_with_zero_fuzz_mirrors_exactly() {
    let albedo = v(800_000, 800_000, 800_000);
    let metal = Metal { albedo, fuzz: 0 };
    let rec = record_at_origin(v(0, 0, 1_000_000), true, Material::Metal(metal));
    // Normal-aligned incoming ray: straight down the normal.
    let ray = Ray { orig: v(0, 0, 1_000_000), dir: v(0, 0, -1_000_000) };
    let mut rng = RandSource::from_seed(5);
    let out = metal.scatter(&ray, &rec, &mut rng);
    assert!(out.is_some());
    let (scattered, attenuation) = out.unwrap();
    // Exact mirror reflection: d - 2*dot(d,n)*n = (0, 0, 1).
    assert_eq!(scattered.dir, v(0, 0, 1_000_000));
    assert_eq!(scattered.dir, Vec3::reflect(&ray.dir, &rec.normal).unit());
    assert_eq!(attenuation, albedo);
}

#[test]
fn metal_absorbs_rays_reflected_into_the_surface() {
    let metal = Metal { albedo: v(800_000, 800_000, 800_000), fuzz: 0 };
    // An incoming ray leaving the surface reflects to point into it.
    let rec = record_at_origin(v(0, 0, 1_000_000), true, Material::Metal(metal));
    let ray = Ray { orig: v(0, 0, 0), dir: v(0, 0, 1_000_000) };
    let mut rng = RandSource::from_seed(5);
    assert!(metal.scatter(&ray, &rec, &mut rng).is_none());
}

#[test]
fn dielectric_matching_exterior_passes_straight_through() {
    // Refraction index 1.0: the same medium on both sides.
    let glass = Dielectric { refraction_index: 1_000_000 };
    let rec = record_at_origin(v(0, 0, 1_000_000), true, Material::Dielectric(glass));
    let ray = Ray { orig: v(0, 0, 1_000_000), dir: v(0, 0, -1_000_000) };
    let mut rng = RandSource::from_seed(23);
    for _ in 0..64 {
        let out = glass.scatter(&ray, &rec, &mut rng);
        assert!(out.is_some());
        let (scattered, attenuation) = out.unwrap();
        // No bending: the outgoing ray is colinear with the incoming one.
        assert_eq!(scattered.dir, ray.dir);
        // Dielectrics never absorb: attenuation is white.
        assert_eq!(attenuation, v(1_000_000, 1_000_000, 1_000_000));
    }
}

#[test]
fn dielectric_always_scatters_white() {
    let glass = Dielectric { refraction_index: 1_500_000 };
    let rec = record_at_origin(v(0, 0, 1_000_000), true, Material::Dielectric(glass));
    let ray = Ray { orig: v(0, 0, 1_000_000), dir: v(300_000, 0, -1_000_000) };
    let mut rng = RandSource::from_seed(9);
    for _ in 0..32 {
        let out = glass.scatter(&ray, &rec, &mut rng);
        assert!(out.is_some());
        assert_eq!(out.unwrap().1, v(1_000_000, 1_000_000, 1_000_000));
    }
}

#[test]
fn dielectric_reflects_under_total_internal_reflection() {
    // Leaving glass (index 1.5) at sin = 0.8: 1.5 * 0.8 > 1, so the ray
    // must mirror-reflect, exactly.
    let glass = Dielectric { refraction_index: 1_500_000 };
    let rec = record_at_origin(v(0, 0, 1_000_000), false, Material::Dielectric(glass));
    let ray = Ray { orig: v(0, 0, 1_000_000), dir: v(800_000, 0, -600_000) };
    let mut rng = RandSource::from_seed(17);
    for _ in 0..16 {
        let (scattered, _) = glass.scatter(&ray, &rec, &mut rng).unwrap();
        assert_eq!(scattered.dir, v(800_000, 0, 600_000));
    }
}

#[test]
fn dielectric_entering_glass_head_on_goes_straight_or_mirrors() {
    // Entering glass head-on: refraction does not bend the ray; the
    // Schlick draw (reflectance 0.04) may occasionally mirror it instead.
    let glass = Dielectric { refraction_index: 1_500_000 };
    let rec = record_at_origin(v(0, 0, 1_000_000), true, Material::Dielectric(glass));
    let ray = Ray { orig: v(0, 0, 1_000_000), dir: v(0, 0, -1_000_000) };
    let mut rng = RandSource::from_seed(29);
    let mut saw_refraction = false;
    for _ in 0..64 {
        let (scattered, _) = glass.scatter(&ray, &rec, &mut rng).unwrap();
        assert!(
            scattered.dir == v(0, 0, -1_000_000) || scattered.dir == v(0, 0, 1_000_000)
        );
        if scattered.dir == v(0, 0, -1_000_000) {
            saw_refraction = true;
        }
    }
    assert!(saw_refraction);
}

#[test]
fn reflectance_matches_schlick_values() {
    // Glancing incidence (cos = 0) on glass reflects with certainty.
    assert_eq!(Dielectric::reflectance(0, 1_500_000), 1_000_000);
    // Head-on incidence (cos = 1) on glass: r0 = ((1-1.5)/(1+1.5))^2 = 0.04.
    assert_eq!(Dielectric::reflectance(1_000_000, 1_500_000), 40_000);
}

#[test]
fn material_dispatch_reaches_each_variant() {
    let rec_normal = v(0, 0, 1_000_000);
    let ray = Ray { orig: v(0, 0, 1_000_000), dir: v(0, 0, -1_000_000) };
    let mut rng = RandSource::from_seed(3);

    let lambertian = Material::Lambertian(Lambertian { albedo: v(100_000, 200_000, 500_000) });
    let rec = record_at_origin(rec_normal, true, lambertian);
    assert!(lambertian.scatter(&ray, &rec, &mut rng).is_some());

    let metal = Material::Metal(Metal { albedo: v(800_000, 800_000, 800_000), fuzz: 0 });
    let rec = record_at_origin(rec_normal, true, metal);
    let (scattered, _) = metal.scatter(&ray, &rec, &mut rng).unwrap();
    assert_eq!(scattered.dir, v(0, 0, 1_000_000));

    let glass = Material::Dielectric(Dielectric { refraction_index: 1_000_000 });
    let rec = record_at_origin(rec_normal, true, glass);
    let (scattered, _) = glass.scatter(&ray, &rec, &mut rng).unwrap();
    assert_eq!(scattered.dir, v(0, 0, -1_000_000));
}
