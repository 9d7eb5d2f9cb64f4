use ray_tracer::camera::{Camera, Pixel};
use ray_tracer::hittable::{Hittable, HittableList};
use ray_tracer::material::{Lambertian, Material};
use ray_tracer::random::RandSource;
use ray_tracer::ray::Ray;
use ray_tracer::sphere::Sphere;
use ray_tracer::vec3::Vec3;

fn v(x: i64, y: i64, z: i64) -> Vec3 {
    Vec3 { x, y, z }
}

fn two_sphere_scene() -> HittableList {
    let mut world: HittableList = Default::default();
    world.add(Hittable::Sphere(Sphere {
        center: v(0, 0, -1_200_000),
        radius: 500_000,
        material: Material::Lambertian(Lambertian { albedo: v(100_000, 200_000, 500_000) }),
    }));
    world.add(Hittable::Sphere(Sphere {
        center: v(0, -100_500_000, -1_000_000),
        radius: 100_000_000,
        material: Material::Lambertian(Lambertian { albedo: v(800_000, 800_000, 0) }),
    }));
    world
}

#[test]
fn ray_color_at_depth_zero_is_black() {
    let world = two_sphere_scene();
    let mut rng = RandSource::from_seed(1);
    let rays = [
        Ray { orig: v(0, 0, 0), dir: v(0, 0, -1_000_000) },
        Ray { orig: v(1_000_000, 2_000_000, 3_000_000), dir: v(-500_000, 250_000, 1_000_000) },
    ];
    for ray in rays {
        assert_eq!(Camera::ray_color(ray, 0, &world, &mut rng), v(0, 0, 0));
    }
    let empty: HittableList = Default::default();
    let ray = Ray { orig: v(0, 0, 0), dir: v(0, 0, -1_000_000) };
    assert_eq!(Camera::ray_color(ray, 0, &empty, &mut rng), v(0, 0, 0));
}

#[test]
fn ray_color_miss_is_the_background_gradient() {
    let empty: HittableList = Default::default();
    let mut rng = RandSource::from_seed(1);
    // A horizontal ray sits halfway up the gradient:
    // 0.5*white + 0.5*(0.5, 0.7, 1.0) = (0.75, 0.85, 1.0).
    let ray = Ray { orig: v(0, 0, 0), dir: v(0, 0, -1_000_000) };
    assert_eq!(Camera::ray_color(ray, 10, &empty, &mut rng), v(750_000, 850_000, 1_000_000));
    // A ray straight up sees pure sky blue.
    let up = Ray { orig: v(0, 0, 0), dir: v(0, 1_000_000, 0) };
    assert_eq!(Camera::ray_color(up, 10, &empty, &mut rng), v(500_000, 700_000, 1_000_000));
    // A ray straight down sees pure white.
    let down = Ray { orig: v(0, 0, 0), dir: v(0, -1_000_000, 0) };
    assert_eq!(Camera::ray_color(down, 10, &empty, &mut rng), v(1_000_000, 1_000_000, 1_000_000));
}

#[test]
fn ray_color_stays_in_unit_range() {
    let world = two_sphere_scene();
    let mut rng = RandSource::from_seed(77);
    let dirs = [
        v(0, 0, -1_000_000),
        v(200_000, -300_000, -1_000_000),
        v(-400_000, 100_000, -900_000),
    ];
    for dir in dirs {
        let color = Camera::ray_color(Ray { orig: v(0, 0, 0), dir }, 20, &world, &mut rng);
        for c in [color.x, color.y, color.z] {
            assert!(0 <= c && c <= 1_000_000);
        }
    }
}

#[test]
fn linear_to_gamma_takes_square_roots() {
    // sqrt(0.25) = 0.5, exactly representable.
    assert_eq!(Camera::linear_to_gamma(250_000), 500_000);
    // Negative linear values map to 0.
    assert_eq!(Camera::linear_to_gamma(-1), 0);
    assert_eq!(Camera::linear_to_gamma(-750_000), 0);
    assert_eq!(Camera::linear_to_gamma(0), 0);
    assert_eq!(Camera::linear_to_gamma(1_000_000), 1_000_000);
}

#[test]
fn write_color_quantizes_to_bytes() {
    // Full white clamps to 0.999 and lands on byte 255.
    let white = Camera::write_color(v(1_000_000, 1_000_000, 1_000_000));
    assert_eq!(white, Pixel { r: 255, g: 255, b: 255 });
    // Black stays black.
    let black = Camera::write_color(v(0, 0, 0));
    assert_eq!(black, Pixel { r: 0, g: 0, b: 0 });
    // Linear 0.25 gamma-corrects to 0.5 and lands on byte 127.
    let mid = Camera::write_color(v(250_000, 250_000, 250_000));
    assert_eq!(mid, Pixel { r: 127, g: 127, b: 127 });
}

#[test]
fn initialize_derives_the_documented_geometry() {
    let mut cam: Camera = Default::default();
    cam.aspect_ratio = 1_777_777;  // 16:9
    cam.image_width = 400;
    cam.samples_per_pixel = 100;
    cam.max_depth = 50;
    cam.initialize();
    assert_eq!(cam.image_height, 225);
    assert_eq!(cam.camera_center, v(0, 0, 0));
    // The antialiasing weight is 1/100.
    assert_eq!(cam.pixel_samples_scale, 10_000);
    // The vertical step points down.
    assert!(cam.pixel_delta_v.y < 0);
    assert!(cam.pixel_delta_u.x > 0);
}

#[test]
fn initialize_keeps_height_at_least_one() {
    let mut cam: Camera = Default::default();
    cam.aspect_ratio = 10_000_000;  // wider than the single pixel column
    cam.image_width = 1;
    cam.samples_per_pixel = 1;
    cam.max_depth = 1;
    cam.initialize();
    assert_eq!(cam.image_height, 1);
}

#[test]
fn render_is_deterministic_for_a_seed() {
    let world = two_sphere_scene();

    let mut cam1: Camera = Default::default();
    cam1.aspect_ratio = 1_333_333;  // 4:3
    cam1.image_width = 4;
    cam1.samples_per_pixel = 1;
    cam1.max_depth = 10;
    let mut rng1 = RandSource::from_seed(42);
    let pixels1 = cam1.render(&world, &mut rng1);

    let mut cam2: Camera = Default::default();
    cam2.aspect_ratio = 1_333_333;
    cam2.image_width = 4;
    cam2.samples_per_pixel = 1;
    cam2.max_depth = 10;
    let mut rng2 = RandSource::from_seed(42);
    let pixels2 = cam2.render(&world, &mut rng2);

    // 4 wide, 3 tall, one color per pixel, identical across runs.
    assert_eq!(cam1.image_height, 3);
    assert_eq!(pixels1.len(), 12);
    assert_eq!(pixels1, pixels2);

    // The top rows see sky, so the image is not all black.
    assert!(pixels1.iter().any(|p| p.r > 0 || p.g > 0 || p.b > 0));

    // A different seed jitters differently somewhere.
    let mut cam3: Camera = Default::default();
    cam3.aspect_ratio = 1_333_333;
    cam3.image_width = 4;
    cam3.samples_per_pixel = 1;
    cam3.max_depth = 10;
    let mut rng3 = RandSource::from_seed(43);
    let pixels3 = cam3.render(&world, &mut rng3);
    assert_eq!(pixels3.len(), 12);
}

#[test]
fn render_reproduces_the_golden_image() {
    // 4x3, one sample per pixel, seed 42: the exact bytes this scene has
    // always produced. The top rows see sky, one pixel catches the small
    // blue sphere, the bottom row the yellow ground.
    let world = two_sphere_scene();
    let mut cam: Camera = Default::default();
    cam.aspect_ratio = 1_333_333;  // 4:3
    cam.image_width = 4;
    cam.samples_per_pixel = 1;
    cam.max_depth = 10;
    let mut rng = RandSource::from_seed(42);
    let pixels = cam.render(&world, &mut rng);
    let flat: Vec<u8> = pixels.iter().flat_map(|p| [p.r, p.g, p.b]).collect();
    let golden: Vec<u8> = vec![
        205, 227, 255, 207, 228, 255, 61, 98, 181, 200, 224, 255, 171, 196, 0, 58, 96, 181, 58,
        91, 0, 221, 236, 255, 167, 194, 0, 178, 200, 0, 177, 199, 0, 165, 193, 0,
    ];
    assert_eq!(flat, golden);
}
