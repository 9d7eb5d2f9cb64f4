use ray_tracer::ray::Ray;
use ray_tracer::vec3::Vec3;

fn v(x: i64, y: i64, z: i64) -> Vec3 {
    Vec3 { x, y, z }
}

#[test]
fn get_at() {
    let r = Ray { orig: v(1_000_000, 1_000_000, 0), dir: v(1_000_000, 2_200_000, 500_000) };

    let ray = r.at(5_000_000);

    assert!((ray.x - 6_000_000).abs() <= 1);
    assert!((ray.y - 12_000_000).abs() <= 1);
    assert!((ray.z - 2_500_000).abs() <= 1)
}

#[test]
fn at_is_origin_plus_t_times_direction() {
    let r = Ray { orig: v(3_000_000, -1_000_000, 250_000), dir: v(-2_000_000, 500_000, 4_000_000) };
    for t in [-1_500_000i64, 0, 750_000, 2_000_000] {
        assert_eq!(r.at(t), r.origin().add(r.direction().scale(t)));
    }
    // t = 0 lands on the origin itself.
    assert_eq!(r.at(0), r.origin());
}

#[test]
fn origin_and_direction_are_the_fields() {
    let r = Ray { orig: v(1, 2, 3), dir: v(4, 5, 6) };
    assert_eq!(r.origin(), v(1, 2, 3));
    assert_eq!(r.direction(), v(4, 5, 6));
}
