use ray_tracer::fixed::ONE;
use ray_tracer::random::{random, random_within, RandSource};

#[test]
fn random_stays_in_the_unit_interval() {
    let mut rng = RandSource::from_seed(99);
    for _ in 0..1000 {
        let r = random(&mut rng);
        assert!(0 <= r && r < ONE);
    }
}

#[test]
fn random_within_stays_in_its_bounds() {
    let mut rng = RandSource::from_seed(100);
    for _ in 0..1000 {
        let r = random_within(&mut rng, -ONE, ONE);
        assert!(-ONE <= r && r < ONE);
    }
    for _ in 0..100 {
        let r = random_within(&mut rng, 3_000_000, 3_000_010);
        assert!(3_000_000 <= r && r < 3_000_010);
    }
}

#[test]
fn equal_seeds_draw_equal_streams() {
    let mut a = RandSource::from_seed(2024);
    let mut b = RandSource::from_seed(2024);
    for _ in 0..64 {
        assert_eq!(a.next_u64(), b.next_u64());
    }
}

#[test]
fn different_seeds_diverge() {
    let mut a = RandSource::from_seed(1);
    let mut b = RandSource::from_seed(2);
    let mut all_equal = true;
    for _ in 0..16 {
        if a.next_u64() != b.next_u64() {
            all_equal = false;
        }
    }
    assert!(!all_equal);
}
