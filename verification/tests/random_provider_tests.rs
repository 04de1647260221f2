use saberbb::random_provider::{RandomProvider, RealRng};

#[test]
fn same_seed_generates_same_gen_range() {
    let mut rng1 = RealRng::from_seed(55);
    let mut rng2 = RealRng::from_seed(55);

    assert_eq!(rng1.gen_range(0, 100), rng2.gen_range(0, 100));
}

#[test]
fn different_seeds_generate_different_gen_range() {
    let mut rng1 = RealRng::from_seed(1);
    let mut rng2 = RealRng::from_seed(2);

    assert_ne!(rng1.gen_range(10, 20), rng2.gen_range(10, 20));
}

#[test]
fn real_gen_range_stays_within_bounds() {
    let mut rng = RealRng::from_seed(42);

    for _ in 0..20 {
        let val = rng.gen_range(5, 15);
        assert!(val >= 5);
        assert!(val <= 15);
    }
}

#[test]
fn real_gen_range_handles_narrow_range() {
    let mut rng = RealRng::from_seed(99);

    let val = rng.gen_range(7, 7);
    assert_eq!(val, 7);
}

#[test]
fn real_gen_range_spreads_over_the_range() {
    let mut rng = RealRng::from_seed(3);
    let mut seen = [false; 101];

    for _ in 0..400 {
        let val = rng.gen_range(1, 100);
        assert!((1..=100).contains(&val));
        seen[val] = true;
    }
    // The draws are not stuck at one end of the range.
    assert!(seen.iter().filter(|s| **s).count() > 50);
    assert!(!seen[0]);
}
