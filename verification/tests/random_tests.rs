use roguelike::random::{rand_between, Random};

#[test]
fn random_starts_with_seed_666() {
    let rng = Random::new();
    assert_eq!(rng.0, 666);
}

#[test]
fn random_next_follows_the_lcg() {
    let mut rng = Random::new();
    assert_eq!(rng.next(), 501757899);
    assert_eq!(rng.0, 501757899);
    assert_eq!(rng.next(), 786549672);
    // The state wraps around 2^32; the output keeps the low 31 bits.
    assert_eq!(rng.next(), 1847662273);
    assert_eq!(rng.0, 3995145921);
}

#[test]
fn random_output_stays_below_2_pow_31() {
    let mut rng = Random(0xFFFF_FFFF);
    for _ in 0..1000 {
        assert!(rng.next() < 0x8000_0000);
    }
}

#[test]
fn rand_between_stays_in_range() {
    let mut rng = Random::new();
    for _ in 0..1000 {
        let v = rand_between(&mut rng, 3, 24);
        assert!(v >= 3 && v < 24);
    }
}

#[test]
fn rand_between_exact_value() {
    let mut rng = Random::new();
    // 501757899 % 21 == 9
    assert_eq!(rand_between(&mut rng, 3, 24), 3 + 501757899 % 21);
    let mut rng = Random::new();
    assert_eq!(rand_between(&mut rng, 5, 6), 5);
}
