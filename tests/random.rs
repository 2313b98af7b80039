use jfxr::oscillator::{Random, NOISE_SEED};

#[test]
fn noise_seed_first_draws() {
    let mut r = Random::new(NOISE_SEED);
    assert_eq!(r.uint32(), 91492987);
    assert_eq!(r.uint32(), 1477143755);
    assert_eq!(r.uint32(), 3546181110);
}

#[test]
fn seed_zero_first_draws() {
    let mut r = Random::new(0);
    assert_eq!(r.uint32(), 2227997766);
    assert_eq!(r.uint32(), 1188944460);
    assert_eq!(r.uint32(), 1379442360);
}

#[test]
fn same_seed_same_draws() {
    let mut a = Random::new(12345);
    let mut b = Random::new(12345);
    for _ in 0..1000 {
        assert_eq!(a.uint32(), b.uint32());
    }
}

#[test]
fn different_seed_different_draws() {
    let mut a = Random::new(0);
    let mut b = Random::new(1);
    let da: Vec<u32> = (0..4).map(|_| a.uint32()).collect();
    let db: Vec<u32> = (0..4).map(|_| b.uint32()).collect();
    assert_ne!(da, db);
    assert_eq!(db[0], 331314773);
}
