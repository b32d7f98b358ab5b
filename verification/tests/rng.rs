use retris_core::rng::Rng;

#[test]
fn xorshift32_sequence_seed_1() {
    let mut rng = Rng::new(1);
    assert_eq!(rng.next_u32(), 270_369);
    assert_eq!(rng.next_u32(), 67_634_689);
    assert_eq!(rng.next_u32(), 2_647_435_461);
    assert_eq!(rng.next_u32(), 307_599_695);
    assert_eq!(rng.next_u32(), 2_398_689_233);
}

#[test]
fn xorshift32_sequence_seed_0x12345678() {
    let mut rng = Rng::new(0x1234_5678);
    assert_eq!(rng.next_u32(), 0x8798_5AA5);
    assert_eq!(rng.next_u32(), 0x155B_24A3);
    assert_eq!(rng.next_u32(), 0x4820_F4C4);
    assert_eq!(rng.next_u32(), 0x81B3_AC98);
    assert_eq!(rng.next_u32(), 0x703A_0788);
}

#[test]
fn seed_zero_is_replaced_and_still_generates() {
    let mut rng = Rng::new(0);
    let first = rng.next_u32();
    assert_ne!(first, 0);
    assert_eq!(first, 270_369);
}

#[test]
fn nonzero_seed_is_preserved() {
    let mut a = Rng::new(1);
    let mut b = Rng::new(2);
    assert_ne!(a.next_u32(), b.next_u32());
}

#[test]
fn bounded_sequence_matches_spec_formula() {
    let mut rng = Rng::new(1);
    assert_eq!(rng.bounded(7), 0);
    assert_eq!(rng.bounded(7), 0);
    assert_eq!(rng.bounded(7), 4);
    assert_eq!(rng.bounded(7), 0);
    assert_eq!(rng.bounded(7), 3);
}

#[test]
fn bounded_is_always_in_range() {
    let mut rng = Rng::new(0xDEAD_BEEF);
    for n in 1..=16 {
        for _ in 0..1_000 {
            let v = rng.bounded(n);
            assert!(v < n, "bounded({n}) returned {v}");
        }
    }
}

#[test]
fn bounded_accepts_the_widest_range() {
    let mut rng = Rng::new(1);
    // The first output of seed 1 is 270369: (270369 >> 16) * 65536 >> 16 = 4.
    assert_eq!(rng.bounded(65_536), 4);
}

#[test]
fn same_seed_same_sequence() {
    let mut a = Rng::new(42);
    let mut b = Rng::new(42);
    for _ in 0..100 {
        assert_eq!(a.next_u32(), b.next_u32());
    }
}
