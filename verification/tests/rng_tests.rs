use mapgen_core::config::{GeneratorParams, WalkerParams};
use mapgen_core::generator::Generator;
use mapgen_core::random::{seed_from_str, Random};
use mapgen_core::walker::NormalWaypoints;

#[test]
fn same_seed_gives_same_stream() {
    let mut a = Random::new(0xDEADBEEF);
    let mut b = Random::new(0xDEADBEEF);
    for _ in 0..64 {
        assert_eq!(a.gen_u64(), b.gen_u64());
    }
}

#[test]
fn different_seeds_give_different_streams() {
    let mut a = Random::new(1);
    let mut b = Random::new(2);
    let mut all_equal = true;
    for _ in 0..8 {
        if a.gen_u64() != b.gen_u64() {
            all_equal = false;
        }
    }
    assert!(!all_equal);
}

#[test]
fn skip_consumes_exactly_one_word() {
    let mut a = Random::new(42);
    let mut b = Random::new(42);
    let _ = a.gen_u64();
    b.skip();
    assert_eq!(a.gen_u64(), b.gen_u64());
}

#[test]
fn skip_n_consumes_n_words() {
    let mut a = Random::new(7);
    let mut b = Random::new(7);
    for _ in 0..5 {
        let _ = a.gen_u64();
    }
    b.skip_n(5);
    assert_eq!(a.gen_u64(), b.gen_u64());
}

#[test]
fn gen_bool_extremes_still_consume_one_word() {
    let mut a = Random::new(9);
    let mut b = Random::new(9);
    let mut c = Random::new(9);
    assert!(!a.gen_bool(0));
    assert!(b.gen_bool(1_000_000));
    c.skip();
    let x = a.gen_u64();
    assert_eq!(x, b.gen_u64());
    assert_eq!(x, c.gen_u64());
}

#[test]
fn in_range_stays_in_range() {
    let mut a = Random::new(1234);
    for _ in 0..100 {
        let v = a.in_range(3, 9);
        assert!(v >= 3 && v < 9);
    }
}

#[test]
fn pick_returns_an_element() {
    let mut a = Random::new(5);
    let values: Vec<u32> = vec![10, 20, 30];
    for _ in 0..10 {
        let v = *a.pick(&values);
        assert!(v == 10 || v == 20 || v == 30);
    }
}

#[test]
fn string_seed_is_stable() {
    let a = seed_from_str("a map seed");
    let b = seed_from_str("a map seed");
    let c = seed_from_str("another seed");
    assert_eq!(a, b);
    assert_ne!(a, c);
}

#[test]
fn random_seed_drives_a_usable_stream() {
    let seed = mapgen_core::random::random_seed();
    let mut a = Random::new(seed);
    let mut b = Random::new(seed);
    assert_eq!(a.gen_u64(), b.gen_u64());
}

#[test]
fn string_seeded_generation_is_reproducible() {
    let wps = NormalWaypoints::from_coords(vec![(0, 500), (1000, 500)]);
    let mut a = Generator::new_with_string_seed(
        GeneratorParams::easy(),
        &WalkerParams::easy(),
        &wps,
        "green hills",
        120,
        80,
    )
    .unwrap();
    let mut b = Generator::new_with_string_seed(
        GeneratorParams::easy(),
        &WalkerParams::easy(),
        &wps,
        "green hills",
        120,
        80,
    )
    .unwrap();
    a.finalize(200_000).unwrap();
    b.finalize(200_000).unwrap();
    for x in 0..120 {
        for y in 0..80 {
            assert_eq!(a.map.tile_at(x, y), b.map.tile_at(x, y));
        }
    }
}
