use mapgen_core::dist::{ProbableValue, RandomDist, RandomDistConfig};
use mapgen_core::error::GenError;
use mapgen_core::random::Random;

#[test]
fn empty_table_is_rejected_at_normalization() {
    let mut cfg: RandomDistConfig<u32> = RandomDistConfig::new();
    assert_eq!(cfg.normalize_probs(), Err(GenError::EmptyDistribution));
}

#[test]
fn empty_table_is_rejected_when_building_a_distribution() {
    let cfg: RandomDistConfig<u32> = RandomDistConfig::new();
    assert!(matches!(RandomDist::from_config(cfg), Err(GenError::EmptyDistribution)));
}

#[test]
fn all_zero_weights_become_uniform() {
    let mut cfg = RandomDistConfig::from_values(vec![
        ProbableValue::new(0, 1u32),
        ProbableValue::new(0, 2u32),
    ]);
    assert_eq!(cfg.normalize_probs(), Ok(()));
    assert_eq!(cfg.get(0).0, 500_000);
    assert_eq!(cfg.get(1).0, 500_000);
    assert_eq!(cfg.get(0).1, 1);
    assert_eq!(cfg.get(1).1, 2);
}

#[test]
fn normalized_table_is_kept() {
    let mut cfg = RandomDistConfig::from_values(vec![
        ProbableValue::new(250_000, 7u32),
        ProbableValue::new(750_000, 8u32),
    ]);
    assert_eq!(cfg.normalize_probs(), Ok(()));
    assert_eq!(cfg.get(0).0, 250_000);
    assert_eq!(cfg.get(1).0, 750_000);
}

#[test]
fn unnormalized_table_is_scaled_by_its_sum() {
    let mut cfg = RandomDistConfig::from_values(vec![
        ProbableValue::new(1, 0u32),
        ProbableValue::new(3, 1u32),
    ]);
    assert_eq!(cfg.normalize_probs(), Ok(()));
    assert_eq!(cfg.get(0).0, 250_000);
    assert_eq!(cfg.get(1).0, 750_000);
}

#[test]
fn sample_index_is_in_bounds_and_deterministic() {
    let cfg = RandomDistConfig::from_values(vec![
        ProbableValue::new(100_000, 0usize),
        ProbableValue::new(500_000, 1usize),
        ProbableValue::new(400_000, 2usize),
    ]);
    let dist = RandomDist::from_config(cfg).unwrap();
    let mut a = Random::new(77);
    let mut b = Random::new(77);
    for _ in 0..50 {
        let i = a.sample_index(&dist);
        let j = b.sample_index(&dist);
        assert!(i < 3);
        assert_eq!(i, j);
    }
}

#[test]
fn sample_consumes_exactly_two_words() {
    let cfg = RandomDistConfig::from_values(vec![
        ProbableValue::new(500_000, 10usize),
        ProbableValue::new(500_000, 20usize),
    ]);
    let dist = RandomDist::from_config(cfg).unwrap();
    let mut a = Random::new(11);
    let mut b = Random::new(11);
    let _ = a.sample_value(&dist);
    b.skip_n(2);
    assert_eq!(a.gen_u64(), b.gen_u64());
}

#[test]
fn heavy_weight_dominates_samples() {
    let cfg = RandomDistConfig::from_values(vec![
        ProbableValue::new(990_000, 0usize),
        ProbableValue::new(10_000, 1usize),
    ]);
    let dist = RandomDist::from_config(cfg).unwrap();
    let mut rng = Random::new(123);
    let mut zeros = 0;
    for _ in 0..200 {
        if rng.sample_index(&dist) == 0 {
            zeros += 1;
        }
    }
    assert!(zeros > 150);
}
