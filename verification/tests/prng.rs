use qlearning_maze::prng::{DRAW_RANGE, LCG_INCREMENT, LCG_MULTIPLIER};
use qlearning_maze::Contract;

#[test]
fn generator_uses_the_documented_constants() {
    assert_eq!(LCG_MULTIPLIER, 1664525);
    assert_eq!(LCG_INCREMENT, 1013904223);
    assert_eq!(DRAW_RANGE, 100);
}

#[test]
fn draw_from_42_is_reproducible() {
    let first = Contract::pseudo_random(42);
    let second = Contract::pseudo_random(42);
    assert_eq!(first, second);
    assert_eq!(first, (73, 1083814273));
}

#[test]
fn draws_from_small_seeds() {
    assert_eq!(Contract::pseudo_random(0), (23, 1013904223));
    assert_eq!(Contract::pseudo_random(1), (48, 1015568748));
    assert_eq!(Contract::pseudo_random(1083814273), (88, 378494188));
}

#[test]
fn draw_wraps_modulo_two_to_the_32() {
    assert_eq!(Contract::pseudo_random(u32::MAX), (98, 1012239698));
    let expected = (1664525u64 * 4_000_000_000u64 + 1013904223u64) % (1u64 << 32);
    let (value, seed) = Contract::pseudo_random(4_000_000_000);
    assert_eq!(seed as u64, expected);
    assert_eq!(value as u64, expected % 100);
}

#[test]
fn chain_of_1000_draws_from_seed_1() {
    let mut seed = 1u32;
    let mut values = Vec::new();
    for _ in 0..1000 {
        let (value, next) = Contract::pseudo_random(seed);
        assert!(value < 100);
        assert_eq!(value, next % 100);
        values.push(value);
        seed = next;
    }
    assert_eq!(seed, 645503657);
    assert_eq!(&values[..5], &[48, 67, 38, 65, 32]);
    assert_eq!(values[999], 57);
    assert_eq!(values.iter().sum::<u32>(), 48140);
}

#[test]
fn two_chains_from_the_same_seed_agree() {
    let mut a = 2024u32;
    let mut b = 2024u32;
    for _ in 0..200 {
        let (va, na) = Contract::pseudo_random(a);
        let (vb, nb) = Contract::pseudo_random(b);
        assert_eq!((va, na), (vb, nb));
        a = na;
        b = nb;
    }
}
