use r30rg::prng::{value_in_range, DeterministicRng};
use rand::Rng;
use rand::SeedableRng;
use rand_chacha::ChaCha20Rng;

#[test]
fn deterministic_same_seed_same_sequence() {
    let mut a = DeterministicRng::new(42);
    let mut b = DeterministicRng::new(42);
    for _ in 0..1000 {
        assert_eq!(a.next_u64(), b.next_u64());
    }
}

#[test]
fn deterministic_different_seed_different_sequence() {
    let mut a = DeterministicRng::new(42);
    let mut b = DeterministicRng::new(43);
    let mut same = 0;
    for _ in 0..100 {
        if a.next_u64() == b.next_u64() {
            same += 1;
        }
    }
    assert!(same < 5, "too many collisions: {same}");
}

#[test]
fn range_is_inclusive() {
    let mut rng = DeterministicRng::new(0);
    let mut seen_min = false;
    let mut seen_max = false;
    for _ in 0..10_000 {
        let v = rng.range(5, 10);
        assert!(v >= 5 && v <= 10);
        if v == 5 {
            seen_min = true;
        }
        if v == 10 {
            seen_max = true;
        }
    }
    assert!(seen_min && seen_max);
}

#[test]
fn fork_produces_different_stream() {
    let mut parent = DeterministicRng::new(99);
    let mut child = parent.fork();
    let mut same = 0;
    for _ in 0..100 {
        if parent.next_u64() == child.next_u64() {
            same += 1;
        }
    }
    assert!(same < 5);
}

#[test]
fn draws_follow_the_chacha20_keystream() {
    // The generator is ChaCha20 keyed by the seed's little-endian bytes; its
    // draws, across several 32-draw blocks, are the keystream's u64 values.
    let seed = 0x0123_4567_89ab_cdefu64;
    let mut key = [0u8; 32];
    key[..8].copy_from_slice(&seed.to_le_bytes());
    let mut reference = ChaCha20Rng::from_seed(key);
    let mut rng = DeterministicRng::new(seed);
    for _ in 0..100 {
        let expected: u64 = reference.gen();
        assert_eq!(rng.next_u64(), expected);
    }
    assert_eq!(rng.operations(), 100);
    assert_eq!(rng.seed(), seed);
}

#[test]
fn operations_count_every_draw() {
    let mut rng = DeterministicRng::new(7);
    assert_eq!(rng.operations(), 0);
    rng.next_u64();
    rng.next_bool();
    rng.chance(u64::MAX / 2);
    assert_eq!(rng.operations(), 3);
    // An empty range makes no draw and gives its lower end.
    assert_eq!(rng.range(9, 9), 9);
    assert_eq!(rng.range(9, 3), 9);
    assert_eq!(rng.operations(), 3);
    rng.range(1, 2);
    assert_eq!(rng.operations(), 4);
}

#[test]
fn chance_extremes() {
    let mut rng = DeterministicRng::new(5);
    for _ in 0..200 {
        assert!(!rng.chance(0));
    }
}

#[test]
fn next_bool_is_the_parity_of_the_draw() {
    let mut a = DeterministicRng::new(11);
    let mut b = DeterministicRng::new(11);
    for _ in 0..50 {
        let draw = a.next_u64();
        assert_eq!(b.next_bool(), draw % 2 == 0);
    }
}

#[test]
fn range_maps_draws_by_remainder() {
    assert_eq!(value_in_range(5, 10, 0), 5);
    assert_eq!(value_in_range(5, 10, 6), 5);
    assert_eq!(value_in_range(5, 10, 17), 10);
    assert_eq!(value_in_range(7, 7, 12345), 7);
    assert_eq!(value_in_range(10, 3, 12345), 10);
    let mut a = DeterministicRng::new(3);
    let mut b = DeterministicRng::new(3);
    let draw = a.next_u64();
    assert_eq!(b.range(100, 199), 100 + draw % 100);
}

#[test]
fn fork_seeds_the_child_with_the_next_draw() {
    let mut a = DeterministicRng::new(99);
    let mut b = DeterministicRng::new(99);
    let child_seed = a.next_u64();
    let mut child = b.fork();
    assert_eq!(child.seed(), child_seed);
    assert_eq!(child.operations(), 0);
    let mut fresh = DeterministicRng::new(child_seed);
    assert_eq!(child.next_u64(), fresh.next_u64());
}

#[test]
fn pick_and_shuffle_are_reproducible() {
    let items = [10u32, 20, 30, 40, 50];
    let mut a = DeterministicRng::new(17);
    let mut b = DeterministicRng::new(17);
    for _ in 0..20 {
        let x = *a.pick(&items);
        assert!(items.contains(&x));
        assert_eq!(x, *b.pick(&items));
    }
    let mut v1: Vec<u32> = (0..20).collect();
    let mut v2 = v1.clone();
    a.shuffle(&mut v1);
    b.shuffle(&mut v2);
    assert_eq!(v1, v2);
    let mut sorted = v1.clone();
    sorted.sort();
    assert_eq!(sorted, (0..20).collect::<Vec<u32>>());
    // A shuffle of n items makes n - 1 draws.
    assert_eq!(a.operations(), 20 + 19);
}
