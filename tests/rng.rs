use pix0_collection_contract::rng::{pick_random_index, RandomNumGen};

#[test]
fn test_rand_gen() {
    let mut rng = RandomNumGen::new(2390);
    let mut draws = Vec::new();
    for _ in 0..10 {
        let rnd = rng.generate_range(0, 1234);
        assert!(rnd < 1234);
        draws.push(rnd);
    }
    assert_eq!(draws, vec![431, 184, 1217, 686, 307, 516, 447, 314, 763, 754]);
}

#[test]
fn same_seed_gives_same_draws() {
    let mut a = RandomNumGen::new(77);
    let mut b = RandomNumGen::new(77);
    for _ in 0..20 {
        assert_eq!(a.generate_range(5, 500), b.generate_range(5, 500));
    }
}

#[test]
fn pick_is_deterministic_and_in_range() {
    for n in 1..40usize {
        let first = pick_random_index(42, n);
        assert!(first < n);
        assert_eq!(first, pick_random_index(42, n));
    }
    assert_eq!(pick_random_index(42, 30), 23);
    assert_eq!(pick_random_index(42, 5), 3);
}

#[test]
fn next_state_is_the_lcg_step() {
    let mut rng = RandomNumGen::new(0);
    assert_eq!(rng.next_u64(), 1442695040888963407);
    assert_eq!(rng.seed, 1442695040888963407);
}
