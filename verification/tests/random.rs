use woodeneye::random::{next_random_byte, RANDOM_SEED};

#[test]
fn first_bytes_from_the_seed() {
    let mut state = RANDOM_SEED;
    let bytes: Vec<u8> = (0..8).map(|_| next_random_byte(&mut state)).collect();
    assert_eq!(bytes, vec![13, 84, 168, 125, 144, 157, 213, 103]);
    assert_eq!(state, 0x4f71090f8482f848);
}

#[test]
fn zero_is_the_only_state_that_stays() {
    let mut zero = 0u64;
    assert_eq!(next_random_byte(&mut zero), 0);
    assert_eq!(zero, 0);
    let mut one = 1u64;
    next_random_byte(&mut one);
    assert_ne!(one, 0);
}

#[test]
fn sequences_do_not_merge() {
    let mut reached = Vec::new();
    for start in 1..200u64 {
        let mut state = start;
        next_random_byte(&mut state);
        assert!(!reached.contains(&state));
        reached.push(state);
    }
}
