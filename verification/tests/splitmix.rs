use canister_rand::splitmix::{GOLDEN_GAMMA, MIX_MULTIPLIER_1, MIX_MULTIPLIER_2};
use canister_rand::splitmix64_next;

#[test]
fn constants_are_the_published_ones() {
    assert_eq!(GOLDEN_GAMMA, 0x9E3779B97F4A7C15);
    assert_eq!(MIX_MULTIPLIER_1, 0xBF58476D1CE4E5B9);
    assert_eq!(MIX_MULTIPLIER_2, 0x94D049BB133111EB);
}

#[test]
fn first_two_words_from_state_zero() {
    let mut state = 0u64;
    assert_eq!(splitmix64_next(&mut state), 0xe220a8397b1dcdaf);
    assert_eq!(state, 0x9e3779b97f4a7c15);
    assert_eq!(splitmix64_next(&mut state), 0x6e789e6aa1b965f4);
    assert_eq!(state, 0x3c6ef372fe94f82a);
}

#[test]
fn first_word_of_the_reference_seed() {
    let mut state = 1234567u64;
    assert_eq!(splitmix64_next(&mut state), 6457827717110365317);
    assert_eq!(state, 0x9e3779b97f5d529c);
}

#[test]
fn state_wraps_around_at_the_top() {
    let mut state = u64::MAX;
    assert_eq!(splitmix64_next(&mut state), 0xe4d971771b652c20);
    assert_eq!(state, 0x9e3779b97f4a7c14);
}

#[test]
fn step_is_the_textbook_formula() {
    let mut state = 0xdead_beef_0123_4567u64;
    for _ in 0..1000 {
        let before = state;
        let word = splitmix64_next(&mut state);
        let advanced = before.wrapping_add(0x9E3779B97F4A7C15);
        let mut z = advanced;
        z = (z ^ (z >> 30)).wrapping_mul(0xBF58476D1CE4E5B9);
        z = (z ^ (z >> 27)).wrapping_mul(0x94D049BB133111EB);
        z ^= z >> 31;
        assert_eq!(state, advanced);
        assert_eq!(word, z);
    }
}

#[test]
fn distinct_states_give_distinct_words() {
    let mut seen = std::collections::HashSet::new();
    for start in 0..10_000u64 {
        let mut state = start;
        assert!(seen.insert(splitmix64_next(&mut state)));
    }
    assert_eq!(seen.len(), 10_000);
}
