use canister_rand::{derive_seed, fill_with, splitmix64_next, u32_with, u64_with, Environment};

fn filled(env: &Environment, len: usize) -> Vec<u8> {
    let mut dest = vec![None; len];
    assert_eq!(fill_with(&mut dest, env), Ok(()));
    assert_eq!(dest.len(), len);
    dest.into_iter().map(|slot| slot.expect("slot left unwritten")).collect()
}

fn unavailable() -> Environment {
    Environment::unavailable()
}

#[test]
fn unavailable_environment_is_all_zero() {
    assert_eq!(unavailable(), Environment { time: 0, instructions: 0 });
}

#[test]
fn fill_of_zero_bytes_succeeds_and_writes_nothing() {
    let mut dest: [Option<u8>; 0] = [];
    assert_eq!(fill_with(&mut dest, &unavailable()), Ok(()));
    assert_eq!(filled(&unavailable(), 0), Vec::<u8>::new());
}

#[test]
fn fill_of_one_byte() {
    assert_eq!(filled(&unavailable(), 1), vec![244]);
}

#[test]
fn fill_of_three_bytes() {
    assert_eq!(filled(&unavailable(), 3), vec![236, 129, 76]);
}

#[test]
fn fill_of_four_bytes_without_environment_is_fixed() {
    let mut dest = [None; 4];
    assert_eq!(fill_with(&mut dest, &Environment { time: 0, instructions: 0 }), Ok(()));
    assert_eq!(dest, [Some(155u8), Some(116), Some(168), Some(81)]);
}

#[test]
fn fill_of_seven_bytes() {
    assert_eq!(filled(&unavailable(), 7), vec![60, 171, 22, 201, 58, 19, 132]);
}

#[test]
fn fill_of_eight_bytes() {
    assert_eq!(filled(&unavailable(), 8), vec![195, 138, 201, 65, 144, 120, 229, 62]);
}

#[test]
fn fill_of_nine_bytes() {
    assert_eq!(filled(&unavailable(), 9), vec![166, 176, 140, 54, 140, 72, 184, 243, 9]);
}

#[test]
fn fill_of_sixteen_bytes() {
    assert_eq!(
        filled(&unavailable(), 16),
        vec![85, 18, 82, 117, 92, 130, 41, 125, 134, 127, 127, 43, 16, 23, 207, 195]
    );
}

#[test]
fn fill_of_a_thousand_bytes() {
    let bytes = filled(&unavailable(), 1000);
    assert_eq!(bytes.len(), 1000);
    assert_eq!(bytes[..8], [225, 41, 83, 66, 35, 47, 250, 44]);
    assert_eq!(bytes[992..], [114, 37, 113, 62, 213, 115, 240, 149]);
    assert_eq!(bytes.iter().map(|&b| b as u32).sum::<u32>(), 126131);
}

#[test]
fn fill_with_clock_and_operation_count() {
    let env = Environment { time: 1_700_000_000_000_000_000, instructions: 123_456 };
    assert_eq!(
        filled(&env, 16),
        vec![132, 52, 240, 12, 61, 152, 205, 226, 210, 228, 224, 229, 232, 31, 182, 196]
    );
}

#[test]
fn seed_is_the_exclusive_or_of_the_three_terms() {
    assert_eq!(derive_seed(&unavailable(), 0), 0);
    assert_eq!(derive_seed(&unavailable(), 4), 0x78dde6e5fd29f054);
    assert_eq!(derive_seed(&unavailable(), 8), 0xf1bbcdcbfa53e0a8);
    assert_eq!(derive_seed(&Environment { time: 5, instructions: 9 }, 3), 0xdaa66d2c7ddf7433);
    assert_eq!(
        derive_seed(&Environment { time: 1_700_000_000_000_000_000, instructions: 123_456 }, 16),
        0xf4e00769c28c2310
    );
    let env = Environment { time: 0x0f0f, instructions: 0xf0f0 };
    assert_eq!(derive_seed(&env, 2), 0xffff ^ 2u64.wrapping_mul(0x9E3779B97F4A7C15));
}

#[test]
fn seed_scales_the_length_modulo_two_to_the_sixty_four() {
    let len = usize::MAX;
    assert_eq!(
        derive_seed(&unavailable(), len),
        (len as u64).wrapping_mul(0x9E3779B97F4A7C15)
    );
}

#[test]
fn a_query_given_as_zero_is_as_good_as_left_out() {
    let with_clock = Environment { time: 7, instructions: 0 };
    assert_eq!(derive_seed(&with_clock, 8), 7 ^ 8u64.wrapping_mul(0x9E3779B97F4A7C15));
    assert_eq!(filled(&with_clock, 8), vec![97, 103, 80, 153, 122, 192, 94, 34]);
}

#[test]
fn equal_clock_and_operation_count_cancel() {
    let env = Environment { time: 1, instructions: 1 };
    assert_eq!(filled(&env, 4), filled(&unavailable(), 4));
}

#[test]
fn same_environment_and_length_give_the_same_bytes() {
    let env = Environment { time: 42, instructions: 4242 };
    for len in [0usize, 1, 3, 4, 7, 8, 9, 16, 1000] {
        assert_eq!(filled(&env, len), filled(&env, len));
        assert_eq!(filled(&unavailable(), len), filled(&unavailable(), len));
    }
}

#[test]
fn what_the_buffer_held_before_does_not_matter() {
    let env = Environment { time: 42, instructions: 4242 };
    for len in [1usize, 7, 8, 9, 33] {
        let mut fresh = vec![None; len];
        let mut used = vec![Some(0xAAu8); len];
        assert_eq!(fill_with(&mut fresh, &env), Ok(()));
        assert_eq!(fill_with(&mut used, &env), Ok(()));
        assert_eq!(fresh, used);
        assert!(fresh.iter().all(|slot| slot.is_some()));
    }
}

#[test]
fn ten_thousand_clock_values_give_distinct_first_eight_bytes() {
    let mut seen = std::collections::HashSet::new();
    for time in 0..10_000u64 {
        let bytes = filled(&Environment { time, instructions: 0 }, 8);
        assert!(seen.insert(bytes));
    }
    assert_eq!(seen.len(), 10_000);
}

#[test]
fn ten_thousand_operation_counts_give_distinct_first_eight_bytes() {
    let mut seen = std::collections::HashSet::new();
    for instructions in 0..10_000u64 {
        let bytes = filled(&Environment { time: 99, instructions }, 16);
        assert!(seen.insert(bytes[..8].to_vec()));
    }
    assert_eq!(seen.len(), 10_000);
}

#[test]
fn a_thousand_lengths_give_distinct_first_eight_bytes() {
    let env = Environment { time: 3, instructions: 5 };
    let mut seen = std::collections::HashSet::new();
    for len in 8..1008usize {
        let bytes = filled(&env, len);
        assert!(seen.insert(bytes[..8].to_vec()));
    }
    assert_eq!(seen.len(), 1000);
}

#[test]
fn stream_is_the_output_words_in_little_endian_order() {
    let env = Environment { time: 11, instructions: 13 };
    for len in [1usize, 3, 4, 7, 8, 9, 15, 16, 17, 1000] {
        let mut state = derive_seed(&env, len);
        let mut expected = Vec::new();
        while expected.len() < len {
            expected.extend_from_slice(&splitmix64_next(&mut state).to_le_bytes());
        }
        expected.truncate(len);
        assert_eq!(filled(&env, len), expected);
    }
}

#[test]
fn last_chunk_holds_the_low_bytes_of_the_next_word() {
    let bytes = filled(&unavailable(), 9);
    let first = 0xf3b8488c368cb0a6u64;
    let second = 0x657eecdd3cb13d09u64;
    assert_eq!(bytes[..8], first.to_le_bytes());
    assert_eq!(bytes[8], (second & 0xff) as u8);
    assert_eq!(bytes[8], 9);

    let twelve = filled(&unavailable(), 12);
    assert_eq!(twelve, vec![123, 219, 187, 224, 63, 160, 33, 134, 47, 169, 58, 152]);
}

#[test]
fn last_chunk_has_the_remainder_or_eight_bytes() {
    let env = Environment { time: 17, instructions: 0 };
    for len in 1..=64usize {
        let bytes = filled(&env, len);
        let full = (len - 1) / 8;
        let rest = len - 8 * full;
        assert_eq!(rest, if len % 8 == 0 { 8 } else { len % 8 });
        let mut state = derive_seed(&env, len);
        let mut word = 0;
        for _ in 0..=full {
            word = splitmix64_next(&mut state);
        }
        assert_eq!(bytes[8 * full..], word.to_le_bytes()[..rest]);
    }
}

#[test]
fn integers_without_environment_are_fixed() {
    assert_eq!(u32_with(&unavailable()), Ok(0x51a8749b));
    assert_eq!(u32_with(&unavailable()), Ok(1369994395));
    assert_eq!(u64_with(&unavailable()), Ok(0x3ee5789041c98ac3));
    assert_eq!(u64_with(&unavailable()), Ok(4532161160992623299));
}

#[test]
fn integers_with_a_clock() {
    let env = Environment { time: 7, instructions: 0 };
    assert_eq!(u32_with(&env), Ok(1468033454));
    assert_eq!(u64_with(&env), Ok(2476628477891077985));
}

#[test]
fn integers_are_the_filled_bytes_read_back() {
    for time in [0u64, 1, 2, 1 << 40, u64::MAX] {
        for instructions in [0u64, 3, u64::MAX] {
            let env = Environment { time, instructions };
            let four = filled(&env, 4);
            let eight = filled(&env, 8);
            let small = u32_with(&env).unwrap();
            let large = u64_with(&env).unwrap();
            assert_eq!(small, u32::from_le_bytes([four[0], four[1], four[2], four[3]]));
            assert_eq!(small.to_le_bytes().to_vec(), four);
            assert_eq!(large.to_le_bytes().to_vec(), eight);
            let mut state = derive_seed(&env, 8);
            assert_eq!(large, splitmix64_next(&mut state));
            let mut state = derive_seed(&env, 4);
            assert_eq!(small, splitmix64_next(&mut state) as u32);
        }
    }
}

#[test]
fn fills_shorter_than_a_word_can_coincide() {
    let one = filled(&Environment { time: 0, instructions: 0 }, 1);
    let other = filled(&Environment { time: 231, instructions: 0 }, 1);
    assert_eq!(one, vec![244]);
    assert_eq!(other, vec![244]);
    assert_ne!(
        filled(&Environment { time: 0, instructions: 0 }, 8),
        filled(&Environment { time: 231, instructions: 0 }, 8)
    );
}
