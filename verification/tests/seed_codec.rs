use jeopardy::seed::{
    bits_for, char_is_whitespace, check_alphabet, decode, encode, find_word, word_ranges, Seed,
};
use rand::Rng;
use rand::RngCore;
use rand::SeedableRng;

#[test]
fn encoding_decoding() {
    for _ in 0..1_000_000 {
        let seed = Seed::with_seed(rand::thread_rng().gen());
        println!("value: {} seed: {}", seed.value, seed.to_string());
        let returned_seed: Seed = seed.to_string().parse().unwrap();
        assert_eq!(seed.value, returned_seed.value);
    }
}

#[test]
fn wordlist_is_sound() {
    assert!(Seed::wordlist_is_sound());
}

#[test]
fn checked_phrase_is_given_out_and_reads_back() {
    for value in [0u32, 1, 0xdead_beef, u32::MAX] {
        let seed = Seed::with_seed(value);
        let phrase = seed.checked_phrase().unwrap();
        assert_eq!(phrase, seed.to_string());
        assert_eq!(phrase.parse::<Seed>(), Ok(seed));
    }
}

#[test]
fn every_word_in_every_position_reads_back() {
    for group in 0u32..8192 {
        for value in [group, group << 13, (group & 63) << 26, group | (group << 13)] {
            let text = Seed::with_seed(value).to_string();
            assert_eq!(Seed::from_phrase(&text).map(|seed| seed.value), Some(value));
        }
    }
}

#[test]
fn extreme_values_read_back() {
    for value in [0u32, 1, u32::MAX, 0x8000_0000, 0x0000_1fff, 0x03ff_e000, 0xfc00_0000] {
        let text = Seed::with_seed(value).to_string();
        assert_eq!(Seed::from_phrase(&text).map(|seed| seed.value), Some(value));
    }
}

#[test]
fn phrase_of_a_seed_is_one_word_for_each_group_of_thirteen_bits() {
    assert_eq!(Seed::with_seed(0).to_string(), "child child child");
    let value = 1 + (2 << 13) + (3 << 26);
    assert_eq!(Seed::with_seed(value).to_string(), "food money girl");
    assert_eq!(Seed::from_phrase("food money girl").map(|seed| seed.value), Some(value));
}

#[test]
fn bits_per_word_is_the_floor_of_the_binary_logarithm() {
    assert_eq!(bits_for(0), 0);
    assert_eq!(bits_for(1), 0);
    assert_eq!(bits_for(2), 1);
    assert_eq!(bits_for(3), 1);
    assert_eq!(bits_for(4), 2);
    assert_eq!(bits_for(16383), 13);
    assert_eq!(bits_for(16384), 14);
    assert_eq!(bits_for(u32::MAX as usize), 31);
}

#[test]
fn encoding_over_a_small_alphabet() {
    let words = ["a", "b", "c", "d"];
    // Two bits a word, sixteen words, the lowest pair of bits first.
    assert_eq!(encode(0, &words), "a a a a a a a a a a a a a a a a");
    assert_eq!(encode(0b11_10_01, &words), "b c d a a a a a a a a a a a a a");
    assert_eq!(decode("b c d a a a a a a a a a a a a a", &words), Some(0b11_10_01));
}

#[test]
fn decoding_joins_indices_bit_by_bit() {
    // Five words give two bits each; the fifth word has the index four.
    let words = ["a", "b", "c", "d", "e"];
    let mut phrase = String::from("e b");
    for _ in 0..14 {
        phrase.push_str(" a");
    }
    assert_eq!(decode(&phrase, &words), Some(4 | (1 << 2)));
}

#[test]
fn decoding_drops_bits_shifted_beyond_the_top() {
    // Three words cover 39 bits; the last index loses what lies above bit 31.
    let index = 8191;
    let word = memorable_wordlist::WORDS[index];
    let phrase = format!("child child {}", word);
    assert_eq!(
        Seed::from_phrase(&phrase).map(|seed| seed.value),
        Some(((index as u64) << 26) as u32)
    );
}

#[test]
fn decoding_takes_the_first_of_equal_words() {
    let words = ["x", "y", "x", "z"];
    assert_eq!(find_word(&words, "x"), Some(0));
    assert_eq!(find_word(&words, "z"), Some(3));
    assert_eq!(find_word(&words, "w"), None);
    assert!(!check_alphabet(&words));
    assert!(check_alphabet(&["x", "y", "z", "w"]));
}

#[test]
fn unsound_alphabets_are_recognised() {
    assert!(!check_alphabet(&[]));
    assert!(!check_alphabet(&["only"]));
    assert!(!check_alphabet(&["", "b"]));
    assert!(!check_alphabet(&["a b", "c"]));
    assert!(!check_alphabet(&["a", "a"]));
    // Words beyond those that encoding uses are not looked at.
    assert!(check_alphabet(&["a", "b", "a"]));
}

#[test]
fn decoding_rejects_unknown_words() {
    assert!(Seed::from_phrase("child child xyzzyplugh").is_none());
    assert!("child child xyzzyplugh".parse::<Seed>().is_err());
}

#[test]
fn decoding_rejects_too_few_words() {
    assert!(Seed::from_phrase("").is_none());
    assert!(Seed::from_phrase("child").is_none());
    assert!(Seed::from_phrase("child child").is_none());
}

#[test]
fn decoding_rejects_too_many_words() {
    assert!(Seed::from_phrase("child child child child").is_none());
}

#[test]
fn decoding_accepts_any_white_space_between_words() {
    let expected = Some(1 + (2 << 13) + (3 << 26));
    assert_eq!(Seed::from_phrase("  food\tmoney\n\ngirl ").map(|s| s.value), expected);
    assert_eq!(Seed::from_phrase("food\u{3000}money\u{a0}girl").map(|s| s.value), expected);
}

#[test]
fn decoding_over_an_alphabet_without_bits_fails() {
    assert_eq!(decode("a", &["a"]), None);
    assert_eq!(decode("", &["a"]), None);
    assert_eq!(decode("", &[]), None);
}

#[test]
fn words_are_found_by_their_positions() {
    assert_eq!(word_ranges(""), vec![]);
    assert_eq!(word_ranges("   "), vec![]);
    assert_eq!(word_ranges("ab"), vec![(0, 2)]);
    assert_eq!(word_ranges(" ab  cde "), vec![(1, 3), (5, 8)]);
    assert_eq!(word_ranges("é\u{2003}ü"), vec![(0, 1), (2, 3)]);
}

#[test]
fn white_space_is_what_the_standard_library_says() {
    for code in 0u32..=0x10ffff {
        if let Some(c) = char::from_u32(code) {
            assert_eq!(char_is_whitespace(c), c.is_whitespace(), "code point {:x}", code);
        }
    }
}

#[test]
fn malformed_seed_falls_back_to_a_random_one() {
    let value = 1 + (2 << 13) + (3 << 26);
    assert_eq!(Seed::from_phrase_or_random(Some("food money girl")).value, value);
    // Neither call fails; nothing more can be said of what is drawn.
    let _ = Seed::from_phrase_or_random(Some("no such phrase"));
    let _ = Seed::from_phrase_or_random(None);
}

#[test]
fn seed_expands_to_its_bytes_and_the_filler() {
    let bytes = Seed::with_seed(0x0403_0201).to_seed();
    assert_eq!(&bytes[0..4], &[1, 2, 3, 4]);
    assert!(bytes[4..].iter().all(|byte| *byte == 0xFD));
    assert_eq!(bytes.len(), 32);
}

#[test]
fn generator_is_fixed_by_the_seed() {
    let mut first = Seed::with_seed(42).to_rng();
    let mut second = Seed::with_seed(42).to_rng();
    let mut other = Seed::with_seed(43).to_rng();
    let a: Vec<u64> = (0..8).map(|_| first.next_u64()).collect();
    let b: Vec<u64> = (0..8).map(|_| second.next_u64()).collect();
    let c: Vec<u64> = (0..8).map(|_| other.next_u64()).collect();
    assert_eq!(a, b);
    assert_ne!(a, c);
}

#[test]
fn generator_is_the_cipher_keyed_with_the_expanded_seed() {
    let seed = Seed::with_seed(7);
    let mut expected = rand_chacha::ChaCha20Rng::from_seed(seed.to_seed());
    let mut actual = seed.to_rng();
    for _ in 0..4 {
        assert_eq!(actual.next_u32(), expected.next_u32());
    }
}

#[test]
fn random_seeds_differ() {
    let drawn: Vec<u32> = (0..16).map(|_| Seed::new_random().value).collect();
    assert!(drawn.iter().any(|value| *value != drawn[0]));
}

#[test]
fn words_are_found_across_strides() {
    let listed: Vec<String> = (0..600).map(|i| format!("w{}", i % 500)).collect();
    let words: Vec<&str> = listed.iter().map(|word| word.as_str()).collect();
    for i in 0..500 {
        assert_eq!(find_word(&words, &format!("w{}", i)), Some(i));
    }
    assert_eq!(find_word(&words, "w500"), None);
    assert_eq!(find_word(&words, ""), None);
    assert_eq!(find_word(&words, "w"), None);
    assert_eq!(find_word(&["", "a", ""], ""), Some(0));
    assert_eq!(find_word(&["ab", "ac", "bb", "ab"], "ab"), Some(0));
    assert_eq!(find_word(&["ab", "ac", "bb", "ab"], "bb"), Some(2));
    assert_eq!(find_word(&["ab", "ac", "bb", "ab"], "cb"), None);
    assert_eq!(find_word(&[], "a"), None);
    for (i, word) in memorable_wordlist::WORDS.iter().enumerate() {
        assert_eq!(find_word(memorable_wordlist::WORDS, word), Some(i));
    }
}
