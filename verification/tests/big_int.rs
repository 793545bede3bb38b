use sunscreen::graph::ViewEq;
use sunscreen::render::{push_decimal, push_hexadecimal};
use sunscreen::zkp_backend::{same_str, BigInt};

fn hex_of(words: [u64; 8]) -> String {
    let mut text = String::new();
    for w in words.iter().rev() {
        text.push_str(&format!("{w:016x}"));
    }
    text
}

#[test]
fn from_words_keeps_the_words() {
    let words = [1, 2, 3, 4, 5, 6, 7, u64::MAX];
    assert_eq!(BigInt::from_words(words).words, words);
}

#[test]
fn from_u32_fills_the_lowest_word() {
    assert_eq!(BigInt::from_u32(0).words, [0; 8]);
    assert_eq!(BigInt::from_u32(5).words, [5, 0, 0, 0, 0, 0, 0, 0]);
    assert_eq!(BigInt::from_u32(u32::MAX).words, [u32::MAX as u64, 0, 0, 0, 0, 0, 0, 0]);
}

#[test]
fn zero_and_one_are_what_they_say() {
    assert_eq!(BigInt::zero().words, [0; 8]);
    assert_eq!(BigInt::one().words, [1, 0, 0, 0, 0, 0, 0, 0]);
    assert_ne!(BigInt::zero(), BigInt::one());
}

#[test]
fn from_be_hex_reads_the_last_digits_into_the_lowest_word() {
    let hex = format!("{}{}", "0".repeat(127), "f");
    assert!(BigInt::is_valid_be_hex(&hex));
    assert_eq!(BigInt::from_be_hex(&hex).words, [15, 0, 0, 0, 0, 0, 0, 0]);
}

#[test]
fn from_be_hex_reads_sixteen_digits_to_a_word() {
    let words = [
        0x0123456789abcdef,
        0xfedcba9876543210,
        0,
        1,
        0xffffffffffffffff,
        0x8000000000000000,
        0x00000000deadbeef,
        0x1000000000000000,
    ];
    let hex = hex_of(words);
    assert_eq!(hex.len(), 128);
    assert!(BigInt::is_valid_be_hex(&hex));
    assert_eq!(BigInt::from_be_hex(&hex).words, words);
    let upper = hex.to_uppercase();
    assert!(BigInt::is_valid_be_hex(&upper));
    assert_eq!(BigInt::from_be_hex(&upper).words, words);
}

#[test]
fn hex_of_another_length_or_alphabet_is_not_valid() {
    assert!(!BigInt::is_valid_be_hex(""));
    assert!(!BigInt::is_valid_be_hex(&"0".repeat(127)));
    assert!(!BigInt::is_valid_be_hex(&"0".repeat(129)));
    assert!(!BigInt::is_valid_be_hex(&format!("{}g", "0".repeat(127))));
    assert!(!BigInt::is_valid_be_hex(&format!("{} ", "0".repeat(127))));
    assert!(!BigInt::is_valid_be_hex(&format!("0x{}", "0".repeat(126))));
    assert!(!BigInt::is_valid_be_hex(&format!("{}é", "0".repeat(127))));
    assert!(BigInt::is_valid_be_hex(&"aAfF09".repeat(22)[..128]));
}

#[test]
fn rendering_is_undone_by_from_be_hex() {
    let x = BigInt::from_words([9, 8, 7, 6, 5, 4, 3, 0xfedcba9876543210]);
    let text = x.render();
    assert_eq!(&text[..2], "0x");
    assert_eq!(text.len(), 130);
    assert_eq!(&text[2..18], "fedcba9876543210");
    assert_eq!(BigInt::from_be_hex(&text[2..]), x);
    assert_eq!(BigInt::zero().render(), format!("0x{}", "0".repeat(128)));
}

#[test]
fn big_ints_are_the_same_when_all_words_agree() {
    let x = BigInt::from_words([1, 2, 3, 4, 5, 6, 7, 8]);
    assert!(x.same(&BigInt::from_words([1, 2, 3, 4, 5, 6, 7, 8])));
    for i in 0..8 {
        let mut words = x.words;
        words[i] += 1;
        assert!(!x.same(&BigInt::from_words(words)));
    }
}

#[test]
fn decimal_digits_are_appended() {
    let mut text = String::from("n=");
    push_decimal(&mut text, 0);
    assert_eq!(text, "n=0");
    push_decimal(&mut text, 9);
    push_decimal(&mut text, 10);
    push_decimal(&mut text, 4096);
    assert_eq!(text, "n=09104096");
    let mut text = String::new();
    push_decimal(&mut text, usize::MAX);
    assert_eq!(text, usize::MAX.to_string());
}

#[test]
fn hexadecimal_digits_are_appended_with_leading_zeros() {
    let mut text = String::new();
    push_hexadecimal(&mut text, 0xabc, 16);
    assert_eq!(text, "0000000000000abc");
    let mut text = String::from("x");
    push_hexadecimal(&mut text, 0x1234, 2);
    assert_eq!(text, "x34");
    push_hexadecimal(&mut text, 0xff, 0);
    assert_eq!(text, "x34");
    let mut text = String::new();
    push_hexadecimal(&mut text, u64::MAX, 16);
    assert_eq!(text, "ffffffffffffffff");
}

#[test]
fn strings_compare_by_their_characters() {
    assert!(same_str("", ""));
    assert!(same_str("gadget", "gadget"));
    assert!(!same_str("gadget", "gadges"));
    assert!(!same_str("gadget", "gadge"));
    assert!(same_str("étoile", "étoile"));
    assert!(!same_str("étoile", "etoile"));
}
