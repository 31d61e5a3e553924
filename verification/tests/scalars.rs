//! Scalars, digests and encodings.
use solana_ed25519::bytes::words_bytes;
use solana_ed25519::field::Fe51;
use solana_ed25519::policy::r_encoding_has_canonical_y;
use solana_ed25519::scalar::{is_canonical, Scalar, ORDER_WORDS};
use solana_ed25519::sha512::{
    challenge_scalar, hash_ed25519_challenge_words, hash_slices, scalar_from_sha512,
};

fn digits_to_i128(digits: &[i8; 64]) -> i128 {
    assert!(digits[30..].iter().all(|&d| d == 0));
    digits[..30].iter().rev().fold(0, |acc, &d| 16 * acc + d as i128)
}

#[test]
fn radix16_digits_are_signed_and_exact() {
    let mut bytes = [0u8; 32];
    bytes[..8].copy_from_slice(&0xfedc_ba98_7654_3210u64.to_le_bytes());
    let digits = Scalar::from_canonical_bytes(bytes).to_radix16();
    assert!(digits.iter().all(|d| (-8..=8).contains(d)));
    assert_eq!(digits_to_i128(&digits), 0xfedc_ba98_7654_3210);
    assert_eq!(digits[..4], [0, 1, 2, 3]);
    // 8 = 16 - 8.
    bytes = [0u8; 32];
    bytes[0] = 8;
    assert_eq!(Scalar::from_canonical_bytes(bytes).to_radix16()[..2], [-8, 1]);
}

#[test]
fn canonical_scalars_are_below_the_group_order() {
    let order = words_bytes(ORDER_WORDS);
    assert!(!is_canonical(&order));
    let mut below = order;
    below[0] -= 1;
    assert!(is_canonical(&below));
    assert!(is_canonical(&[0u8; 32]));
    assert!(!is_canonical(&[0xff; 32]));
}

#[test]
fn wide_values_are_reduced() {
    // The order reduces to zero, and the order plus five to five.
    let mut words = [0u64; 8];
    words[..4].copy_from_slice(&ORDER_WORDS);
    assert_eq!(Scalar::from_wide_words(words).to_radix16(), [0i8; 64]);
    words[0] += 5;
    assert_eq!(digits_to_i128(&Scalar::from_wide_words(words).to_radix16()), 5);
    // 2^256 times the order, plus seven.
    let mut words = [0u64; 8];
    words[4..].copy_from_slice(&ORDER_WORDS);
    words[0] = 7;
    assert_eq!(digits_to_i128(&Scalar::from_wide_words(words).to_radix16()), 7);
    let mut bytes = [0u8; 64];
    for (i, w) in words.iter().enumerate() {
        bytes[8 * i..8 * i + 8].copy_from_slice(&w.to_le_bytes());
    }
    assert_eq!(digits_to_i128(&Scalar::from_wide_bytes(bytes).to_radix16()), 7);
}

#[test]
fn digests_match_the_published_example() {
    let abc = hash_slices(&[b"a", b"", b"bc"]);
    assert_eq!(abc[..8], [0xdd, 0xaf, 0x35, 0xa1, 0x93, 0x61, 0x7a, 0xba]);
    assert_eq!(abc[56..], [0x2a, 0x9a, 0xc9, 0x4f, 0xa5, 0x4c, 0xa4, 0x9f]);
    let reduced = scalar_from_sha512(b"abc");
    assert_eq!(reduced.to_radix16(), Scalar::from_wide_bytes(abc).to_radix16());
}

#[test]
fn challenges_hash_r_key_and_message() {
    let r: [[u8; 32]; 8] = core::array::from_fn(|i| [i as u8; 32]);
    let keys: [[u8; 32]; 8] = core::array::from_fn(|i| [0x80 + i as u8; 32]);
    let texts: Vec<Vec<u8>> = (0..8).map(|i| vec![7u8; 40 * i]).collect();
    let messages: [&[u8]; 8] = core::array::from_fn(|i| texts[i].as_slice());
    let words = hash_ed25519_challenge_words(&r, &keys, &messages);
    for i in 0..8 {
        let digest = hash_slices(&[&r[i], &keys[i], messages[i]]);
        for j in 0..8 {
            let word = u64::from_le_bytes(digest[8 * j..8 * j + 8].try_into().unwrap());
            assert_eq!(words[i][j], word);
        }
        assert_eq!(
            challenge_scalar(&r[i], &keys[i], messages[i]).to_radix16(),
            Scalar::from_wide_bytes(digest).to_radix16()
        );
    }
}

#[test]
fn ordinates_are_canonical_below_p() {
    let mut p = [0xffu8; 32];
    p[0] = 0xed;
    p[31] = 0x7f;
    assert!(!r_encoding_has_canonical_y(&p));
    p[31] = 0xff;
    assert!(!r_encoding_has_canonical_y(&p));
    p[0] = 0xec;
    assert!(r_encoding_has_canonical_y(&p));
    assert!(!r_encoding_has_canonical_y(&[0xff; 32]));
    assert!(r_encoding_has_canonical_y(&[0u8; 32]));
}

#[test]
fn field_elements_round_trip_through_bytes() {
    let mut bytes = [0u8; 32];
    for (i, b) in bytes.iter_mut().enumerate() {
        *b = (37 * i + 11) as u8;
    }
    bytes[31] &= 0x7f;
    assert_eq!(Fe51::from_bytes_unchecked(&bytes).to_bytes(), bytes);
    // The top bit is ignored, and p is zero.
    let mut p = [0xffu8; 32];
    p[0] = 0xed;
    assert_eq!(Fe51::from_bytes_unchecked(&p).to_bytes(), [0u8; 32]);
}

#[test]
fn square_roots_of_ratios() {
    let two = Fe51::one().double();
    let four = two.square();
    let root = Fe51::sqrt_ratio(&four, &Fe51::one()).unwrap();
    assert!(root.square().equals(&four));
    // Two is no square modulo p.
    assert!(Fe51::sqrt_ratio(&two, &Fe51::one()).is_none());
    assert!(Fe51::sqrt_m1().square().equals(&Fe51::one().negate()));
    let eight = four.multiply(&two);
    let root = Fe51::sqrt_ratio(&eight, &two).unwrap();
    assert!(root.square().multiply(&two).equals(&eight));
}
