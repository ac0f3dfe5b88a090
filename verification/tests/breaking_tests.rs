//! Tests for the XOR-breaking pipeline: Hamming distance, frequency
//! scoring, single-byte and repeating-key breaking, and key-length
//! estimation.

use utils::break_repeating_key_xor;
use utils::break_single_char_xor;
use utils::count_freq_score;
use utils::edit_distance;
use utils::fixed_xor;
use utils::guess_keysize;
use utils::repeat_key;
use utils::transpose_blocks;
use utils::XorError;

const LONG_ENGLISH: &str = "It was the best of times, it was the worst of times, \
it was the age of wisdom, it was the age of foolishness, it was the epoch of \
belief, it was the epoch of incredulity, it was the season of Light, it was the \
season of Darkness, it was the spring of hope, it was the winter of despair, we \
had everything before us";

fn xor_with_repeating_key(plaintext: &[u8], key: &[u8]) -> Vec<u8> {
    let cycled = repeat_key(plaintext.len(), &key.to_vec());
    fixed_xor(&plaintext.to_vec(), &cycled)
}

#[test]
fn test_edit_distance() {
    let test_s1 = "this is a test";
    let test_s2 = "wokka wokka!!!";
    let result = edit_distance(&test_s1.as_bytes().to_vec(), &test_s2.as_bytes().to_vec());
    assert_eq!(37, result);
}

#[test]
fn test_edit_distance_self_and_symmetry() {
    let a = b"some arbitrary bytes \x00\xff\x7f".to_vec();
    let b = b"more arbitrary bytes \x01\x80!".to_vec();
    assert_eq!(a.len(), b.len());
    assert_eq!(0, edit_distance(&a, &a));
    assert_eq!(edit_distance(&a, &b), edit_distance(&b, &a));
}

#[test]
fn test_fixed_xor_known_vector() {
    let a = utils::hex_to_bytes("1c0111001f010100061a024b53535009181c");
    let b = utils::hex_to_bytes("686974207468652062756c6c277320657965");
    let r = fixed_xor(&a, &b);
    assert_eq!("746865206b696420646f6e277420706c6179", utils::bytes_to_hex(&r));
}

#[test]
fn test_fixed_xor_involution() {
    let a = b"any message at all".to_vec();
    let mask = b"mask of same lengt".to_vec();
    let once = fixed_xor(&a, &mask);
    let twice = fixed_xor(&once, &mask);
    assert_eq!(a, twice);
}

#[test]
fn test_count_freq_score_exact() {
    assert_eq!(77666, count_freq_score(&b"Hello World".to_vec()));
    assert_eq!(0, count_freq_score(&Vec::new()));
    assert_eq!(0, count_freq_score(&b"123!?#".to_vec()));
    // case folding: both cases of a letter score the same
    assert_eq!(
        count_freq_score(&b"MIXED Case".to_vec()),
        count_freq_score(&b"mixed cASE".to_vec())
    );
}

#[test]
fn test_break_single_char_xor_recovers_key() {
    let plaintext = b"Cooking MC's like a pound of bacon and the quick brown fox jumps over the lazy dog";
    let key = 0x58u8;
    let ciphertext: Vec<u8> = plaintext.iter().map(|&b| b ^ key).collect();
    let (score, found_key, decoded) = break_single_char_xor(&ciphertext);
    assert_eq!(key, found_key);
    assert_eq!(plaintext.to_vec(), decoded);
    assert_eq!(635957, score);
}

#[test]
fn test_break_single_char_xor_empty_ties_to_zero() {
    let (score, key, decoded) = break_single_char_xor(&Vec::new());
    assert_eq!(0, score);
    assert_eq!(0, key);
    assert!(decoded.is_empty());
}

#[test]
fn test_guess_keysize_deterministic() {
    // an exact multiple of the true keysize (300 = 60 * 5), long enough for
    // two full sampling rounds of four blocks
    let plaintext = &LONG_ENGLISH.as_bytes()[..300];
    let ciphertext = xor_with_repeating_key(plaintext, b"VERSE");
    let first = guess_keysize(&ciphertext);
    let second = guess_keysize(&ciphertext);
    assert_eq!(first, second);
    // the four-block estimate locks onto a multiple of the 5-byte key
    assert_eq!(10, first);
}

#[test]
fn test_guess_keysize_short_input() {
    // four bytes only admit the smallest candidate
    assert_eq!(2, guess_keysize(&vec![0x00, 0xff, 0x00, 0xff]));
}

#[test]
fn test_transpose_blocks_columns() {
    let data = vec![1u8, 2, 3, 4, 5, 6, 7];
    let cols = transpose_blocks(&data, 3);
    assert_eq!(3, cols.len());
    assert_eq!(vec![1u8, 4, 7], cols[0]);
    assert_eq!(vec![2u8, 5], cols[1]);
    assert_eq!(vec![3u8, 6], cols[2]);
}

#[test]
fn test_repeat_key_cycles() {
    let key = b"ABC".to_vec();
    assert_eq!(b"ABCABCA".to_vec(), repeat_key(7, &key));
    assert_eq!(0, repeat_key(0, &key).len());
}

#[test]
fn test_break_repeating_key_xor_round_trip() {
    let plaintext = LONG_ENGLISH.as_bytes();
    let ciphertext = xor_with_repeating_key(plaintext, b"ICE");
    let (key, decoded) = break_repeating_key_xor(3, ciphertext);
    assert_eq!(b"ICE".to_vec(), key);
    assert_eq!(Ok(LONG_ENGLISH.to_string()), decoded);
}

#[test]
fn test_break_repeating_key_xor_invalid_text() {
    // every candidate key other than 0 scores below the three spaces, and
    // the surviving 0xff byte is not valid text
    let ciphertext = vec![0x20u8, 0x20, 0x20, 0xff];
    let (key, decoded) = break_repeating_key_xor(1, ciphertext);
    assert_eq!(vec![0u8], key);
    assert_eq!(Err(XorError::EncodingInvalid), decoded);
}
