//! Tests for the byte codecs and the AES-ECB helpers: hex, base64, text
//! decoding, repeated-block detection and PKCS#7 padding.

use utils::b64_to_bytes;
use utils::bytes_to_b64;
use utils::bytes_to_hex;
use utils::bytes_to_plaintext;
use utils::decrypt_aes_ecb_128;
use utils::detect_aes_ecb;
use utils::hex_to_bytes;
use utils::pkcs7_padding;
use utils::AesError;

#[test]
fn test_hex_round_trip() {
    let bytes = hex_to_bytes("49276d");
    assert_eq!(vec![0x49u8, 0x27, 0x6d], bytes);
    assert_eq!("49276d", bytes_to_hex(&bytes));
    // upper-case digits decode too; encoding is lower-case
    assert_eq!(vec![0xabu8, 0xcd], hex_to_bytes("ABCD"));
    assert_eq!("abcd", bytes_to_hex(&[0xab, 0xcd]));
}

#[test]
fn test_b64_known_vectors() {
    assert_eq!("TWFu", bytes_to_b64(b"Man"));
    assert_eq!("TWE=", bytes_to_b64(b"Ma"));
    assert_eq!("TQ==", bytes_to_b64(b"M"));
    assert_eq!(b"Man".to_vec(), b64_to_bytes("TWFu"));
    assert_eq!(b"Ma".to_vec(), b64_to_bytes("TWE="));
    let hex_input = "49276d206b696c6c696e6720796f757220627261696e206c696b65206120706f69736f6e6f7573206d757368726f6f6d";
    let expected = "SSdtIGtpbGxpbmcgeW91ciBicmFpbiBsaWtlIGEgcG9pc29ub3VzIG11c2hyb29t";
    assert_eq!(expected, bytes_to_b64(&hex_to_bytes(hex_input)));
    assert_eq!(hex_to_bytes(hex_input), b64_to_bytes(expected));
}

#[test]
fn test_bytes_to_plaintext() {
    assert_eq!("hello", bytes_to_plaintext(&b"hello".to_vec()));
    assert_eq!("", bytes_to_plaintext(&Vec::new()));
}

#[test]
fn test_detect_aes_ecb() {
    let ciphertext = "d880619740a8a19b7840a8a31c810a3d08649af70dc06f4fd5d2d69c744cd283e2dd052f6b641dbf9d11b0348542bb5708649af70dc06f4fd5d2d69c744cd2839475c9dfdbc1d46597949d9c7e82bf5a08649af70dc06f4fd5d2d69c744cd28397a93eab8d6aecd566489154789a6b0308649af70dc06f4fd5d2d69c744cd283d403180c98c8f6db1f2a3f9c4040deb0ab51b29933f2c123c58386b06fba186a";
    let expected_blocks = 3;
    let repeated_blocks = detect_aes_ecb(&hex_to_bytes(&ciphertext));
    assert_eq!(repeated_blocks, expected_blocks);
}

#[test]
fn test_detect_aes_ecb_no_duplicates() {
    let ciphertext = hex_to_bytes("000102030405060708090a0b0c0d0e0f101112131415161718191a1b1c1d1e1f");
    assert_eq!(0, detect_aes_ecb(&ciphertext));
}

#[test]
fn test_pkcs7_padding() {
    let test_size_1 = 16;
    let test_size_2 = 32;
    let test_1 = "YELLOW SUB";
    let test_2 = "YELLOW SUBMARINE";

    let expected_output_1 = "YELLOW SUB\x06\x06\x06\x06\x06\x06";
    let expected_output_2 =
        "YELLOW SUBMARINE\x10\x10\x10\x10\x10\x10\x10\x10\x10\x10\x10\x10\x10\x10\x10\x10";
    assert_eq!(
        expected_output_1,
        bytes_to_plaintext(&pkcs7_padding(test_size_1, &test_1.as_bytes().to_vec()))
    );
    assert_eq!(
        expected_output_2,
        bytes_to_plaintext(&pkcs7_padding(test_size_2, &test_2.as_bytes().to_vec()))
    );
}

#[test]
fn test_decrypt_aes_ecb_128_known_answer() {
    // AES-128-ECB of "ATTACK AT DAWN" (PKCS#7 padded) under this key
    let key = b"YELLOW SUBMARINE";
    let ciphertext = hex_to_bytes("291c04801bd86d16f4bbb201b16489f1");
    let decrypted = decrypt_aes_ecb_128(&key[..], &ciphertext);
    assert_eq!(Ok(b"ATTACK AT DAWN".to_vec()), decrypted);
}

#[test]
fn test_decrypt_aes_ecb_128_rejects_bad_input() {
    // wrong key length
    let short_key = b"short";
    let ciphertext = hex_to_bytes("291c04801bd86d16f4bbb201b16489f1");
    assert_eq!(
        Err(AesError::DecryptFailed),
        decrypt_aes_ecb_128(&short_key[..], &ciphertext)
    );
    // ciphertext that is not a whole number of blocks
    let key = b"YELLOW SUBMARINE";
    assert_eq!(
        Err(AesError::DecryptFailed),
        decrypt_aes_ecb_128(&key[..], &[0u8; 5])
    );
}
