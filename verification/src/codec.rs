//! Conversions between raw bytes and their printable representations: UTF-8
//! text, hex and base64. The analysis algorithms work on raw bytes only;
//! these codecs sit at the boundary and delegate the actual transcoding to
//! well-known implementations, each behind a contract that pins the
//! encoding down digit by digit.

use vstd::prelude::*;
use vstd::utf8::{encode_utf8, valid_utf8};

use base64::Engine;

verus! {

/// Value of a hex digit character (upper or lower case), or 16 for any
/// other character.
pub open spec fn hex_digit_value(c: char) -> int {
    if 48 <= c as int && c as int <= 57 {  // '0'..='9'
        c as int - 48
    } else if 97 <= c as int && c as int <= 102 {  // 'a'..='f'
        c as int - 97 + 10
    } else if 65 <= c as int && c as int <= 70 {  // 'A'..='F'
        c as int - 65 + 10
    } else {
        16
    }
}

pub open spec fn is_hex_char(c: char) -> bool {
    hex_digit_value(c) < 16
}

/// A digit or a lowercase letter, the alphabet `hex::encode` produces.
pub open spec fn is_lower_hex_char(c: char) -> bool {
    (48 <= c as int && c as int <= 57) || (97 <= c as int && c as int <= 102)
}

/// The string is a well-formed hex spelling: even length, hex digits only.
pub open spec fn valid_hex_input(s: Seq<char>) -> bool {
    &&& s.len() % 2 == 0
    &&& forall|i: int| 0 <= i < s.len() ==> is_hex_char(s[i])
}

/// `s` spells the byte sequence `b` in hex, two digits per byte, high
/// nibble first.
pub open spec fn hex_decodes_to(s: Seq<char>, b: Seq<u8>) -> bool {
    &&& s.len() == 2 * b.len()
    &&& forall|i: int|
        0 <= i < b.len() ==> b[i] == hex_digit_value(s[2 * i]) * 16 + hex_digit_value(s[2 * i + 1])
}

/// As `hex_decodes_to`, and every digit is from the lowercase alphabet, so
/// the spelling is the unique one `hex::encode` yields.
pub open spec fn hex_encodes_to(b: Seq<u8>, s: Seq<char>) -> bool {
    &&& hex_decodes_to(s, b)
    &&& forall|i: int| 0 <= i < s.len() ==> is_lower_hex_char(s[i])
}

/// Relies on `hex::decode`: it maps pairs of hex digits (either case) to
/// bytes, high nibble first, and fails only on odd length or a non-digit,
/// both excluded here.
#[verifier::external_body]
pub fn hex_to_bytes(hex: &str) -> (r: Vec<u8>)
    requires
        valid_hex_input(hex@),
    ensures
        hex_decodes_to(hex@, r@),
{
    hex::decode(hex).unwrap()
}

/// Relies on `hex::encode`: two lowercase hex digits per byte, high nibble
/// first.
#[verifier::external_body]
pub fn bytes_to_hex(bytes: &[u8]) -> (r: String)
    ensures
        hex_encodes_to(bytes@, r@),
{
    hex::encode(bytes)
}

/// Value of a character of the standard base64 alphabet, or 64 for any
/// other character.
pub open spec fn b64_char_value(c: char) -> int {
    if 65 <= c as int && c as int <= 90 {  // 'A'..='Z'
        c as int - 65
    } else if 97 <= c as int && c as int <= 122 {  // 'a'..='z'
        c as int - 97 + 26
    } else if 48 <= c as int && c as int <= 57 {  // '0'..='9'
        c as int - 48 + 52
    } else if c as int == 43 {  // '+'
        62
    } else if c as int == 47 {  // '/'
        63
    } else {
        64
    }
}

/// The `g`-th full group of three bytes of `b` is spelled by the four
/// characters `s[4g..4g+4]`, each holding its 6-bit slice of the group.
pub open spec fn b64_group_matches(s: Seq<char>, b: Seq<u8>, g: int) -> bool {
    &&& b64_char_value(s[4 * g]) == (b[3 * g] as int) / 4
    &&& b64_char_value(s[4 * g + 1]) == (b[3 * g] as int) % 4 * 16 + (b[3 * g + 1] as int) / 16
    &&& b64_char_value(s[4 * g + 2]) == (b[3 * g + 1] as int) % 16 * 4 + (b[3 * g + 2] as int) / 64
    &&& b64_char_value(s[4 * g + 3]) == (b[3 * g + 2] as int) % 64
}

/// `s` is the standard padded base64 spelling of the byte sequence `b`:
/// each group of three bytes becomes four alphabet characters holding its
/// four 6-bit slices; a trailing group of one or two bytes is zero-extended
/// into two or three characters and padded with `=` to a multiple of four.
pub open spec fn is_b64_encoding(s: Seq<char>, b: Seq<u8>) -> bool {
    let n = b.len() as int;
    let full = n / 3;
    let rem = n % 3;
    &&& s.len() == 4 * ((n + 2) / 3)
    &&& forall|g: int| 0 <= g < full ==> #[trigger] b64_group_matches(s, b, g)
    &&& rem == 1 ==> {
        &&& b64_char_value(s[4 * full]) == (b[3 * full] as int) / 4
        &&& b64_char_value(s[4 * full + 1]) == (b[3 * full] as int) % 4 * 16
        &&& s[4 * full + 2] as int == 61  // '='
        &&& s[4 * full + 3] as int == 61
    }
    &&& rem == 2 ==> {
        &&& b64_char_value(s[4 * full]) == (b[3 * full] as int) / 4
        &&& b64_char_value(s[4 * full + 1]) == (b[3 * full] as int) % 4 * 16 + (b[3 * full
            + 1] as int) / 16
        &&& b64_char_value(s[4 * full + 2]) == (b[3 * full + 1] as int) % 16 * 4
        &&& s[4 * full + 3] as int == 61
    }
}

/// Relies on `base64::engine::general_purpose::STANDARD.encode`: the
/// standard alphabet with `=` padding.
#[verifier::external_body]
pub fn bytes_to_b64(bytes: &[u8]) -> (r: String)
    ensures
        is_b64_encoding(r@, bytes@),
{
    base64::engine::general_purpose::STANDARD.encode(bytes)
}

/// Relies on `base64::engine::general_purpose::STANDARD.decode`: it
/// accepts canonically padded standard-alphabet input (which the
/// precondition guarantees) and inverts the encoding.
#[verifier::external_body]
pub fn b64_to_bytes(b64: &str) -> (r: Vec<u8>)
    requires
        exists|b: Seq<u8>| is_b64_encoding(b64@, b),
    ensures
        is_b64_encoding(b64@, r@),
{
    base64::engine::general_purpose::STANDARD.decode(b64).unwrap()
}

/// Relies on `String::from_utf8`: it returns `Ok` exactly on UTF-8-valid
/// bytes, and then the returned string's UTF-8 encoding is the input.
#[verifier::external_body]
pub(crate) fn try_bytes_to_plaintext(bytes: &Vec<u8>) -> (r: Option<String>)
    ensures
        r is Some <==> valid_utf8(bytes@),
        r matches Some(s) ==> encode_utf8(s@) == bytes@,
{
    match String::from_utf8(bytes.clone()) {
        Ok(s) => Some(s),
        Err(_) => None,
    }
}

/// Decode bytes that are known to be valid UTF-8 into the text they spell.
pub fn bytes_to_plaintext(bytes: &Vec<u8>) -> (r: String)
    requires
        valid_utf8(bytes@),
    ensures
        encode_utf8(r@) == bytes@,
{
    match try_bytes_to_plaintext(bytes) {
        Some(s) => s,
        None => vstd::pervasive::unreached(),
    }
}

} // verus!
