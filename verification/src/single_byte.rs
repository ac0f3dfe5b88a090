//! Single-byte XOR breaker: brute-forces all 256 one-byte keys against a
//! ciphertext and keeps the candidate whose decode scores as most
//! English-like, ties going to the lowest key value.

use vstd::prelude::*;

use crate::freq::{count_freq_score, score_of, MAX_TEXT_LEN};

verus! {

/// The given byte sequence XOR-ed with a single repeated key byte.
pub open spec fn xor_key(s: Seq<u8>, k: u8) -> Seq<u8> {
    Seq::new(s.len(), |i: int| s[i] ^ k)
}

/// Score of the decode of `s` under the single-byte key `k`.
pub open spec fn key_score(s: Seq<u8>, k: u8) -> nat {
    score_of(xor_key(s, k))
}

/// `k` is the winning single-byte key for `s`: no key scores higher, and
/// every lower key value scores strictly lower (so ties keep the first-seen,
/// i.e. lowest, key).
pub open spec fn is_best_key(s: Seq<u8>, k: u8) -> bool {
    &&& forall|k2: u8| key_score(s, k2) <= key_score(s, k)
    &&& forall|k2: u8| k2 < k ==> key_score(s, k2) < key_score(s, k)
}

/// XOR every byte of `bytes` with the single key byte `key`.
pub fn xor_with_key(bytes: &Vec<u8>, key: u8) -> (r: Vec<u8>)
    ensures
        r@ == xor_key(bytes@, key),
{
    let mut out: Vec<u8> = Vec::new();
    let mut i: usize = 0;
    while i < bytes.len()
        invariant
            0 <= i <= bytes@.len(),
            out@.len() == i,
            forall|j: int| 0 <= j < i ==> out@[j] == (bytes@[j] ^ key),
        decreases bytes@.len() - i,
    {
        out.push(bytes[i] ^ key);
        i = i + 1;
    }
    proof {
        assert(out@ =~= xor_key(bytes@, key));
    }
    out
}

/// Try every single-byte key against the ciphertext and return the winning
/// score, key and decoded bytes. The winner has the strictly greatest score
/// seen; ties keep the lowest key value. An empty ciphertext scores 0 under
/// every key, so key 0 wins by the tie-break rule.
pub fn break_single_char_xor(bytes: &Vec<u8>) -> (r: (u64, u8, Vec<u8>))
    requires
        bytes@.len() <= MAX_TEXT_LEN,
    ensures
        is_best_key(bytes@, r.1),
        r.0 == key_score(bytes@, r.1),
        r.2@ == xor_key(bytes@, r.1),
{
    let mut best_text = xor_with_key(bytes, 0);
    let mut best_score = count_freq_score(&best_text);
    let mut best_key: u8 = 0;
    let mut k: u16 = 1;
    while k < 256
        invariant
            1 <= k <= 256,
            bytes@.len() <= MAX_TEXT_LEN,
            best_key < k,
            best_score == key_score(bytes@, best_key),
            best_text@ == xor_key(bytes@, best_key),
            forall|k2: u8| (k2 as u16) < k ==> key_score(bytes@, k2) <= best_score,
            forall|k2: u8| k2 < best_key ==> key_score(bytes@, k2) < best_score,
        decreases 256 - k,
    {
        let text = xor_with_key(bytes, k as u8);
        let score = count_freq_score(&text);
        if score > best_score {
            best_score = score;
            best_key = k as u8;
            best_text = text;
        }
        k = k + 1;
    }
    (best_score, best_key, best_text)
}

} // verus!
