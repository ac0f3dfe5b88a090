//! Repeating-key XOR breaker: transpose the ciphertext into one column per
//! key position, break each column as a single-byte XOR, reassemble the key,
//! and decode the ciphertext against the cycled key.

use vstd::prelude::*;
use vstd::utf8::{encode_utf8, valid_utf8};

use crate::codec::try_bytes_to_plaintext;
use crate::freq::MAX_TEXT_LEN;
use crate::single_byte::{break_single_char_xor, is_best_key};

verus! {

/// Error conditions of plaintext materialization.
#[derive(Debug, PartialEq, Eq, Structural)]
pub enum XorError {
    /// The decoded bytes are not valid text.
    EncodingInvalid,
}

/// How many bytes of a sequence of length `len` sit at positions congruent
/// to `i` modulo `ks`.
pub open spec fn column_len(len: int, ks: int, i: int) -> int
    recommends
        ks >= 1,
        0 <= i,
{
    if len <= i {
        0
    } else {
        (len - i - 1) / ks + 1
    }
}

/// The bytes of `data` at positions congruent to `i` modulo `ks`, in order:
/// the `i`-th column of the transposition by key position.
pub open spec fn column_of(data: Seq<u8>, ks: int, i: int) -> Seq<u8>
    recommends
        ks >= 1,
        0 <= i < ks,
{
    Seq::new(column_len(data.len() as int, ks, i) as nat, |m: int| data[i + m * ks])
}

/// `data` XOR-ed against `key` cycled to its length.
pub open spec fn xor_repeat(data: Seq<u8>, key: Seq<u8>) -> Seq<u8>
    recommends
        key.len() >= 1,
{
    Seq::new(data.len(), |j: int| data[j] ^ key[j % key.len() as int])
}

/// Repeating-key XOR is an involution: encrypting and then decrypting with
/// the same key (or the other way round) gives the input back, so a breaker
/// that recovers the true key recovers the exact plaintext.
pub proof fn lemma_xor_repeat_involution(p: Seq<u8>, key: Seq<u8>)
    requires
        key.len() >= 1,
    ensures
        xor_repeat(xor_repeat(p, key), key) == p,
{
    assert forall|j: int| 0 <= j < p.len() implies xor_repeat(xor_repeat(p, key), key)[j]
        == p[j] by {
        let x = p[j];
        let y = key[j % key.len() as int];
        assert((x ^ y) ^ y == x) by (bit_vector);
    }
    assert(xor_repeat(xor_repeat(p, key), key) =~= p);
}

proof fn lemma_column_len_above(len: int, ks: int, i: int, m: int)
    requires
        ks >= 1,
        0 <= i,
        0 <= m,
        i + m * ks < len,
    ensures
        m < column_len(len, ks, i),
{
    assert(m <= (len - i - 1) / ks) by (nonlinear_arith)
        requires
            ks >= 1,
            0 <= m,
            m * ks <= len - i - 1,
    ;
}

proof fn lemma_column_len_below(len: int, ks: int, i: int, m: int)
    requires
        ks >= 1,
        0 <= i,
        0 <= m,
        i + m * ks >= len,
    ensures
        column_len(len, ks, i) <= m,
{
    if len > i {
        assert((len - i - 1) / ks < m) by (nonlinear_arith)
            requires
                ks >= 1,
                0 <= m,
                len - i - 1 < m * ks,
                len - i - 1 >= 0,
        ;
    }
}

/// A column has at most as many bytes as the whole sequence.
proof fn lemma_column_len_le(len: int, ks: int, i: int)
    requires
        ks >= 1,
        0 <= i,
        0 <= len,
    ensures
        0 <= column_len(len, ks, i) <= len,
{
    if len > i {
        assert(0 <= (len - i - 1) / ks <= len - i - 1) by (nonlinear_arith)
            requires
                ks >= 1,
                len - i - 1 >= 0,
        ;
    }
}

/// Transpose `data` into `keysize` columns: column `i` collects the bytes
/// at positions congruent to `i` modulo `keysize`, in order. Blocks shorter
/// than `keysize` (a trailing partial block) simply contribute to fewer
/// columns.
pub fn transpose_blocks(data: &Vec<u8>, keysize: usize) -> (r: Vec<Vec<u8>>)
    requires
        keysize >= 1,
        data@.len() + keysize <= usize::MAX,
    ensures
        r@.len() == keysize,
        forall|i: int| 0 <= i < keysize ==> #[trigger] r@[i]@ == column_of(data@, keysize as int, i),
{
    let mut out: Vec<Vec<u8>> = Vec::new();
    let mut i: usize = 0;
    while i < keysize
        invariant
            0 <= i <= keysize,
            keysize >= 1,
            data@.len() + keysize <= usize::MAX,
            out@.len() == i,
            forall|ii: int|
                0 <= ii < i ==> #[trigger] out@[ii]@ == column_of(data@, keysize as int, ii),
        decreases keysize - i,
    {
        let mut col: Vec<u8> = Vec::new();
        let mut j: usize = i;
        proof {
            assert(i + col@.len() * (keysize as int) == j);
        }
        while j < data.len()
            invariant
                0 <= i < keysize,
                data@.len() + keysize <= usize::MAX,
                j == i + col@.len() * (keysize as int),
                col@.len() <= column_len(data@.len() as int, keysize as int, i as int),
                forall|m: int| 0 <= m < col@.len() ==> col@[m] == data@[i + m * (keysize as int)],
            decreases data@.len() + keysize - j,
        {
            proof {
                lemma_column_len_above(
                    data@.len() as int,
                    keysize as int,
                    i as int,
                    col@.len() as int,
                );
                let m = col@.len() as int;
                assert((m + 1) * (keysize as int) == m * (keysize as int) + keysize)
                    by (nonlinear_arith);
            }
            col.push(data[j]);
            j = j + keysize;
            proof {
                assert(j == i + col@.len() * (keysize as int));
            }
        }
        proof {
            lemma_column_len_below(
                data@.len() as int,
                keysize as int,
                i as int,
                col@.len() as int,
            );
            assert(col@ =~= column_of(data@, keysize as int, i as int));
        }
        out.push(col);
        i = i + 1;
    }
    out
}

/// A key of `size` bytes made by cycling `key` from its start.
pub fn repeat_key(size: usize, key: &Vec<u8>) -> (r: Vec<u8>)
    requires
        key@.len() >= 1,
    ensures
        r@.len() == size,
        forall|j: int| 0 <= j < size ==> r@[j] == key@[j % key@.len() as int],
{
    let mut out: Vec<u8> = Vec::new();
    let mut j: usize = 0;
    while j < size
        invariant
            0 <= j <= size,
            key@.len() >= 1,
            out@.len() == j,
            forall|m: int| 0 <= m < j ==> out@[m] == key@[m % key@.len() as int],
        decreases size - j,
    {
        out.push(key[j % key.len()]);
        j = j + 1;
    }
    out
}

/// Break a repeating-key XOR ciphertext for a given keysize: each
/// transposed column is broken independently as a single-byte XOR, the
/// winning bytes form the key in column order, and the ciphertext XOR-ed
/// against the cycled key is returned as text when the decoded bytes are
/// valid text, and as an encoding error otherwise. A keysize beyond the
/// ciphertext length still yields a key of the requested length; the bytes
/// past every column default to 0, the winner over an empty column.
pub fn break_repeating_key_xor(keysize: usize, ciphertext_bytes: Vec<u8>) -> (r: (
    Vec<u8>,
    Result<String, XorError>,
))
    requires
        keysize >= 1,
        ciphertext_bytes@.len() <= MAX_TEXT_LEN,
        ciphertext_bytes@.len() + keysize <= usize::MAX,
    ensures
        r.0@.len() == keysize,
        forall|i: int|
            0 <= i < keysize ==> #[trigger] is_best_key(
                column_of(ciphertext_bytes@, keysize as int, i),
                r.0@[i],
            ),
        r.1 is Ok <==> valid_utf8(xor_repeat(ciphertext_bytes@, r.0@)),
        r.1 matches Ok(s) ==> encode_utf8(s@) == xor_repeat(ciphertext_bytes@, r.0@),
{
    let columns = transpose_blocks(&ciphertext_bytes, keysize);
    let mut key_bytes: Vec<u8> = Vec::new();
    let mut i: usize = 0;
    while i < keysize
        invariant
            0 <= i <= keysize,
            keysize >= 1,
            ciphertext_bytes@.len() <= MAX_TEXT_LEN,
            columns@.len() == keysize,
            forall|ii: int|
                0 <= ii < keysize ==> #[trigger] columns@[ii]@ == column_of(
                    ciphertext_bytes@,
                    keysize as int,
                    ii,
                ),
            key_bytes@.len() == i,
            forall|ii: int|
                0 <= ii < i ==> #[trigger] is_best_key(
                    column_of(ciphertext_bytes@, keysize as int, ii),
                    key_bytes@[ii],
                ),
        decreases keysize - i,
    {
        proof {
            lemma_column_len_le(ciphertext_bytes@.len() as int, keysize as int, i as int);
        }
        let broken = break_single_char_xor(&columns[i]);
        key_bytes.push(broken.1);
        i = i + 1;
    }
    let repeated = repeat_key(ciphertext_bytes.len(), &key_bytes);
    let plaintext_bytes = crate::distance::fixed_xor(&ciphertext_bytes, &repeated);
    proof {
        assert(plaintext_bytes@ =~= xor_repeat(ciphertext_bytes@, key_bytes@));
    }
    match try_bytes_to_plaintext(&plaintext_bytes) {
        Some(s) => (key_bytes, Ok(s)),
        None => (key_bytes, Err(XorError::EncodingInvalid)),
    }
}

} // verus!
