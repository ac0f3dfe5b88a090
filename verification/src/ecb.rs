//! AES-ECB side of the toolkit: counting repeated 16-byte blocks (the
//! telltale of ECB mode), PKCS#7 padding, and AES-128-ECB decryption
//! delegated to a cryptographic primitives library.

use vstd::prelude::*;

use crate::util::{bytes_equal, copy_range};

verus! {

/// Error conditions of AES decryption.
#[derive(Debug, PartialEq, Eq, Structural)]
pub enum AesError {
    /// The primitives library rejected the key or the ciphertext (for
    /// instance a bad final padding block).
    DecryptFailed,
}

/// The `i`-th 16-byte block of `data`; the final block may be shorter.
pub open spec fn ecb_chunk(data: Seq<u8>, i: int) -> Seq<u8>
    recommends
        0 <= i,
        16 * i < data.len(),
{
    if 16 * i + 16 <= data.len() {
        data.subrange(16 * i, 16 * i + 16)
    } else {
        data.subrange(16 * i, data.len() as int)
    }
}

/// Number of 16-byte blocks of `data`, counting a trailing partial block.
pub open spec fn ecb_chunk_count(len: int) -> int {
    (len + 15) / 16
}

/// Block `i` also occurs at some earlier block position.
pub open spec fn repeated_before(data: Seq<u8>, i: int) -> bool {
    exists|j: int| 0 <= j < i && ecb_chunk(data, j) == ecb_chunk(data, i)
}

/// How many of the first `n` blocks repeat an earlier block: the total
/// block count minus the number of distinct blocks.
pub open spec fn dup_count_up_to(data: Seq<u8>, n: int) -> int
    decreases n,
{
    if n <= 0 {
        0
    } else {
        dup_count_up_to(data, n - 1) + if repeated_before(data, n - 1) {
            1int
        } else {
            0int
        }
    }
}

/// How many 16-byte blocks of `data` repeat an earlier block.
pub open spec fn duplicate_block_count(data: Seq<u8>) -> int {
    dup_count_up_to(data, ecb_chunk_count(data.len() as int))
}

proof fn lemma_ecb_chunk_start_in_bounds(len: int, i: int)
    requires
        0 <= i < ecb_chunk_count(len),
    ensures
        16 * i < len,
{
    vstd::arithmetic::div_mod::lemma_fundamental_div_mod(len + 15, 16);
    vstd::arithmetic::div_mod::lemma_mod_bound(len + 15, 16);
    vstd::arithmetic::mul::lemma_mul_inequality(i + 1, (len + 15) / 16, 16);
    vstd::arithmetic::mul::lemma_mul_is_commutative((len + 15) / 16, 16);
    assert((i + 1) * 16 == 16 * i + 16) by (nonlinear_arith);
}

proof fn lemma_dup_count_le(data: Seq<u8>, n: int)
    requires
        n >= 0,
    ensures
        0 <= dup_count_up_to(data, n) <= n,
    decreases n,
{
    if n > 0 {
        lemma_dup_count_le(data, n - 1);
    }
}

/// The `i`-th 16-byte block of `data` as a fresh vector.
fn ecb_chunk_at(data: &Vec<u8>, i: usize) -> (r: Vec<u8>)
    requires
        data@.len() + 15 <= usize::MAX,
        0 <= i < ecb_chunk_count(data@.len() as int),
    ensures
        r@ == ecb_chunk(data@, i as int),
{
    proof {
        lemma_ecb_chunk_start_in_bounds(data@.len() as int, i as int);
    }
    let start = 16 * i;
    let end = if start + 16 <= data.len() {
        start + 16
    } else {
        data.len()
    };
    copy_range(data, start, end)
}

/// Count the 16-byte blocks of a ciphertext that also occur earlier in it.
/// Identical blocks betray ECB mode: equal plaintext blocks encrypt to
/// equal ciphertext blocks.
pub fn detect_aes_ecb(ciphertext_bytes: &Vec<u8>) -> (r: usize)
    requires
        ciphertext_bytes@.len() + 15 <= usize::MAX,
    ensures
        r == duplicate_block_count(ciphertext_bytes@),
{
    let nc = (ciphertext_bytes.len() + 15) / 16;
    let mut count: usize = 0;
    let mut i: usize = 0;
    while i < nc
        invariant
            0 <= i <= nc,
            ciphertext_bytes@.len() + 15 <= usize::MAX,
            nc == ecb_chunk_count(ciphertext_bytes@.len() as int),
            count == dup_count_up_to(ciphertext_bytes@, i as int),
            count <= i,
        decreases nc - i,
    {
        proof {
            lemma_dup_count_le(ciphertext_bytes@, i as int);
        }
        let ci = ecb_chunk_at(ciphertext_bytes, i);
        let mut found = false;
        let mut j: usize = 0;
        while j < i
            invariant
                0 <= j <= i < nc,
                ciphertext_bytes@.len() + 15 <= usize::MAX,
                nc == ecb_chunk_count(ciphertext_bytes@.len() as int),
                ci@ == ecb_chunk(ciphertext_bytes@, i as int),
                found <==> exists|jj: int|
                    0 <= jj < j && ecb_chunk(ciphertext_bytes@, jj) == ecb_chunk(
                        ciphertext_bytes@,
                        i as int,
                    ),
            decreases i - j,
        {
            let cj = ecb_chunk_at(ciphertext_bytes, j);
            if bytes_equal(&ci, &cj) {
                found = true;
            }
            j = j + 1;
        }
        if found {
            count = count + 1;
        }
        i = i + 1;
    }
    count
}

/// Longest key or ciphertext the AES backend takes: buffer lengths are
/// handed to C as 32-bit signed ints, and a longer buffer would make the
/// conversion fail instead of reaching the cipher.
pub const MAX_AES_INPUT_LEN: usize = 0x7fff_ffff;

/// What AES-128-ECB decryption (with PKCS#7 unpadding) yields on the given
/// key and ciphertext; a function of the two arguments alone.
pub uninterp spec fn aes_128_ecb_plaintext_of(key: Seq<u8>, ciphertext: Seq<u8>) -> Seq<u8>;

/// Whether AES-128-ECB decryption succeeds on the given key and
/// ciphertext (a 16-byte key, whole blocks, good final padding); like the
/// plaintext itself, a function of the two arguments alone.
pub uninterp spec fn aes_128_ecb_decrypt_succeeds(key: Seq<u8>, ciphertext: Seq<u8>) -> bool;

#[verifier::external_type_specification]
#[verifier::external_body]
pub struct ExErrorStack(openssl::error::ErrorStack);

/// Relies on `openssl::symm::decrypt` with `Cipher::aes_128_ecb`: whether
/// the call succeeds, and what it returns, depend on the key and
/// ciphertext alone. ECB needs no initialization vector, so `None` trips
/// no assertion, and with both buffer lengths within the C-int range the
/// call returns instead of panicking.
#[verifier::external_body]
fn aes_128_ecb_decrypt_call(key_bytes: &[u8], ciphertext_bytes: &[u8]) -> (r: Result<
    Vec<u8>,
    openssl::error::ErrorStack,
>)
    requires
        key_bytes@.len() <= MAX_AES_INPUT_LEN,
        ciphertext_bytes@.len() <= MAX_AES_INPUT_LEN,
    ensures
        r is Ok <==> aes_128_ecb_decrypt_succeeds(key_bytes@, ciphertext_bytes@),
        r matches Ok(v) ==> v@ == aes_128_ecb_plaintext_of(key_bytes@, ciphertext_bytes@),
{
    openssl::symm::decrypt(
        openssl::symm::Cipher::aes_128_ecb(),
        key_bytes,
        None,
        ciphertext_bytes,
    )
}

/// Decrypt an AES-128-ECB ciphertext with the given 16-byte key; the
/// primitives library reports failure (a wrong key length, a ciphertext
/// that is not a whole number of blocks, or bad final padding) as an error.
pub fn decrypt_aes_ecb_128(key_bytes: &[u8], ciphertext_bytes: &[u8]) -> (r: Result<
    Vec<u8>,
    AesError,
>)
    requires
        key_bytes@.len() <= MAX_AES_INPUT_LEN,
        ciphertext_bytes@.len() <= MAX_AES_INPUT_LEN,
    ensures
        r is Ok <==> aes_128_ecb_decrypt_succeeds(key_bytes@, ciphertext_bytes@),
        r matches Ok(v) ==> v@ == aes_128_ecb_plaintext_of(key_bytes@, ciphertext_bytes@),
        r matches Err(e) ==> e == AesError::DecryptFailed,
{
    match aes_128_ecb_decrypt_call(key_bytes, ciphertext_bytes) {
        Ok(v) => Ok(v),
        Err(_) => Err(AesError::DecryptFailed),
    }
}

/// Length of the PKCS#7 padding appended to an input of length `len`:
/// enough bytes to reach the next multiple of the block size, and a whole
/// extra block when the input is already aligned.
pub open spec fn pkcs7_pad_len(block_size: u8, len: int) -> int {
    block_size - len % (block_size as int)
}

/// Pad `input_text` PKCS#7-style to a multiple of `block_size`: append `p`
/// bytes of value `p`, where `p` is the distance to the next multiple of
/// the block size (a full block when already aligned).
pub fn pkcs7_padding(block_size: u8, input_text: &Vec<u8>) -> (r: Vec<u8>)
    requires
        block_size >= 1,
        input_text@.len() + block_size <= usize::MAX,
    ensures
        r@.len() == input_text@.len() + pkcs7_pad_len(block_size, input_text@.len() as int),
        r@.subrange(0, input_text@.len() as int) == input_text@,
        forall|k: int|
            input_text@.len() <= k < r@.len() ==> r@[k] == pkcs7_pad_len(
                block_size,
                input_text@.len() as int,
            ),
{
    let rem = input_text.len() % (block_size as usize);
    let pad: u8 = block_size - (rem as u8);
    let mut out = copy_range(input_text, 0, input_text.len());
    proof {
        assert(out@ =~= input_text@);
        assert(out@.subrange(0, input_text@.len() as int) =~= input_text@);
    }
    let mut t: u8 = 0;
    while t < pad
        invariant
            0 <= t <= pad,
            pad == pkcs7_pad_len(block_size, input_text@.len() as int),
            input_text@.len() + block_size <= usize::MAX,
            out@.len() == input_text@.len() + t,
            out@.subrange(0, input_text@.len() as int) == input_text@,
            forall|k: int| input_text@.len() <= k < out@.len() ==> out@[k] == pad,
        decreases pad - t,
    {
        out.push(pad);
        proof {
            assert(out@.subrange(0, input_text@.len() as int) =~= input_text@);
        }
        t = t + 1;
    }
    out
}

} // verus!
