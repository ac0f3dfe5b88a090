//! Bit-level Hamming distance between equal-length byte sequences, and the
//! fixed-length XOR primitive it is built on.

use vstd::prelude::*;

verus! {

/// Number of set bits in one byte.
pub open spec fn pop_count(b: u8) -> nat {
    ((b & 1) + ((b >> 1) & 1) + ((b >> 2) & 1) + ((b >> 3) & 1) + ((b >> 4) & 1) + ((b >> 5) & 1)
        + ((b >> 6) & 1) + ((b >> 7) & 1)) as nat
}

/// Hamming distance: total number of differing bits between two equal-length
/// byte sequences.
pub open spec fn hamming(a: Seq<u8>, b: Seq<u8>) -> nat
    recommends
        a.len() == b.len(),
    decreases a.len(),
{
    if a.len() == 0 {
        0
    } else {
        hamming(a.drop_last(), b.drop_last()) + pop_count(a.last() ^ b.last())
    }
}

/// Pointwise XOR of two equal-length byte sequences.
pub open spec fn xor_seq(a: Seq<u8>, b: Seq<u8>) -> Seq<u8>
    recommends
        a.len() == b.len(),
{
    Seq::new(a.len(), |i: int| a[i] ^ b[i])
}

proof fn lemma_pop_count_le_8(b: u8)
    ensures
        pop_count(b) <= 8,
{
    assert((b & 1) <= 1 && ((b >> 1) & 1) <= 1 && ((b >> 2) & 1) <= 1 && ((b >> 3) & 1) <= 1
        && ((b >> 4) & 1) <= 1 && ((b >> 5) & 1) <= 1 && ((b >> 6) & 1) <= 1 && ((b >> 7) & 1)
        <= 1) by (bit_vector);
}

proof fn lemma_pop_count_xor_self(x: u8)
    ensures
        pop_count(x ^ x) == 0,
{
    assert(((x ^ x) & 1) == 0 && (((x ^ x) >> 1) & 1) == 0 && (((x ^ x) >> 2) & 1) == 0 && (((x
        ^ x) >> 3) & 1) == 0 && (((x ^ x) >> 4) & 1) == 0 && (((x ^ x) >> 5) & 1) == 0 && (((x ^ x)
        >> 6) & 1) == 0 && (((x ^ x) >> 7) & 1) == 0) by (bit_vector);
}

proof fn lemma_hamming_step(a: Seq<u8>, b: Seq<u8>, i: int)
    requires
        a.len() == b.len(),
        0 <= i < a.len(),
    ensures
        hamming(a.take(i + 1), b.take(i + 1)) == hamming(a.take(i), b.take(i)) + pop_count(
            a[i] ^ b[i],
        ),
{
    assert(a.take(i + 1).drop_last() =~= a.take(i));
    assert(b.take(i + 1).drop_last() =~= b.take(i));
    assert(a.take(i + 1).last() == a[i]);
    assert(b.take(i + 1).last() == b[i]);
}

/// Each byte contributes at most its eight bits to the distance.
pub proof fn lemma_hamming_le_8_len(a: Seq<u8>, b: Seq<u8>)
    requires
        a.len() == b.len(),
    ensures
        hamming(a, b) <= 8 * a.len(),
    decreases a.len(),
{
    if a.len() > 0 {
        lemma_hamming_le_8_len(a.drop_last(), b.drop_last());
        lemma_pop_count_le_8(a.last() ^ b.last());
    }
}

/// The distance of any byte sequence to itself is zero.
pub proof fn lemma_edit_distance_self_is_zero(a: Seq<u8>)
    ensures
        hamming(a, a) == 0,
    decreases a.len(),
{
    if a.len() > 0 {
        lemma_edit_distance_self_is_zero(a.drop_last());
        lemma_pop_count_xor_self(a.last());
    }
}

/// Hamming distance is symmetric in its two arguments.
pub proof fn lemma_edit_distance_symmetric(a: Seq<u8>, b: Seq<u8>)
    requires
        a.len() == b.len(),
    ensures
        hamming(a, b) == hamming(b, a),
    decreases a.len(),
{
    if a.len() > 0 {
        lemma_edit_distance_symmetric(a.drop_last(), b.drop_last());
        let x = a.last();
        let y = b.last();
        assert(x ^ y == y ^ x) by (bit_vector);
    }
}

/// XOR is an involution: XOR-ing twice with the same mask gives the input back.
pub proof fn lemma_xor_involution(a: Seq<u8>, b: Seq<u8>)
    requires
        a.len() == b.len(),
    ensures
        xor_seq(xor_seq(a, b), b) == a,
{
    assert forall|i: int| 0 <= i < a.len() implies xor_seq(xor_seq(a, b), b)[i] == a[i] by {
        let x = a[i];
        let y = b[i];
        assert((x ^ y) ^ y == x) by (bit_vector);
    }
    assert(xor_seq(xor_seq(a, b), b) =~= a);
}

fn byte_pop_count(b: u8) -> (r: u32)
    ensures
        r == pop_count(b),
{
    ((b & 1) as u32) + (((b >> 1) & 1) as u32) + (((b >> 2) & 1) as u32) + (((b >> 3) & 1) as u32)
        + (((b >> 4) & 1) as u32) + (((b >> 5) & 1) as u32) + (((b >> 6) & 1) as u32) + (((b >> 7)
        & 1) as u32)
}

/// XOR of two byte sequences of equal length; unequal lengths are a usage
/// error and are excluded by precondition.
pub fn fixed_xor(bytes_1: &Vec<u8>, bytes_2: &Vec<u8>) -> (r: Vec<u8>)
    requires
        bytes_1@.len() == bytes_2@.len(),
    ensures
        r@ == xor_seq(bytes_1@, bytes_2@),
{
    let mut out: Vec<u8> = Vec::new();
    let mut i: usize = 0;
    while i < bytes_1.len()
        invariant
            0 <= i <= bytes_1@.len(),
            bytes_1@.len() == bytes_2@.len(),
            out@.len() == i,
            forall|j: int| 0 <= j < i ==> out@[j] == (bytes_1@[j] ^ bytes_2@[j]),
        decreases bytes_1@.len() - i,
    {
        out.push(bytes_1[i] ^ bytes_2[i]);
        i = i + 1;
    }
    proof {
        assert(out@ =~= xor_seq(bytes_1@, bytes_2@));
    }
    out
}

/// Hamming distance between two byte sequences of equal length; unequal
/// lengths are a usage error and are excluded by precondition.
pub fn edit_distance(bytes_1: &Vec<u8>, bytes_2: &Vec<u8>) -> (r: u32)
    requires
        bytes_1@.len() == bytes_2@.len(),
        bytes_1@.len() <= 0x1fff_ffff,
    ensures
        r == hamming(bytes_1@, bytes_2@),
{
    let mut total: u32 = 0;
    let mut i: usize = 0;
    while i < bytes_1.len()
        invariant
            0 <= i <= bytes_1@.len(),
            bytes_1@.len() == bytes_2@.len(),
            bytes_1@.len() <= 0x1fff_ffff,
            total == hamming(bytes_1@.take(i as int), bytes_2@.take(i as int)),
            total <= 8 * i,
        decreases bytes_1@.len() - i,
    {
        proof {
            lemma_pop_count_le_8(bytes_1@[i as int] ^ bytes_2@[i as int]);
            lemma_hamming_step(bytes_1@, bytes_2@, i as int);
        }
        total = total + byte_pop_count(bytes_1[i] ^ bytes_2[i]);
        i = i + 1;
    }
    proof {
        assert(bytes_1@.take(bytes_1@.len() as int) =~= bytes_1@);
        assert(bytes_2@.take(bytes_2@.len() as int) =~= bytes_2@);
    }
    total
}

} // verus!
