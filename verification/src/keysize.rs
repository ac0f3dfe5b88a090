//! Key-length estimator for repeating-key XOR: for every candidate keysize,
//! sample the first four full blocks of that size, average the pairwise
//! Hamming distances normalized by block length, and pick the candidate with
//! the smallest normalized distance (ties to the smallest keysize).
//!
//! Normalized distances are compared as exact fractions
//! `distance / (pairs * keysize)` by cross-multiplying, so no rounding is
//! involved in the ranking.

use vstd::prelude::*;

use crate::distance::{edit_distance, hamming};
use crate::util::copy_range;

verus! {

/// Smallest candidate keysize tried.
pub const MIN_KEYSIZE: usize = 2;

/// Largest candidate keysize tried.
pub const MAX_KEYSIZE: usize = 40;

/// The `i`-th consecutive full block of `ks` bytes of `data`.
pub open spec fn chunk_at(data: Seq<u8>, ks: int, i: int) -> Seq<u8>
    recommends
        ks >= 1,
        0 <= i,
        (i + 1) * ks <= data.len(),
{
    data.subrange(i * ks, i * ks + ks)
}

/// How many blocks are sampled for candidate `ks`: the first four full
/// blocks, or as many full blocks as the data has if that is fewer.
pub open spec fn sample_count(data: Seq<u8>, ks: int) -> int
    recommends
        ks >= 1,
{
    if data.len() as int / ks < 4 {
        data.len() as int / ks
    } else {
        4
    }
}

/// Sum of the Hamming distances between every unordered pair of sampled
/// blocks.
pub open spec fn sample_pair_sum(data: Seq<u8>, ks: int) -> int
    recommends
        ks >= 1,
{
    let n = sample_count(data, ks);
    let c0 = chunk_at(data, ks, 0);
    let c1 = chunk_at(data, ks, 1);
    let c2 = chunk_at(data, ks, 2);
    let c3 = chunk_at(data, ks, 3);
    (if n >= 2 {
        hamming(c0, c1) as int
    } else {
        0
    }) + (if n >= 3 {
        (hamming(c0, c2) + hamming(c1, c2)) as int
    } else {
        0
    }) + (if n >= 4 {
        (hamming(c0, c3) + hamming(c1, c3) + hamming(c2, c3)) as int
    } else {
        0
    })
}

/// Number of unordered pairs among `n` sampled blocks.
pub open spec fn pair_count(n: int) -> int {
    n * (n - 1) / 2
}

/// The normalizing denominator for candidate `ks`: number of block pairs
/// times block length, which removes the bias from both block count and
/// block size.
pub open spec fn norm_denom(data: Seq<u8>, ks: int) -> int
    recommends
        ks >= 1,
{
    pair_count(sample_count(data, ks)) * ks
}

/// A candidate keysize is usable when it lies in the searched range and the
/// data supplies at least two full blocks to compare; candidates with fewer
/// blocks have no defined normalized distance and are excluded from ranking.
pub open spec fn usable_keysize(data: Seq<u8>, ks: int) -> bool {
    &&& MIN_KEYSIZE <= ks <= MAX_KEYSIZE
    &&& sample_count(data, ks) >= 2
}

/// The normalized distance of candidate `a` is at most that of candidate
/// `b`, compared as exact fractions by cross-multiplying.
pub open spec fn norm_dist_le(data: Seq<u8>, a: int, b: int) -> bool
    recommends
        a >= 1,
        b >= 1,
{
    sample_pair_sum(data, a) * norm_denom(data, b) <= sample_pair_sum(data, b) * norm_denom(
        data,
        a,
    )
}

/// `ks` is the winning candidate: usable, with a normalized distance no
/// larger than any usable candidate's and strictly smaller than that of
/// every smaller usable candidate (so ties go to the smallest keysize).
pub open spec fn is_best_keysize(data: Seq<u8>, ks: int) -> bool {
    &&& usable_keysize(data, ks)
    &&& forall|k2: int| usable_keysize(data, k2) ==> norm_dist_le(data, ks, k2)
    &&& forall|k2: int| usable_keysize(data, k2) && k2 < ks ==> !norm_dist_le(data, k2, ks)
}

/// The winning keysize is unique: the ranking predicate pins down one
/// result, so estimation is deterministic for a fixed input.
pub proof fn lemma_best_keysize_unique(data: Seq<u8>, k1: int, k2: int)
    requires
        is_best_keysize(data, k1),
        is_best_keysize(data, k2),
    ensures
        k1 == k2,
{
    if k1 < k2 {
        assert(norm_dist_le(data, k1, k2));
        assert(!norm_dist_le(data, k1, k2));
    } else if k2 < k1 {
        assert(norm_dist_le(data, k2, k1));
        assert(!norm_dist_le(data, k2, k1));
    }
}

/// From `frac(a) < frac(best)` and `frac(best) <= frac(k2)` conclude
/// `frac(a) < frac(k2)`, all fractions compared by cross-multiplying with
/// positive denominators.
proof fn lemma_frac_lt_le_trans(a: int, b: int, c: int, d: int, e: int, f: int)
    by (nonlinear_arith)
    requires
        b > 0,
        d > 0,
        f > 0,
        a * d < c * b,
        c * f <= e * d,
    ensures
        a * f < e * b,
{
}

/// A usable candidate has between one and six block pairs, so its
/// denominator is positive and at most 240.
proof fn lemma_norm_denom_bounds(data: Seq<u8>, ks: int)
    requires
        usable_keysize(data, ks),
    ensures
        0 < norm_denom(data, ks) <= 240,
        1 <= pair_count(sample_count(data, ks)) <= 6,
{
    let n = sample_count(data, ks);
    assert(2 <= n <= 4);
    assert(1 <= n * (n - 1) / 2 <= 6) by (nonlinear_arith)
        requires
            2 <= n <= 4,
    ;
    let p = pair_count(n);
    assert(0 < p * ks <= 240) by (nonlinear_arith)
        requires
            1 <= p <= 6,
            2 <= ks <= 40,
    ;
}

proof fn lemma_chunk_end_in_bounds(len: int, ks: int, i: int)
    requires
        ks >= 1,
        0 <= i,
        i + 1 <= len / ks,
    ensures
        (i + 1) * ks <= len,
        i * ks + ks <= len,
{
    vstd::arithmetic::div_mod::lemma_fundamental_div_mod(len, ks);
    vstd::arithmetic::div_mod::lemma_mod_bound(len, ks);
    vstd::arithmetic::mul::lemma_mul_inequality(i + 1, len / ks, ks);
    vstd::arithmetic::mul::lemma_mul_is_commutative(len / ks, ks);
    assert((i + 1) * ks == i * ks + ks) by (nonlinear_arith);
}

/// Hamming distances between the first pairs of full `ks`-byte blocks,
/// summed as the ranking numerator, together with its denominator.
fn candidate_distance(data: &Vec<u8>, ks: usize) -> (r: (u64, u64))
    requires
        MIN_KEYSIZE <= ks <= MAX_KEYSIZE,
        sample_count(data@, ks as int) >= 2,
    ensures
        r.0 == sample_pair_sum(data@, ks as int),
        r.1 == norm_denom(data@, ks as int),
        r.1 > 0,
        r.0 <= 1920,
        r.1 <= 240,
{
    let q = data.len() / ks;
    let nb: usize = if q < 4 {
        q
    } else {
        4
    };
    proof {
        assert(nb == sample_count(data@, ks as int));
        lemma_chunk_end_in_bounds(data@.len() as int, ks as int, 0);
        lemma_chunk_end_in_bounds(data@.len() as int, ks as int, 1);
        if nb >= 3 {
            lemma_chunk_end_in_bounds(data@.len() as int, ks as int, 2);
        }
        if nb >= 4 {
            lemma_chunk_end_in_bounds(data@.len() as int, ks as int, 3);
        }
    }
    let c0 = copy_range(data, 0, ks);
    let c1 = copy_range(data, ks, 2 * ks);
    proof {
        assert(c0@ == chunk_at(data@, ks as int, 0));
        assert(c1@ == chunk_at(data@, ks as int, 1));
        crate::distance::lemma_hamming_le_8_len(c0@, c1@);
    }
    let mut total: u64 = edit_distance(&c0, &c1) as u64;
    if nb >= 3 {
        let c2 = copy_range(data, 2 * ks, 3 * ks);
        proof {
            assert(c2@ == chunk_at(data@, ks as int, 2));
            crate::distance::lemma_hamming_le_8_len(c0@, c2@);
            crate::distance::lemma_hamming_le_8_len(c1@, c2@);
        }
        total = total + edit_distance(&c0, &c2) as u64 + edit_distance(&c1, &c2) as u64;
        if nb >= 4 {
            let c3 = copy_range(data, 3 * ks, 4 * ks);
            proof {
                assert(c3@ == chunk_at(data@, ks as int, 3));
                crate::distance::lemma_hamming_le_8_len(c0@, c3@);
                crate::distance::lemma_hamming_le_8_len(c1@, c3@);
                crate::distance::lemma_hamming_le_8_len(c2@, c3@);
            }
            total = total + edit_distance(&c0, &c3) as u64 + edit_distance(&c1, &c3) as u64
                + edit_distance(&c2, &c3) as u64;
        }
    }
    proof {
        lemma_norm_denom_bounds(data@, ks as int);
    }
    let pairs: u64 = ((nb * (nb - 1)) / 2) as u64;
    proof {
        assert(pairs == pair_count(sample_count(data@, ks as int)));
    }
    let den: u64 = pairs * (ks as u64);
    (total, den)
}

/// Estimate the most likely repeating-key length for `data`, searching
/// candidates 2 through 40 and ranking them by normalized pairwise block
/// distance; the smallest normalized distance wins, ties going to the
/// smallest keysize. At least four bytes are needed so that the smallest
/// candidate has two full blocks to compare.
pub fn guess_keysize(data: &Vec<u8>) -> (r: usize)
    requires
        data@.len() >= 4,
    ensures
        is_best_keysize(data@, r as int),
{
    proof {
        assert(data@.len() as int / 2 >= 2) by (nonlinear_arith)
            requires
                data@.len() >= 4,
        ;
    }
    let (mut best_total, mut best_den) = candidate_distance(data, MIN_KEYSIZE);
    let mut best_ks: usize = MIN_KEYSIZE;
    let mut ks: usize = MIN_KEYSIZE + 1;
    while ks <= MAX_KEYSIZE
        invariant
            data@.len() >= 4,
            MIN_KEYSIZE < ks <= MAX_KEYSIZE + 1,
            MIN_KEYSIZE <= best_ks < ks,
            usable_keysize(data@, best_ks as int),
            best_total == sample_pair_sum(data@, best_ks as int),
            best_den == norm_denom(data@, best_ks as int),
            best_den > 0,
            best_total <= 1920,
            best_den <= 240,
            forall|k2: int|
                usable_keysize(data@, k2) && k2 < ks ==> norm_dist_le(data@, best_ks as int, k2),
            forall|k2: int|
                usable_keysize(data@, k2) && k2 < best_ks ==> !norm_dist_le(
                    data@,
                    k2,
                    best_ks as int,
                ),
        decreases MAX_KEYSIZE + 1 - ks,
    {
        let q = data.len() / ks;
        if q >= 2 {
            let (total, den) = candidate_distance(data, ks);
            proof {
                assert((total as int) * (best_den as int) <= 460800 && (best_total as int) * (
                den as int) <= 460800) by (nonlinear_arith)
                    requires
                        0 <= total <= 1920,
                        0 <= best_den <= 240,
                        0 <= best_total <= 1920,
                        0 <= den <= 240,
                ;
            }
            if total * best_den < best_total * den {
                proof {
                    let gd = data@;
                    let gks = ks as int;
                    let gbest = best_ks as int;
                    assert forall|k2: int| usable_keysize(gd, k2) && k2 < gks + 1 implies
                        norm_dist_le(gd, gks, k2) by {
                        if k2 < gks {
                            assert(norm_dist_le(gd, gbest, k2));
                            lemma_norm_denom_bounds(gd, gks);
                            lemma_norm_denom_bounds(gd, gbest);
                            lemma_norm_denom_bounds(gd, k2);
                            lemma_frac_lt_le_trans(
                                sample_pair_sum(gd, gks),
                                norm_denom(gd, gks),
                                sample_pair_sum(gd, gbest),
                                norm_denom(gd, gbest),
                                sample_pair_sum(gd, k2),
                                norm_denom(gd, k2),
                            );
                        }
                    }
                    assert forall|k2: int| usable_keysize(gd, k2) && k2 < gks implies
                        !norm_dist_le(gd, k2, gks) by {
                        assert(norm_dist_le(gd, gbest, k2));
                        lemma_norm_denom_bounds(gd, gks);
                        lemma_norm_denom_bounds(gd, gbest);
                        lemma_norm_denom_bounds(gd, k2);
                        lemma_frac_lt_le_trans(
                            sample_pair_sum(gd, gks),
                            norm_denom(gd, gks),
                            sample_pair_sum(gd, gbest),
                            norm_denom(gd, gbest),
                            sample_pair_sum(gd, k2),
                            norm_denom(gd, k2),
                        );
                    }
                }
                best_total = total;
                best_den = den;
                best_ks = ks;
            }
        }
        ks = ks + 1;
    }
    best_ks
}

} // verus!
