//! English letter-frequency model: a fixed table of weights for the letters
//! A-Z and the space character, and a scorer that rates how English-like a
//! byte sequence is.
//!
//! Weights are the usual relative frequencies of English text scaled by
//! 100000, so that scores are exact integers. The score is an unnormalized
//! ranking signal: only comparisons between scores of equal-length inputs are
//! meaningful.

use vstd::prelude::*;

verus! {

/// A text longer than this could overflow the 64-bit score accumulator
/// (kept within 32-bit address space so the bound is meaningful on any target).
pub const MAX_TEXT_LEN: usize = 0x0fff_ffff;

/// Largest single weight in the table (the space character's).
pub const MAX_WEIGHT: u64 = 19181;

/// Relative frequency of letter slot 0..=25 (A..=Z) or 26 (space), scaled by
/// 100000.
pub open spec fn letter_weight(slot: int) -> u64 {
    if slot == 0 {
        8167  // A
    } else if slot == 1 {
        1492  // B
    } else if slot == 2 {
        2782  // C
    } else if slot == 3 {
        4253  // D
    } else if slot == 4 {
        12702  // E
    } else if slot == 5 {
        2228  // F
    } else if slot == 6 {
        2015  // G
    } else if slot == 7 {
        6094  // H
    } else if slot == 8 {
        6966  // I
    } else if slot == 9 {
        153  // J
    } else if slot == 10 {
        772  // K
    } else if slot == 11 {
        4025  // L
    } else if slot == 12 {
        2406  // M
    } else if slot == 13 {
        6749  // N
    } else if slot == 14 {
        7507  // O
    } else if slot == 15 {
        1929  // P
    } else if slot == 16 {
        95  // Q
    } else if slot == 17 {
        5987  // R
    } else if slot == 18 {
        6327  // S
    } else if slot == 19 {
        9056  // T
    } else if slot == 20 {
        2758  // U
    } else if slot == 21 {
        978  // V
    } else if slot == 22 {
        2360  // W
    } else if slot == 23 {
        150  // X
    } else if slot == 24 {
        1974  // Y
    } else if slot == 25 {
        74  // Z
    } else if slot == 26 {
        19181  // space
    } else {
        0
    }
}

/// Weight a single byte contributes to the score: letters are case-folded to
/// their slot, a space maps to the last slot, everything else contributes
/// nothing.
pub open spec fn byte_weight(b: u8) -> u64 {
    if 97 <= b && b <= 122 {  // 'a'..='z'
        letter_weight(b - 97)
    } else if 65 <= b && b <= 90 {  // 'A'..='Z'
        letter_weight(b - 65)
    } else if b == 32 {  // ' '
        letter_weight(26)
    } else {
        0
    }
}

/// English-likeness score of a byte sequence: the sum of the weights of its
/// bytes. Summing per byte equals tallying occurrences per slot and then
/// summing count times weight over the slots.
pub open spec fn score_of(s: Seq<u8>) -> nat
    decreases s.len(),
{
    if s.len() == 0 {
        0
    } else {
        score_of(s.drop_last()) + byte_weight(s.last()) as nat
    }
}

proof fn lemma_byte_weight_le_max(b: u8)
    ensures
        byte_weight(b) <= MAX_WEIGHT,
{
}

proof fn lemma_score_step(s: Seq<u8>, i: int)
    requires
        0 <= i < s.len(),
    ensures
        score_of(s.take(i + 1)) == score_of(s.take(i)) + byte_weight(s[i]),
{
    assert(s.take(i + 1).drop_last() =~= s.take(i));
    assert(s.take(i + 1).last() == s[i]);
}

fn slot_weight(slot: u8) -> (w: u64)
    requires
        slot <= 26,
    ensures
        w == letter_weight(slot as int),
{
    if slot == 0 {
        8167
    } else if slot == 1 {
        1492
    } else if slot == 2 {
        2782
    } else if slot == 3 {
        4253
    } else if slot == 4 {
        12702
    } else if slot == 5 {
        2228
    } else if slot == 6 {
        2015
    } else if slot == 7 {
        6094
    } else if slot == 8 {
        6966
    } else if slot == 9 {
        153
    } else if slot == 10 {
        772
    } else if slot == 11 {
        4025
    } else if slot == 12 {
        2406
    } else if slot == 13 {
        6749
    } else if slot == 14 {
        7507
    } else if slot == 15 {
        1929
    } else if slot == 16 {
        95
    } else if slot == 17 {
        5987
    } else if slot == 18 {
        6327
    } else if slot == 19 {
        9056
    } else if slot == 20 {
        2758
    } else if slot == 21 {
        978
    } else if slot == 22 {
        2360
    } else if slot == 23 {
        150
    } else if slot == 24 {
        1974
    } else if slot == 25 {
        74
    } else {
        19181
    }
}

fn weight_of_byte(b: u8) -> (w: u64)
    ensures
        w == byte_weight(b),
{
    if 97 <= b && b <= 122 {
        slot_weight(b - 97)
    } else if 65 <= b && b <= 90 {
        slot_weight(b - 65)
    } else if b == 32 {
        slot_weight(26)
    } else {
        0
    }
}

/// English-likeness score of a byte sequence. Higher means more English-like;
/// the value is meaningful only relative to scores of other inputs of the same
/// length.
pub fn count_freq_score(text: &Vec<u8>) -> (score: u64)
    requires
        text@.len() <= MAX_TEXT_LEN,
    ensures
        score == score_of(text@),
{
    let mut score: u64 = 0;
    let mut i: usize = 0;
    while i < text.len()
        invariant
            0 <= i <= text@.len(),
            text@.len() <= MAX_TEXT_LEN,
            score == score_of(text@.take(i as int)),
            score <= (MAX_WEIGHT as int) * i,
        decreases text@.len() - i,
    {
        proof {
            lemma_byte_weight_le_max(text@[i as int]);
            lemma_score_step(text@, i as int);
            assert((MAX_WEIGHT as int) * (i + 1) == (MAX_WEIGHT as int) * i + MAX_WEIGHT as int)
                by (nonlinear_arith);
            assert((MAX_WEIGHT as int) * (i + 1) <= (MAX_WEIGHT as int) * (MAX_TEXT_LEN as int))
                by (nonlinear_arith)
                requires
                    0 <= i,
                    i + 1 <= MAX_TEXT_LEN as int,
            ;
        }
        score = score + weight_of_byte(text[i]);
        i = i + 1;
    }
    proof {
        assert(text@.take(text@.len() as int) =~= text@);
    }
    score
}

} // verus!
