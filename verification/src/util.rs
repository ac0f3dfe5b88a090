//! Small byte-vector helpers shared by the analysis routines.

use vstd::prelude::*;

verus! {

/// Copy of the bytes of `data` from `start` (inclusive) to `end`
/// (exclusive).
pub fn copy_range(data: &Vec<u8>, start: usize, end: usize) -> (r: Vec<u8>)
    requires
        start <= end <= data@.len(),
    ensures
        r@ == data@.subrange(start as int, end as int),
{
    let mut out: Vec<u8> = Vec::new();
    let mut j: usize = start;
    while j < end
        invariant
            start <= j <= end <= data@.len(),
            out@.len() == j - start,
            forall|m: int| 0 <= m < out@.len() ==> out@[m] == data@[start + m],
        decreases end - j,
    {
        out.push(data[j]);
        j = j + 1;
    }
    proof {
        assert(out@ =~= data@.subrange(start as int, end as int));
    }
    out
}

/// Whether two byte vectors hold the same bytes.
pub fn bytes_equal(a: &Vec<u8>, b: &Vec<u8>) -> (r: bool)
    ensures
        r <==> a@ == b@,
{
    if a.len() != b.len() {
        return false;
    }
    let mut i: usize = 0;
    while i < a.len()
        invariant
            0 <= i <= a@.len(),
            a@.len() == b@.len(),
            forall|j: int| 0 <= j < i ==> a@[j] == b@[j],
        decreases a@.len() - i,
    {
        if a[i] != b[i] {
            return false;
        }
        i = i + 1;
    }
    proof {
        assert(a@ =~= b@);
    }
    true
}

} // verus!
