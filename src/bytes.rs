//! Copying byte ranges into owned buffers.
use vstd::prelude::*;

verus! {

/// The bytes of `b` from `i` to `j`.
pub fn copy_range(b: &[u8], i: usize, j: usize) -> (r: Vec<u8>)
    requires
        i <= j <= b@.len(),
    ensures
        r@ == b@.subrange(i as int, j as int),
{
    let mut out: Vec<u8> = Vec::new();
    let mut k: usize = i;
    while k < j
        invariant
            i <= k <= j <= b@.len(),
            out@ == b@.subrange(i as int, k as int),
        decreases j - k,
    {
        out.push(b[k]);
        assert(out@ =~= b@.subrange(i as int, k + 1));
        k += 1;
    }
    out
}

/// A copy of a whole byte slice.
pub fn copy_bytes(b: &[u8]) -> (r: Vec<u8>)
    ensures
        r@ == b@,
{
    let r = copy_range(b, 0, b.len());
    assert(b@.subrange(0, b@.len() as int) =~= b@);
    r
}

} // verus!
