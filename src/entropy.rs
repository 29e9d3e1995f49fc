//! Byte histograms, from which the entropy of a buffer is computed.
use vstd::prelude::*;

verus! {

/// Number of occurrences of `b` in `s`.
pub open spec fn occurrences(s: Seq<u8>, b: u8) -> nat
    decreases s.len(),
{
    if s.len() == 0 {
        0
    } else {
        occurrences(s.drop_last(), b) + if s.last() == b {
            1nat
        } else {
            0nat
        }
    }
}

/// The byte distribution of a buffer; the entropy itself, a floating-point
/// value, is computed from it by the caller.
pub struct EntropyApplet {}

impl EntropyApplet {
    pub fn new() -> (r: EntropyApplet) {
        EntropyApplet {}
    }

    /// For each byte value, how many times it occurs in `val`.
    pub fn counts(&self, val: &[u8]) -> (r: Vec<u64>)
        ensures
            r@.len() == 256,
            forall|b: int| 0 <= b < 256 ==> r@[b] == occurrences(val@, b as u8),
    {
        let mut counts: Vec<u64> = Vec::new();
        let mut k: usize = 0;
        while k < 256
            invariant
                k <= 256,
                counts@.len() == k,
                forall|b: int| 0 <= b < k ==> counts@[b] == 0,
            decreases 256 - k,
        {
            counts.push(0);
            k = k + 1;
        }
        let mut i: usize = 0;
        while i < val.len()
            invariant
                i <= val@.len(),
                counts@.len() == 256,
                forall|b: int| 0 <= b < 256 ==> counts@[b] == occurrences(val@.subrange(0, i as int), b as u8),
                forall|b: int| 0 <= b < 256 ==> counts@[b] <= i,
            decreases val@.len() - i,
        {
            let v = val[i] as usize;
            assert(val@.subrange(0, i + 1).drop_last() =~= val@.subrange(0, i as int));
            assert(val@.subrange(0, i + 1).last() == val@[i as int]);
            let c = counts[v];
            counts.set(v, c + 1);
            i = i + 1;
        }
        assert(val@.subrange(0, i as int) =~= val@);
        counts
    }
}

} // verus!
