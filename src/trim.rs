//! Stripping ASCII whitespace from both ends of a byte buffer.
use vstd::prelude::*;

verus! {

/// The whitespace bytes that are trimmed: space, tab, carriage return, line feed.
pub open spec fn is_ws(b: u8) -> bool {
    b == 0x20u8 || b == 0x09u8 || b == 0x0du8 || b == 0x0au8
}

/// Number of whitespace bytes at the start of `s`.
pub open spec fn lead_ws(s: Seq<u8>) -> nat
    decreases s.len(),
{
    if s.len() == 0 || !is_ws(s[0]) {
        0
    } else {
        1 + lead_ws(s.drop_first())
    }
}

/// Length of `s` once whitespace bytes at its end are dropped.
pub open spec fn trail_end(s: Seq<u8>) -> nat
    decreases s.len(),
{
    if s.len() == 0 || !is_ws(s.last()) {
        s.len()
    } else {
        trail_end(s.drop_last())
    }
}

/// `s` without its leading and trailing whitespace.
pub open spec fn trim_spec(s: Seq<u8>) -> Seq<u8> {
    let a = lead_ws(s);
    if a == s.len() {
        Seq::empty()
    } else {
        s.subrange(a as int, trail_end(s) as int)
    }
}

proof fn lemma_lead_le(s: Seq<u8>)
    ensures
        lead_ws(s) <= s.len(),
        lead_ws(s) < s.len() ==> !is_ws(s[lead_ws(s) as int]),
    decreases s.len(),
{
    if s.len() > 0 && is_ws(s[0]) {
        lemma_lead_le(s.drop_first());
    }
}

proof fn lemma_trail_le(s: Seq<u8>, i: int)
    requires
        0 <= i < s.len(),
        !is_ws(s[i]),
    ensures
        i < trail_end(s) <= s.len(),
    decreases s.len(),
{
    if is_ws(s.last()) {
        lemma_trail_le(s.drop_last(), i);
    }
}

proof fn lemma_trail_last(s: Seq<u8>)
    ensures
        trail_end(s) > 0 ==> !is_ws(s[trail_end(s) - 1]),
        trail_end(s) <= s.len(),
    decreases s.len(),
{
    if s.len() > 0 && is_ws(s.last()) {
        lemma_trail_last(s.drop_last());
    }
}

/// The trimmed buffer starts after the leading whitespace and fits in `s`.
pub proof fn lemma_trim_len(s: Seq<u8>)
    ensures
        lead_ws(s) + trim_spec(s).len() <= s.len(),
{
    lemma_lead_le(s);
    if lead_ws(s) < s.len() {
        lemma_trail_le(s, lead_ws(s) as int);
    }
}

/// A buffer that neither starts nor ends with whitespace is its own trim.
pub proof fn lemma_trim_noop(s: Seq<u8>)
    requires
        s.len() == 0 || (!is_ws(s[0]) && !is_ws(s.last())),
    ensures
        lead_ws(s) == 0,
        trim_spec(s) == s,
{
    assert(s.subrange(0, s.len() as int) =~= s);
}

pub fn is_ws_byte(b: u8) -> (r: bool)
    ensures
        r == is_ws(b),
{
    b == 0x20u8 || b == 0x09u8 || b == 0x0du8 || b == 0x0au8
}

proof fn lemma_lead_ws(s: Seq<u8>, i: int)
    requires
        0 <= i <= s.len(),
        forall|j: int| 0 <= j < i ==> is_ws(#[trigger] s[j]),
        i == s.len() || !is_ws(s[i]),
    ensures
        lead_ws(s) == i,
    decreases s.len(),
{
    if i > 0 {
        assert forall|j: int| 0 <= j < i - 1 implies is_ws(#[trigger] s.drop_first()[j]) by {
            assert(s.drop_first()[j] == s[j + 1]);
        }
        lemma_lead_ws(s.drop_first(), i - 1);
    }
}

proof fn lemma_trail_end(s: Seq<u8>, i: int)
    requires
        0 <= i <= s.len(),
        forall|j: int| i <= j < s.len() ==> is_ws(#[trigger] s[j]),
        i == 0 || !is_ws(s[i - 1]),
    ensures
        trail_end(s) == i,
    decreases s.len(),
{
    if i < s.len() {
        assert forall|j: int| i <= j < s.len() - 1 implies is_ws(#[trigger] s.drop_last()[j]) by {
            assert(s.drop_last()[j] == s[j]);
        }
        lemma_trail_end(s.drop_last(), i);
    }
}

/// Bounds `(a, b)` such that `s[a..b]` is `s` with its surrounding whitespace removed.
pub fn trim_bounds(s: &[u8]) -> (r: (usize, usize))
    ensures
        r.0 == lead_ws(s@),
        r.0 <= r.1 <= s@.len(),
        s@.subrange(r.0 as int, r.1 as int) == trim_spec(s@),
{
    let n = s.len();
    let mut a: usize = 0;
    while a < n && is_ws_byte(s[a])
        invariant
            a <= n,
            n == s@.len(),
            forall|j: int| 0 <= j < a ==> is_ws(#[trigger] s@[j]),
        decreases n - a,
    {
        a = a + 1;
    }
    proof {
        lemma_lead_ws(s@, a as int);
    }
    if a == n {
        return (a, a);
    }
    let mut b: usize = n;
    while b > a && is_ws_byte(s[b - 1])
        invariant
            a < n,
            a <= b <= n,
            n == s@.len(),
            !is_ws(s@[a as int]),
            forall|j: int| b <= j < n ==> is_ws(#[trigger] s@[j]),
        decreases b,
    {
        b = b - 1;
    }
    proof {
        lemma_trail_end(s@, b as int);
    }
    (a, b)
}

/// Trimming for byte slices.
pub trait SliceExt {
    /// `r` is `s` without its surrounding whitespace.
    spec fn is_trim_of(s: &Self, r: &Self) -> bool;

    fn trim(&self) -> (r: &Self)
        ensures
            Self::is_trim_of(self, r),
    ;
}

impl SliceExt for [u8] {
    open spec fn is_trim_of(s: &[u8], r: &[u8]) -> bool {
        r@ == trim_spec(s@)
    }

    /// The part of the slice between its leading and trailing whitespace.
    fn trim(&self) -> (r: &[u8]) {
        trim_slice(self)
    }
}

/// Trimming twice changes nothing: for every byte buffer `s`, the trim of the
/// trim of `s` is the trim of `s`.
pub proof fn lemma_trim_idempotent(s: Seq<u8>)
    ensures
        trim_spec(trim_spec(s)) == trim_spec(s),
{
    let t = trim_spec(s);
    lemma_lead_le(s);
    if lead_ws(s) < s.len() {
        lemma_trail_le(s, lead_ws(s) as int);
        let a = lead_ws(s) as int;
        let b = trail_end(s) as int;
        assert(t[0] == s[a]);
        lemma_trail_last(s);
        assert(t.last() == s[b - 1]);
    }
    lemma_trim_noop(t);
}

/// The part of `s` between its leading and trailing whitespace.
pub fn trim_slice(s: &[u8]) -> (r: &[u8])
    ensures
        r@ == trim_spec(s@),
{
    let (a, b) = trim_bounds(s);
    vstd::slice::slice_subrange(s, a, b)
}

/// A copy of `s` without its leading and trailing whitespace.
pub fn trim_bytes(s: &[u8]) -> (r: Vec<u8>)
    ensures
        r@ == trim_spec(s@),
{
    let (a, b) = trim_bounds(s);
    copy_range(s, a, b)
}

/// A copy of `s[a..b]`.
pub fn copy_range(s: &[u8], a: usize, b: usize) -> (r: Vec<u8>)
    requires
        a <= b <= s@.len(),
    ensures
        r@ == s@.subrange(a as int, b as int),
{
    let mut r: Vec<u8> = Vec::with_capacity(b - a);
    let mut i: usize = a;
    while i < b
        invariant
            a <= i <= b <= s@.len(),
            r@ == s@.subrange(a as int, i as int),
        decreases b - i,
    {
        r.push(s[i]);
        i = i + 1;
    }
    r
}

} // verus!
