//! The recoverable decoder: strict decoding with alignment and symbol
//! recovery, parameterized by a codec.
use vstd::prelude::*;
use vstd::slice::slice_subrange;
use crate::b64::{Alphabet, b64_decode_strict, b64_decoded};
use crate::error::{DecodeError, DecodeMode, append_ok, fail, res_view};
use crate::hex::{hex_decode_strict, hex_strict};
use crate::trim::{lead_ws, lemma_trim_len, trim_bounds, trim_spec};

verus! {

/// A strict codec with its unit size.
pub enum Codec<'a> {
    /// Two hex digits per byte.
    Hex,
    /// Four base64 symbols per three bytes, over the given alphabet.
    Base64(&'a Alphabet),
}

impl<'a> Codec<'a> {
    /// The number of input bytes in one unit.
    pub open spec fn align(self) -> nat {
        match self {
            Codec::Hex => 2,
            Codec::Base64(_) => 4,
        }
    }

    /// What the strict codec returns on `s`, offsets relative to `s`.
    pub open spec fn strict_spec(self, s: Seq<u8>) -> Result<Seq<u8>, DecodeError> {
        match self {
            Codec::Hex => hex_strict(s),
            Codec::Base64(a) => padding_fault(s, b64_decoded(a.symbols(), s)),
        }
    }

    pub open spec fn is_hex(self) -> bool {
        self matches Codec::Hex
    }

    pub fn alignment(&self) -> (r: usize)
        ensures
            r == self.align(),
            r >= 2,
    {
        match self {
            Codec::Hex => 2,
            Codec::Base64(_) => 4,
        }
    }

    /// Runs the strict codec on an already trimmed buffer.
    pub fn strict_decode(&self, s: &[u8]) -> (r: Result<Vec<u8>, DecodeError>)
        ensures
            res_view(r) == self.strict_spec(s@),
            r is Err && r->Err_0 is InvalidSymbol ==> r->Err_0->offset < s@.len(),
            s@.len() % self.align() == 0 ==> r is Ok || r->Err_0 is InvalidSymbol || r->Err_0 is InvalidPadding,
            s@.len() % self.align() == 0 && self.is_hex() ==> r is Ok || r->Err_0 is InvalidSymbol,
    {
        match self {
            Codec::Hex => {
                proof {
                    crate::hex::lemma_first_non_hex(s@);
                }
                hex_decode_strict(s)
            },
            Codec::Base64(a) => match b64_decode_strict(a, s) {
                Err(DecodeError::InvalidSymbol { offset }) => {
                    if s[offset] == 0x3du8 {
                        Err(DecodeError::InvalidPadding)
                    } else {
                        Err(DecodeError::InvalidSymbol { offset })
                    }
                },
                r => r,
            },
        }
    }
}

/// A base64 fault reported at a padding byte `=` is misplaced padding: the
/// codec accepts `=` only as a trailing run.
pub open spec fn padding_fault(s: Seq<u8>, r: Result<Seq<u8>, DecodeError>) -> Result<Seq<u8>, DecodeError> {
    match r {
        Err(DecodeError::InvalidSymbol { offset }) => if offset < s.len() && s[offset as int] == 0x3du8 {
            fail(DecodeError::InvalidPadding)
        } else {
            r
        },
        _ => r,
    }
}

/// Strict decoding of a whole input: trim, check the alignment, decode.
/// Offsets are reported against the untrimmed input.
pub open spec fn strict_spec(c: Codec, e: Seq<u8>) -> Result<Seq<u8>, DecodeError> {
    let t = trim_spec(e);
    if t.len() % c.align() != 0 {
        fail(DecodeError::InvalidLength)
    } else {
        match c.strict_spec(t) {
            Err(DecodeError::InvalidSymbol { offset }) => fail(
                DecodeError::InvalidSymbol { offset: (lead_ws(e) + offset) as usize },
            ),
            r => r,
        }
    }
}

/// Lenient decoding of `e`, the recoverable decoder.
/// 1. `e` is trimmed to `t`.
/// 2. If `t` is not a whole number of units, its head of whole units goes
///    straight to the strict codec, untrimmed, and its last partial unit is
///    copied. A symbol fault in the head decodes the part before the fault
///    afresh and copies the rest of the head.
/// 3. Otherwise a symbol fault splits the untrimmed `e` at the fault: the part
///    before it is decoded afresh, the rest is copied verbatim and never looked
///    at again.
/// Any other fault (misplaced base64 padding) is fatal. An offset past the
/// end, which no codec reports, is passed on as a failure.
pub open spec fn lenient_spec(c: Codec, e: Seq<u8>) -> Result<Seq<u8>, DecodeError>
    decreases e.len(),
    via lenient_decreases
{
    let a = lead_ws(e);
    let t = trim_spec(e);
    let k = t.len() - t.len() % c.align();
    if t.len() % c.align() != 0 {
        let h = t.subrange(0, k as int);
        let rest = t.subrange(k as int, t.len() as int);
        match c.strict_spec(h) {
            Err(DecodeError::InvalidSymbol { offset }) => if offset < h.len() {
                append_ok(
                    lenient_spec(c, h.subrange(0, offset as int)),
                    h.subrange(offset as int, h.len() as int) + rest,
                )
            } else {
                fail(DecodeError::InvalidSymbol { offset: (a + offset) as usize })
            },
            r => append_ok(r, rest),
        }
    } else {
        match c.strict_spec(t) {
            Err(DecodeError::InvalidSymbol { offset }) => {
                let p = a + offset;
                if offset < t.len() {
                    append_ok(lenient_spec(c, e.subrange(0, p)), e.subrange(p, e.len() as int))
                } else {
                    fail(DecodeError::InvalidSymbol { offset: p as usize })
                }
            },
            r => r,
        }
    }
}

#[via_fn]
proof fn lenient_decreases(c: Codec, e: Seq<u8>) {
    lemma_trim_len(e);
}

/// Decoding under either policy.
pub open spec fn decode_spec(c: Codec, e: Seq<u8>, mode: DecodeMode) -> Result<Seq<u8>, DecodeError> {
    match mode {
        DecodeMode::Strict => strict_spec(c, e),
        DecodeMode::Lenient => lenient_spec(c, e),
    }
}

/// Where strict decoding succeeds, lenient decoding gives the same bytes: for
/// every codec and every input on which the strict decode returns `d`, the
/// lenient decode returns `d` too.
pub proof fn lemma_lenient_agrees_with_strict(c: Codec, e: Seq<u8>)
    requires
        strict_spec(c, e) is Ok,
    ensures
        lenient_spec(c, e) == strict_spec(c, e),
{
}

/// The copied ranges of `e`, last pushed first.
pub open spec fn concat_rev(e: Seq<u8>, ts: Seq<(usize, usize)>) -> Seq<u8>
    decreases ts.len(),
{
    if ts.len() == 0 {
        Seq::empty()
    } else {
        e.subrange(ts.last().0 as int, ts.last().1 as int) + concat_rev(e, ts.drop_last())
    }
}

proof fn lemma_push_tail(e: Seq<u8>, ts: Seq<(usize, usize)>, x: usize, y: usize)
    ensures
        concat_rev(e, ts.push((x, y))) == e.subrange(x as int, y as int) + concat_rev(e, ts),
{
    assert(ts.push((x, y)).drop_last() =~= ts);
}

proof fn lemma_append_ok(r: Result<Seq<u8>, DecodeError>, x: Seq<u8>, y: Seq<u8>)
    ensures
        append_ok(append_ok(r, x), y) == append_ok(r, x + y),
{
    if let Ok(d) = r {
        assert(d + x + y =~= d + (x + y));
    }
}

/// Appends `e[x..y]` to `out`.
fn append_range(out: &mut Vec<u8>, e: &[u8], x: usize, y: usize)
    requires
        x <= y <= e@.len(),
    ensures
        final(out)@ == old(out)@ + e@.subrange(x as int, y as int),
{
    let mut i: usize = x;
    while i < y
        invariant
            x <= i <= y <= e@.len(),
            out@ == old(out)@ + e@.subrange(x as int, i as int),
        decreases y - i,
    {
        out.push(e[i]);
        i = i + 1;
        assert(out@ =~= old(out)@ + e@.subrange(x as int, i as int));
    }
}

/// What one round of lenient decoding did: finished, or left a shorter
/// range `e[s..n]` to decode.
enum Step {
    Done(Result<Vec<u8>, DecodeError>),
    Next(usize, usize),
}

/// The tail ranges are inside `e`.
spec fn ranges_ok(e: Seq<u8>, ts: Seq<(usize, usize)>) -> bool {
    forall|i: int| 0 <= i < ts.len() ==> (#[trigger] ts[i]).0 <= ts[i].1 <= e.len()
}

/// What a round owes: a finished result, or a shorter range whose decode,
/// followed by the new suffix, is the decode of the old range followed by the
/// old suffix.
spec fn step_ok(
    c: Codec,
    e: Seq<u8>,
    s: usize,
    n: usize,
    suffix: Seq<u8>,
    r: Step,
    new_suffix: Seq<u8>,
    new_tails: Seq<(usize, usize)>,
) -> bool {
    match r {
        Step::Done(res) => {
            &&& res_view(res) == append_ok(lenient_spec(c, e.subrange(s as int, n as int)), suffix)
            &&& (res is Err ==> res->Err_0 is InvalidPadding)
            &&& (c.is_hex() ==> res is Ok)
        },
        Step::Next(s2, n2) => {
            &&& s <= s2 <= n2 < n || s <= s2 <= n2 <= n && n2 - s2 < n - s
            &&& append_ok(lenient_spec(c, e.subrange(s as int, n as int)), suffix) == append_ok(
                lenient_spec(c, e.subrange(s2 as int, n2 as int)),
                new_suffix,
            )
            &&& new_suffix == concat_rev(e, new_tails)
            &&& ranges_ok(e, new_tails)
        },
    }
}

/// A round on a range whose trimmed length `b - a` is not a whole number of units.
#[verifier::rlimit(40)]
fn step_unaligned(
    c: &Codec,
    e: &[u8],
    s: usize,
    n: usize,
    a: usize,
    b: usize,
    tails: &mut Vec<(usize, usize)>,
    suffix: Ghost<Seq<u8>>,
) -> (r: (Step, Ghost<Seq<u8>>))
    requires
        s <= n <= e@.len(),
        a <= b <= n - s,
        a == lead_ws(e@.subrange(s as int, n as int)),
        e@.subrange((s + a) as int, (s + b) as int) == trim_spec(e@.subrange(s as int, n as int)),
        (b - a) % (c.align() as int) != 0,
        suffix@ == concat_rev(e@, old(tails)@),
        ranges_ok(e@, old(tails)@),
    ensures
        step_ok(*c, e@, s, n, suffix@, r.0, r.1@, final(tails)@),
{
    let ghost cur = e@.subrange(s as int, n as int);
    let ghost t = trim_spec(cur);
    let tl = b - a;
    let k = tl - tl % c.alignment();
    let x0: usize = s + a + k;
    let y0: usize = s + b;
    let h = slice_subrange(e, s + a, x0);
    let ghost rest = t.subrange(k as int, t.len() as int);
    let ghost old_tails = tails@;
    proof {
        assert(h@ =~= t.subrange(0, k as int));
        assert(rest =~= e@.subrange(x0 as int, y0 as int));
        lemma_push_tail(e@, old_tails, x0, y0);
    }
    tails.push((x0, y0));
    match c.strict_decode(h) {
        Ok(d) => {
            proof {
                lemma_append_ok(Ok(d@), rest, suffix@);
            }
            let ghost ns = rest + suffix@;
            (Step::Done(Ok(assemble(d, e, tails, Ghost(ns)))), Ghost(ns))
        },
        Err(DecodeError::InvalidSymbol { offset }) => {
            let m: usize = s + a + offset;
            let ghost hv = h@;
            proof {
                assert(hv.subrange(0, offset as int) =~= e@.subrange((s + a) as int, m as int));
                assert(hv.subrange(offset as int, hv.len() as int) =~= e@.subrange(m as int, x0 as int));
                lemma_append_ok(
                    lenient_spec(*c, hv.subrange(0, offset as int)),
                    hv.subrange(offset as int, hv.len() as int) + rest,
                    suffix@,
                );
                lemma_push_tail(e@, old_tails.push((x0, y0)), m, x0);
                assert(hv.subrange(offset as int, hv.len() as int) + rest + suffix@ =~= e@.subrange(
                    m as int,
                    x0 as int,
                ) + (e@.subrange(x0 as int, y0 as int) + suffix@));
            }
            tails.push((m, x0));
            let ghost ns = e@.subrange(m as int, x0 as int) + (e@.subrange(x0 as int, y0 as int) + suffix@);
            (Step::Next(s + a, m), Ghost(ns))
        },
        Err(x) => (Step::Done(Err(x)), suffix),
    }
}

/// A round on a range whose trimmed length `b - a` is a whole number of units.
#[verifier::rlimit(40)]
fn step_aligned(
    c: &Codec,
    e: &[u8],
    s: usize,
    n: usize,
    a: usize,
    b: usize,
    tails: &mut Vec<(usize, usize)>,
    suffix: Ghost<Seq<u8>>,
) -> (r: (Step, Ghost<Seq<u8>>))
    requires
        s <= n <= e@.len(),
        a <= b <= n - s,
        a == lead_ws(e@.subrange(s as int, n as int)),
        e@.subrange((s + a) as int, (s + b) as int) == trim_spec(e@.subrange(s as int, n as int)),
        (b - a) % (c.align() as int) == 0,
        suffix@ == concat_rev(e@, old(tails)@),
        ranges_ok(e@, old(tails)@),
    ensures
        step_ok(*c, e@, s, n, suffix@, r.0, r.1@, final(tails)@),
{
    let ghost cur = e@.subrange(s as int, n as int);
    let t = slice_subrange(e, s + a, s + b);
    match c.strict_decode(t) {
        Ok(d) => {
            proof {
                assert(append_ok(Ok(d@), suffix@) == Ok::<Seq<u8>, DecodeError>(d@ + suffix@));
            }
            (Step::Done(Ok(assemble(d, e, tails, suffix))), suffix)
        },
        Err(DecodeError::InvalidSymbol { offset }) => {
            let x0: usize = s + a + offset;
            let p: usize = a + offset;
            proof {
                assert(cur.subrange(0, p as int) =~= e@.subrange(s as int, x0 as int));
                assert(cur.subrange(p as int, cur.len() as int) =~= e@.subrange(x0 as int, n as int));
                lemma_append_ok(
                    lenient_spec(*c, cur.subrange(0, p as int)),
                    cur.subrange(p as int, cur.len() as int),
                    suffix@,
                );
                lemma_push_tail(e@, tails@, x0, n);
            }
            tails.push((x0, n));
            let ghost ns = e@.subrange(x0 as int, n as int) + suffix@;
            (Step::Next(s, x0), Ghost(ns))
        },
        Err(x) => (Step::Done(Err(x)), suffix),
    }
}

/// Lenient decoding; fails only on misplaced base64 padding.
pub fn decode_lenient(c: &Codec, e: &[u8]) -> (r: Result<Vec<u8>, DecodeError>)
    ensures
        res_view(r) == lenient_spec(*c, e@),
        r is Err ==> r->Err_0 is InvalidPadding,
        c.is_hex() ==> r is Ok,
{
    let mut s: usize = 0;
    let mut n: usize = e.len();
    let mut tails: Vec<(usize, usize)> = Vec::new();
    let mut suffix: Ghost<Seq<u8>> = Ghost(Seq::empty());
    assert(e@.subrange(0, e@.len() as int) =~= e@);
    assert(append_ok(lenient_spec(*c, e@), suffix@) == lenient_spec(*c, e@)) by {
        if let Ok(d) = lenient_spec(*c, e@) {
            assert(d + suffix@ =~= d);
        }
    }
    loop
        invariant
            s <= n <= e@.len(),
            lenient_spec(*c, e@) == append_ok(lenient_spec(*c, e@.subrange(s as int, n as int)), suffix@),
            suffix@ == concat_rev(e@, tails@),
            ranges_ok(e@, tails@),
        decreases n - s,
    {
        let cur = slice_subrange(e, s, n);
        let (a, b) = trim_bounds(cur);
        assert(cur@.subrange(a as int, b as int) =~= e@.subrange((s + a) as int, (s + b) as int));
        let (st, ns) = if (b - a) % c.alignment() != 0 {
            step_unaligned(c, e, s, n, a, b, &mut tails, suffix)
        } else {
            step_aligned(c, e, s, n, a, b, &mut tails, suffix)
        };
        match st {
            Step::Done(res) => {
                return res;
            },
            Step::Next(s2, n2) => {
                s = s2;
                n = n2;
                suffix = ns;
            },
        }
    }
}

/// `d` followed by the copied ranges, last pushed first.
fn assemble(d: Vec<u8>, e: &[u8], tails: &Vec<(usize, usize)>, suffix: Ghost<Seq<u8>>) -> (r: Vec<u8>)
    requires
        suffix@ == concat_rev(e@, tails@),
        ranges_ok(e@, tails@),
    ensures
        r@ == d@ + suffix@,
{
    let mut out = d;
    let mut i: usize = tails.len();
    assert(tails@.subrange(0, i as int) =~= tails@);
    assert(out@ + concat_rev(e@, tails@.subrange(0, i as int)) =~= d@ + suffix@);
    while i > 0
        invariant
            i <= tails@.len(),
            out@ + concat_rev(e@, tails@.subrange(0, i as int)) == d@ + suffix@,
            forall|j: int| 0 <= j < tails@.len() ==> (#[trigger] tails@[j]).0 <= tails@[j].1 <= e@.len(),
        decreases i,
    {
        let (x, y) = tails[i - 1];
        proof {
            let ts = tails@.subrange(0, i as int);
            assert(ts.drop_last() =~= tails@.subrange(0, i - 1));
            assert(ts.last() == tails@[i - 1]);
        }
        let ghost prev = out@;
        append_range(&mut out, e, x, y);
        i = i - 1;
        proof {
            let rest = concat_rev(e@, tails@.subrange(0, i as int));
            assert(prev + e@.subrange(x as int, y as int) + rest =~= prev + (e@.subrange(x as int, y as int) + rest));
        }
    }
    assert(out@ + concat_rev(e@, tails@.subrange(0, 0)) =~= out@);
    out
}

/// Strict decoding of a whole input.
pub fn decode_strict(c: &Codec, e: &[u8]) -> (r: Result<Vec<u8>, DecodeError>)
    ensures
        res_view(r) == strict_spec(*c, e@),
{
    let (a, b) = trim_bounds(e);
    if (b - a) % c.alignment() != 0 {
        return Err(DecodeError::InvalidLength);
    }
    let t = slice_subrange(e, a, b);
    match c.strict_decode(t) {
        Ok(d) => Ok(d),
        Err(DecodeError::InvalidSymbol { offset }) => Err(DecodeError::InvalidSymbol { offset: a + offset }),
        Err(x) => Err(x),
    }
}

/// Decoding under `mode`. Lenient decoding fails only on misplaced base64
/// padding, and lenient hex decoding never fails.
pub fn decode(c: &Codec, e: &[u8], mode: DecodeMode) -> (r: Result<Vec<u8>, DecodeError>)
    ensures
        res_view(r) == decode_spec(*c, e@, mode),
        mode == DecodeMode::Lenient && r is Err ==> r->Err_0 is InvalidPadding,
        mode == DecodeMode::Lenient && c.is_hex() ==> r is Ok,
{
    match mode {
        DecodeMode::Strict => decode_strict(c, e),
        DecodeMode::Lenient => decode_lenient(c, e),
    }
}

} // verus!
