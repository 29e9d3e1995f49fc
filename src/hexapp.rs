//! The hex encoder and the hex decoder with its three policies.
use vstd::prelude::*;
use crate::error::{DecodeError, DecodeMode, res_view, success};
use crate::hex::{first_non_hex, hex_digit, hex_encode, hex_pairs, hex_text, hex_val, is_hex, lemma_all_hex, lemma_first_non_hex};
use crate::recover::{Codec, decode, decode_spec, lenient_spec, strict_spec};
use crate::scan::{hex_all, hex_decode_all};
use crate::trim::{lead_ws, lemma_trim_len, lemma_trim_noop, trim_bytes, trim_spec};

verus! {

/// `s` with every space byte (0x20) removed.
pub open spec fn without_spaces(s: Seq<u8>) -> Seq<u8>
    decreases s.len(),
{
    if s.len() == 0 {
        s
    } else if s.last() == 0x20u8 {
        without_spaces(s.drop_last())
    } else {
        without_spaces(s.drop_last()).push(s.last())
    }
}

/// A copy of `s` without its space bytes.
pub fn remove_spaces(s: &[u8]) -> (r: Vec<u8>)
    ensures
        r@ == without_spaces(s@),
{
    let mut out: Vec<u8> = Vec::new();
    let mut i: usize = 0;
    while i < s.len()
        invariant
            i <= s@.len(),
            out@ == without_spaces(s@.subrange(0, i as int)),
        decreases s@.len() - i,
    {
        assert(s@.subrange(0, i + 1).drop_last() =~= s@.subrange(0, i as int));
        if s[i] != 0x20u8 {
            out.push(s[i]);
        }
        i = i + 1;
    }
    assert(s@.subrange(0, i as int) =~= s@);
    out
}

/// Hex encoding of the input.
pub struct HexApplet {}

impl HexApplet {
    pub fn new() -> (r: HexApplet) {
        HexApplet {}
    }

    /// Two lowercase hex digits for each input byte.
    pub fn process(&self, val: Vec<u8>) -> (r: Vec<u8>)
        ensures
            r@ == hex_text(val@),
    {
        hex_encode(val.as_slice())
    }
}

/// Hex decoding. With `hexonly` the input must be hex (spaces allowed unless
/// `strict`), decoded by the recoverable decoder; without it every hex pair
/// anywhere in the input is decoded.
pub struct UnHexApplet {
    pub hexonly: bool,
    pub strict: bool,
}

impl UnHexApplet {
    pub fn new() -> (r: UnHexApplet)
        ensures
            !r.hexonly && !r.strict,
    {
        UnHexApplet { hexonly: false, strict: false }
    }

    /// What [`UnHexApplet::process`] returns.
    pub open spec fn process_spec(self, val: Seq<u8>) -> Result<Seq<u8>, DecodeError> {
        if self.hexonly {
            if self.strict {
                strict_spec(Codec::Hex, val)
            } else {
                lenient_spec(Codec::Hex, without_spaces(trim_spec(val)))
            }
        } else {
            success(hex_all(val))
        }
    }

    /// Hex-only decoding: strict, or lenient after dropping spaces.
    pub fn hex_decode_hexonly(&self, val: Vec<u8>) -> (r: Result<Vec<u8>, DecodeError>)
        ensures
            self.strict ==> res_view(r) == strict_spec(Codec::Hex, val@),
            !self.strict ==> res_view(r) == lenient_spec(Codec::Hex, without_spaces(trim_spec(val@))),
            !self.strict ==> r is Ok,
    {
        if self.strict {
            decode(&Codec::Hex, val.as_slice(), DecodeMode::Strict)
        } else {
            let trimmed = trim_bytes(val.as_slice());
            let packed = remove_spaces(trimmed.as_slice());
            decode(&Codec::Hex, packed.as_slice(), DecodeMode::Lenient)
        }
    }

    /// Decodes `val`; fails only in strict hex-only mode.
    pub fn process(&self, val: Vec<u8>) -> (r: Result<Vec<u8>, DecodeError>)
        ensures
            res_view(r) == self.process_spec(val@),
            !(self.hexonly && self.strict) ==> r is Ok,
    {
        if self.hexonly {
            self.hex_decode_hexonly(val)
        } else {
            Ok(hex_decode_all(val.as_slice()))
        }
    }
}

proof fn lemma_hex_digit(n: int)
    requires
        0 <= n < 16,
    ensures
        is_hex(hex_digit(n)),
        hex_val(hex_digit(n)) == n,
{
}

proof fn lemma_hex_text_digits(b: Seq<u8>)
    ensures
        forall|i: int| 0 <= i < hex_text(b).len() ==> is_hex(#[trigger] hex_text(b)[i]),
{
    assert forall|i: int| 0 <= i < hex_text(b).len() implies is_hex(#[trigger] hex_text(b)[i]) by {
        lemma_hex_digit(b[i / 2] as int / 16);
        lemma_hex_digit(b[i / 2] as int % 16);
    }
}

/// Strict hex decoding undoes hex encoding: for every byte buffer `b`,
/// decoding the hex text of `b` in strict mode succeeds and gives back `b`.
pub proof fn lemma_hex_round_trip(b: Seq<u8>)
    ensures
        decode_spec(Codec::Hex, hex_text(b), DecodeMode::Strict) == success(b),
{
    let t = hex_text(b);
    lemma_hex_text_digits(b);
    lemma_all_hex(t);
    if t.len() > 0 {
        assert(is_hex(t[0]) && is_hex(t.last()));
    }
    lemma_trim_noop(t);
    assert forall|i: int| 0 <= i < b.len() implies #[trigger] hex_pairs(t)[i] == b[i] by {
        lemma_hex_digit(b[i] as int / 16);
        lemma_hex_digit(b[i] as int % 16);
        assert(t[2 * i] == hex_digit(b[i] as int / 16));
        assert(t[2 * i + 1] == hex_digit(b[i] as int % 16));
    }
    assert(hex_pairs(t) =~= b);
}

/// Lenient hex decoding never fails: for every byte buffer `e` (of a length
/// that fits in memory), the lenient decode returns bytes, never an error.
pub proof fn lemma_hex_lenient_total(e: Seq<u8>)
    requires
        e.len() <= usize::MAX,
    ensures
        lenient_spec(Codec::Hex, e) is Ok,
    decreases e.len(),
{
    let t = trim_spec(e);
    let a = lead_ws(e);
    lemma_trim_len(e);
    lemma_first_non_hex(t);
    if t.len() % 2 != 0 {
        let k = t.len() - t.len() % 2;
        let h = t.subrange(0, k as int);
        lemma_first_non_hex(h);
        let f = first_non_hex(h);
        if f < h.len() {
            lemma_hex_lenient_total(h.subrange(0, f - f % 2));
        }
    } else {
        let f = first_non_hex(t);
        if f < t.len() {
            let p = a + (f - f % 2);
            lemma_hex_lenient_total(e.subrange(0, p as int));
        }
    }
}

/// The hex scanner undoes hex encoding: for every byte buffer `b`, scanning
/// the hex text of `b` decodes every pair and gives back `b`.
pub proof fn lemma_scan_round_trip(b: Seq<u8>)
    ensures
        hex_all(hex_text(b)) == b,
    decreases b.len(),
{
    let t = hex_text(b);
    if b.len() > 0 {
        lemma_hex_digit(b[0] as int / 16);
        lemma_hex_digit(b[0] as int % 16);
        assert(t.subrange(2, t.len() as int) =~= hex_text(b.drop_first()));
        lemma_scan_round_trip(b.drop_first());
        assert(seq![b[0]] + b.drop_first() =~= b);
    } else {
        assert(t =~= b);
    }
}

} // verus!
