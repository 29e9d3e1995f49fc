//! Conversion of arbitrarily large unsigned integers between radices.
use vstd::prelude::*;
use vstd::slice::slice_subrange;
use crate::pattern::digits;
use crate::trim::{trim_bytes, trim_spec};
use num_bigint::BigUint;

verus! {

/// The value of a digit byte (`a`/`A` is 10); 36 for any other byte.
pub open spec fn byte_digit(b: u8) -> nat {
    if 0x30u8 <= b <= 0x39u8 {
        (b - 0x30) as nat
    } else if 0x61u8 <= b <= 0x7au8 {
        (b - 0x61 + 10) as nat
    } else if 0x41u8 <= b <= 0x5au8 {
        (b - 0x41 + 10) as nat
    } else {
        36
    }
}

/// The digits part of a big number: one leading `+` is dropped unless
/// another `+` follows it.
pub open spec fn big_body(s: Seq<u8>) -> Seq<u8> {
    if s.len() > 0 && s[0] == 0x2bu8 && !(s.len() > 1 && s[1] == 0x2bu8) {
        s.drop_first()
    } else {
        s
    }
}

/// `s` is a big number in `radix`: after the sign, a digit first, then digits
/// and `_` separators.
pub open spec fn big_valid(s: Seq<u8>, radix: nat) -> bool {
    let b = big_body(s);
    &&& b.len() > 0
    &&& b[0] != 0x5fu8
    &&& forall|i: int| 0 <= i < b.len() ==> (#[trigger] b[i] == 0x5fu8 || byte_digit(b[i]) < radix)
}

/// The value of digits and `_` separators in `radix`, separators skipped.
pub open spec fn big_digits_value(b: Seq<u8>, radix: nat) -> nat
    decreases b.len(),
{
    if b.len() == 0 {
        0
    } else if b.last() == 0x5fu8 {
        big_digits_value(b.drop_last(), radix)
    } else {
        big_digits_value(b.drop_last(), radix) * radix + byte_digit(b.last())
    }
}

/// What converting the number `s` from radix `from` to radix `to` gives.
pub open spec fn converted(s: Seq<u8>, from: nat, to: nat) -> Option<Seq<u8>> {
    if big_valid(s, from) {
        Some(digits(big_digits_value(big_body(s), from), to))
    } else {
        None
    }
}

/// Relies on num_bigint's BigUint::parse_bytes (UTF-8, an optional `+`, digits
/// of the radix in either case with `_` separators after the first digit) and
/// BigUint::to_str_radix (lowercase digits, most significant first, `0` for
/// zero). The number exists only inside this call.
#[verifier::external_body]
fn big_convert(s: &[u8], from: u32, to: u32) -> (r: Option<Vec<u8>>)
    requires
        2 <= from <= 36,
        2 <= to <= 36,
    ensures
        r matches Some(v) ==> converted(s@, from as nat, to as nat) == Some(v@),
        r is None ==> converted(s@, from as nat, to as nat) is None,
{
    BigUint::parse_bytes(s, from).map(|n| n.to_str_radix(to).into_bytes())
}

/// The input is not a number in the source radix.
#[derive(Clone, Copy, Debug, PartialEq, Eq, Structural)]
pub enum BaseError {
    InvalidNumber,
}

/// Converts an integer between radices.
pub struct BaseIntApplet {
    pub source_radix: Option<u32>,
    pub target_radix: u32,
}

/// The source radix and digits of the trimmed input `t`: the given radix, or
/// a `0x` (16) or `0o` (8) prefix, or decimal.
pub open spec fn source_of(source_radix: Option<u32>, t: Seq<u8>) -> (nat, Seq<u8>) {
    match source_radix {
        Some(r) => (r as nat, t),
        None => if t.len() > 2 && t[0] == 0x30u8 && t[1] == 0x78u8 {
            (16, t.subrange(2, t.len() as int))
        } else if t.len() > 2 && t[0] == 0x30u8 && t[1] == 0x6fu8 {
            (8, t.subrange(2, t.len() as int))
        } else {
            (10, t)
        },
    }
}

impl BaseIntApplet {
    pub fn new() -> (r: BaseIntApplet)
        ensures
            r.source_radix is None,
            r.target_radix == 10,
    {
        BaseIntApplet { source_radix: None, target_radix: 10 }
    }

    pub open spec fn wf(self) -> bool {
        &&& 2 <= self.target_radix <= 36
        &&& (self.source_radix matches Some(r) ==> 2 <= r <= 36)
    }

    /// What [`BaseIntApplet::process`] returns (`None` for an error). A
    /// decimal number asked for in decimal is written in hex with `0x`.
    pub open spec fn process_spec(self, val: Seq<u8>) -> Option<Seq<u8>> {
        let (src, body) = source_of(self.source_radix, trim_spec(val));
        if src == 10 && self.target_radix == 10 {
            match converted(body, 10, 16) {
                Some(d) => Some(seq![0x30u8, 0x78u8] + d),
                None => None,
            }
        } else {
            converted(body, src, self.target_radix as nat)
        }
    }

    pub fn process(&self, val: Vec<u8>) -> (r: Result<Vec<u8>, BaseError>)
        requires
            self.wf(),
        ensures
            r matches Ok(v) ==> self.process_spec(val@) == Some(v@),
            r is Err ==> self.process_spec(val@) is None,
    {
        let t = trim_bytes(val.as_slice());
        let n = t.len();
        let (src, body) = match self.source_radix {
            Some(r) => (r, t.as_slice()),
            None => {
                if n > 2 && t[0] == 0x30u8 && t[1] == 0x78u8 {
                    (16u32, slice_subrange(t.as_slice(), 2, n))
                } else if n > 2 && t[0] == 0x30u8 && t[1] == 0x6fu8 {
                    (8u32, slice_subrange(t.as_slice(), 2, n))
                } else {
                    (10u32, t.as_slice())
                }
            },
        };
        if src == 10 && self.target_radix == 10 {
            match big_convert(body, 10, 16) {
                Some(d) => {
                    let mut out: Vec<u8> = Vec::new();
                    out.push(0x30u8);
                    out.push(0x78u8);
                    let mut i: usize = 0;
                    while i < d.len()
                        invariant
                            i <= d@.len(),
                            out@ == seq![0x30u8, 0x78u8] + d@.subrange(0, i as int),
                        decreases d@.len() - i,
                    {
                        out.push(d[i]);
                        i = i + 1;
                        assert(out@ =~= seq![0x30u8, 0x78u8] + d@.subrange(0, i as int));
                    }
                    assert(d@.subrange(0, i as int) =~= d@);
                    Ok(out)
                },
                None => Err(BaseError::InvalidNumber),
            }
        } else {
            match big_convert(body, src, self.target_radix) {
                Some(d) => Ok(d),
                None => Err(BaseError::InvalidNumber),
            }
        }
    }
}

} // verus!
