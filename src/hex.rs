//! Hexadecimal digits, the strict hex codec and the hex encoder.
use vstd::prelude::*;
use crate::error::{DecodeError, fail, res_view, success};

verus! {

/// `b` is an ASCII hex digit (`0-9`, `a-f`, `A-F`).
pub open spec fn is_hex(b: u8) -> bool {
    (0x30u8 <= b <= 0x39u8) || (0x61u8 <= b <= 0x66u8) || (0x41u8 <= b <= 0x46u8)
}

/// The value of a hex digit.
pub open spec fn hex_val(b: u8) -> int {
    if 0x30u8 <= b <= 0x39u8 {
        b - 0x30
    } else if 0x61u8 <= b <= 0x66u8 {
        b - 0x61 + 10
    } else {
        b - 0x41 + 10
    }
}

/// The lowercase hex digit for `n < 16`.
pub open spec fn hex_digit(n: int) -> u8 {
    if n < 10 {
        (0x30 + n) as u8
    } else {
        (0x61 + n - 10) as u8
    }
}

/// Index of the first byte of `s` that is not a hex digit (`s.len()` if none).
pub open spec fn first_non_hex(s: Seq<u8>) -> nat
    decreases s.len(),
{
    if s.len() == 0 || !is_hex(s[0]) {
        0
    } else {
        1 + first_non_hex(s.drop_first())
    }
}

/// The bytes denoted by an even-length run of hex digits, two digits per byte.
pub open spec fn hex_pairs(s: Seq<u8>) -> Seq<u8> {
    Seq::new(s.len() / 2, |i: int| (hex_val(s[2 * i]) * 16 + hex_val(s[2 * i + 1])) as u8)
}

/// Lowercase hex text of `b`: two digits per byte, high nibble first.
pub open spec fn hex_text(b: Seq<u8>) -> Seq<u8> {
    Seq::new(
        2 * b.len(),
        |i: int|
            if i % 2 == 0 {
                hex_digit(b[i / 2] as int / 16)
            } else {
                hex_digit(b[i / 2] as int % 16)
            },
    )
}

/// What the strict hex codec returns: the decoded pairs, or the first fault.
/// A bad digit is reported at the start of the pair that holds it.
pub open spec fn hex_strict(s: Seq<u8>) -> Result<Seq<u8>, DecodeError> {
    let f = first_non_hex(s);
    if s.len() % 2 != 0 {
        Err(DecodeError::InvalidLength)
    } else if f < s.len() {
        Err(DecodeError::InvalidSymbol { offset: (f - f % 2) as usize })
    } else {
        Ok(hex_pairs(s))
    }
}

pub proof fn lemma_first_non_hex(s: Seq<u8>)
    ensures
        first_non_hex(s) <= s.len(),
        forall|j: int| 0 <= j < first_non_hex(s) ==> is_hex(#[trigger] s[j]),
        first_non_hex(s) < s.len() ==> !is_hex(s[first_non_hex(s) as int]),
    decreases s.len(),
{
    if s.len() > 0 && is_hex(s[0]) {
        lemma_first_non_hex(s.drop_first());
        assert forall|j: int| 0 <= j < first_non_hex(s) implies is_hex(#[trigger] s[j]) by {
            if j > 0 {
                assert(s[j] == s.drop_first()[j - 1]);
            }
        }
    }
}

pub proof fn lemma_all_hex(s: Seq<u8>)
    requires
        forall|j: int| 0 <= j < s.len() ==> is_hex(#[trigger] s[j]),
    ensures
        first_non_hex(s) == s.len(),
    decreases s.len(),
{
    if s.len() > 0 {
        assert forall|j: int| 0 <= j < s.len() - 1 implies is_hex(#[trigger] s.drop_first()[j]) by {
            assert(s.drop_first()[j] == s[j + 1]);
        }
        lemma_all_hex(s.drop_first());
    }
}

pub fn is_hex_byte(b: u8) -> (r: bool)
    ensures
        r == is_hex(b),
{
    (0x30u8 <= b && b <= 0x39u8) || (0x61u8 <= b && b <= 0x66u8) || (0x41u8 <= b && b <= 0x46u8)
}

/// Relies on hex::decode: an odd length is refused first; otherwise the first
/// byte that is not a hex digit is reported by its index; otherwise each pair
/// of digits gives one byte, high nibble first.
#[verifier::external_body]
fn hex_decode_raw(s: &[u8]) -> (r: Result<Vec<u8>, DecodeError>)
    ensures
        s@.len() % 2 != 0 ==> res_view(r) == fail(DecodeError::InvalidLength),
        s@.len() % 2 == 0 && first_non_hex(s@) < s@.len() ==> res_view(r) == fail(
            DecodeError::InvalidSymbol { offset: first_non_hex(s@) as usize },
        ),
        s@.len() % 2 == 0 && first_non_hex(s@) == s@.len() ==> res_view(r) == success(hex_pairs(s@)),
{
    match hex::decode(s) {
        Ok(v) => Ok(v),
        Err(hex::FromHexError::InvalidHexCharacter { c: _, index }) => Err(DecodeError::InvalidSymbol { offset: index }),
        Err(hex::FromHexError::OddLength) => Err(DecodeError::InvalidLength),
        Err(hex::FromHexError::InvalidStringLength) => Err(DecodeError::InvalidLength),
    }
}

/// Strict hex decoding: every pair of bytes must be two hex digits.
pub fn hex_decode_strict(s: &[u8]) -> (r: Result<Vec<u8>, DecodeError>)
    ensures
        res_view(r) == hex_strict(s@),
{
    proof {
        lemma_first_non_hex(s@);
    }
    // The length, read here, fits in a usize; so does any offset below it.
    let _len: usize = s.len();
    let r = hex_decode_raw(s);
    match r {
        Ok(v) => Ok(v),
        Err(DecodeError::InvalidSymbol { offset }) => {
            Err(DecodeError::InvalidSymbol { offset: offset - offset % 2 })
        },
        Err(e) => Err(e),
    }
}

/// Relies on hex::encode: two lowercase digits per byte, high nibble first.
#[verifier::external_body]
fn hex_encode_raw(b: &[u8]) -> (r: Vec<u8>)
    ensures
        r@ == hex_text(b@),
{
    hex::encode(b).into_bytes()
}

/// Lowercase hex encoding.
pub fn hex_encode(b: &[u8]) -> (r: Vec<u8>)
    ensures
        r@ == hex_text(b@),
{
    hex_encode_raw(b)
}

} // verus!
