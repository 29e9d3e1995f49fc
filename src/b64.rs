//! Base64 alphabets and the strict base64 codec.
use vstd::prelude::*;
use crate::error::{DecodeError, res_view, success};
use base64::alphabet::{Alphabet as Symbols, STANDARD, URL_SAFE};
use base64::engine::{GeneralPurpose, GeneralPurposeConfig};
use base64::DecodeError as Fault;
use base64::Engine;

verus! {

/// The `i`-th symbol of the standard alphabet (`A-Z a-z 0-9 + /`).
pub open spec fn standard_symbol(i: int) -> char {
    if i < 26 {
        ((65 + i) as u32) as char
    } else if i < 52 {
        ((97 + i - 26) as u32) as char
    } else if i < 62 {
        ((48 + i - 52) as u32) as char
    } else if i == 62 {
        '+'
    } else {
        '/'
    }
}

/// The `i`-th symbol of the URL-safe alphabet (`-` and `_` in place of `+` and `/`).
pub open spec fn url_safe_symbol(i: int) -> char {
    if i == 62 {
        '-'
    } else if i == 63 {
        '_'
    } else {
        standard_symbol(i)
    }
}

/// A usable symbol table: 64 distinct printable ASCII characters, none of them
/// the padding character `=`.
pub open spec fn valid_symbols(s: Seq<char>) -> bool {
    &&& s.len() == 64
    &&& forall|i: int| 0 <= i < 64 ==> 32 <= #[trigger] (s[i] as u32) <= 126 && s[i] != '='
    &&& forall|i: int, j: int| 0 <= i < j < 64 ==> #[trigger] s[i] != #[trigger] s[j]
}

/// A custom symbol table, checked when it is made.
pub struct CustomAlphabet {
    symbols: String,
}

impl CustomAlphabet {
    #[verifier::type_invariant]
    spec fn valid(self) -> bool {
        valid_symbols(self.symbols@)
    }

    pub closed spec fn view(self) -> Seq<char> {
        self.symbols@
    }
}

/// The symbol table a base64 codec works with; padding is always `=`.
pub enum Alphabet {
    Standard,
    UrlSafe,
    Custom(CustomAlphabet),
}

impl Alphabet {
    /// The 64 symbols, in value order.
    pub open spec fn symbols(self) -> Seq<char> {
        match self {
            Alphabet::Standard => Seq::new(64, |i: int| standard_symbol(i)),
            Alphabet::UrlSafe => Seq::new(64, |i: int| url_safe_symbol(i)),
            Alphabet::Custom(c) => c@,
        }
    }

    pub open spec fn wf(self) -> bool {
        match self {
            Alphabet::Custom(c) => valid_symbols(c@),
            _ => true,
        }
    }

    /// Every alphabet that can be built is well formed.
    pub fn check_wf(&self)
        ensures
            self.wf(),
    {
        if let Alphabet::Custom(c) = self {
            proof {
                use_type_invariant(c);
            }
        }
    }

    /// A custom alphabet, if `symbols` is a usable symbol table.
    pub fn custom(symbols: String) -> (r: Option<Alphabet>)
        ensures
            r is Some <==> valid_symbols(symbols@),
            r matches Some(a) ==> a.symbols() == symbols@,
    {
        if alphabet_is_valid(symbols.as_str()) {
            Some(Alphabet::Custom(CustomAlphabet { symbols }))
        } else {
            None
        }
    }
}

/// What base64 decoding of `input` over the symbol table `symbols` gives
/// (padding `=`, canonical padding required, trailing bits tolerated).
pub uninterp spec fn b64_decoded(symbols: Seq<char>, input: Seq<u8>) -> Result<Seq<u8>, DecodeError>;

/// The padded base64 text of `input` over the symbol table `symbols`.
pub uninterp spec fn b64_encoded(symbols: Seq<char>, input: Seq<u8>) -> Seq<u8>;

/// Relies on base64::alphabet::Alphabet::new, which accepts exactly 64 bytes,
/// each printable ASCII (32 to 126), none `=`, no two equal.
#[verifier::external_body]
fn alphabet_is_valid(s: &str) -> (r: bool)
    ensures
        r == valid_symbols(s@),
{
    Symbols::new(s).is_ok()
}

/// Relies on base64's GeneralPurpose engine over the given alphabet, with
/// `decode_allow_trailing_bits(true)` and its default canonical padding.
/// From its source: every reported byte offset lies inside the input; the empty
/// input decodes to nothing; on an input whose length is a multiple of 4 the
/// only possible error is a bad byte (a misplaced `=` is reported as one).
#[verifier::external_body]
fn b64_decode_raw(alphabet: &Alphabet, input: &[u8]) -> (r: Result<Vec<u8>, DecodeError>)
    requires
        alphabet.wf(),
    ensures
        res_view(r) == b64_decoded(alphabet.symbols(), input@),
        r is Err && r->Err_0 is InvalidSymbol ==> r->Err_0->offset < input@.len(),
        input@.len() % 4 == 0 ==> r is Ok || r->Err_0 is InvalidSymbol,
        input@.len() == 0 ==> res_view(r) == success(Seq::empty()),
{
    let a = match alphabet {
        Alphabet::Standard => STANDARD,
        Alphabet::UrlSafe => URL_SAFE,
        Alphabet::Custom(c) => Symbols::new(&c.symbols).expect("checked"),
    };
    let cfg = GeneralPurposeConfig::new().with_decode_allow_trailing_bits(true);
    match GeneralPurpose::new(&a, cfg).decode(input) {
        Ok(v) => Ok(v),
        Err(Fault::InvalidByte(o, _)) => Err(DecodeError::InvalidSymbol { offset: o }),
        Err(Fault::InvalidLastSymbol(o, _)) => Err(DecodeError::InvalidSymbol { offset: o }),
        Err(Fault::InvalidLength(_)) => Err(DecodeError::InvalidLength),
        Err(Fault::InvalidPadding) => Err(DecodeError::InvalidPadding),
    }
}

/// Relies on base64's GeneralPurpose engine over the given alphabet, with
/// padding: four symbols for each three bytes, the last group padded with `=`.
#[verifier::external_body]
fn b64_encode_raw(alphabet: &Alphabet, input: &[u8]) -> (r: Vec<u8>)
    requires
        alphabet.wf(),
    ensures
        r@ == b64_encoded(alphabet.symbols(), input@),
{
    let a = match alphabet {
        Alphabet::Standard => STANDARD,
        Alphabet::UrlSafe => URL_SAFE,
        Alphabet::Custom(c) => Symbols::new(&c.symbols).expect("checked"),
    };
    GeneralPurpose::new(&a, GeneralPurposeConfig::new()).encode(input).into_bytes()
}

/// Strict base64 decoding over `alphabet`.
pub fn b64_decode_strict(alphabet: &Alphabet, input: &[u8]) -> (r: Result<Vec<u8>, DecodeError>)
    ensures
        res_view(r) == b64_decoded(alphabet.symbols(), input@),
        r is Err && r->Err_0 is InvalidSymbol ==> r->Err_0->offset < input@.len(),
        input@.len() % 4 == 0 ==> r is Ok || r->Err_0 is InvalidSymbol,
        input@.len() == 0 ==> res_view(r) == success(Seq::empty()),
{
    alphabet.check_wf();
    b64_decode_raw(alphabet, input)
}

/// Padded base64 encoding over `alphabet`.
pub fn b64_encode(alphabet: &Alphabet, input: &[u8]) -> (r: Vec<u8>)
    ensures
        r@ == b64_encoded(alphabet.symbols(), input@),
{
    alphabet.check_wf();
    b64_encode_raw(alphabet, input)
}

} // verus!
