//! Integer parsing with an optional `0x` (hex) or `0o` (octal) prefix.
use vstd::prelude::*;
use vstd::string::StrSliceExecFns;

verus! {

/// The value of an ASCII digit or letter (`a`/`A` is 10, `z`/`Z` is 35);
/// 36 for any other character.
pub open spec fn digit_value(c: char) -> nat {
    let u = c as u32;
    if 48 <= u <= 57 {
        (u - 48) as nat
    } else if 97 <= u <= 122 {
        (u - 87) as nat
    } else if 65 <= u <= 90 {
        (u - 55) as nat
    } else {
        36
    }
}

/// The value of a run of digits in base `radix`, most significant first.
pub open spec fn digits_value(s: Seq<char>, radix: nat) -> nat
    decreases s.len(),
{
    if s.len() == 0 {
        0
    } else {
        digits_value(s.drop_last(), radix) * radix + digit_value(s.last())
    }
}

/// `s` is a non-empty run of digits below `radix`.
pub open spec fn is_number(s: Seq<char>, radix: nat) -> bool {
    s.len() > 0 && forall|i: int| 0 <= i < s.len() ==> digit_value(#[trigger] s[i]) < radix
}

/// An optional `+` and digits, as an unsigned value.
pub open spec fn unsigned_value(s: Seq<char>, radix: nat) -> Option<int> {
    let body = if s.len() > 0 && s[0] == '+' {
        s.drop_first()
    } else {
        s
    };
    if is_number(body, radix) {
        Some(digits_value(body, radix) as int)
    } else {
        None
    }
}

/// An optional `+` or `-` and digits, as a signed value.
pub open spec fn signed_value(s: Seq<char>, radix: nat) -> Option<int> {
    if s.len() > 0 && s[0] == '-' {
        if is_number(s.drop_first(), radix) {
            Some(-(digits_value(s.drop_first(), radix) as int))
        } else {
            None
        }
    } else {
        unsigned_value(s, radix)
    }
}

/// `v` if it lies in `lo..=hi`.
pub open spec fn in_range(v: Option<int>, lo: int, hi: int) -> Option<int> {
    match v {
        Some(x) => if lo <= x <= hi {
            Some(x)
        } else {
            None
        },
        None => None,
    }
}

/// The radix a prefix selects and the text after it: `0x` is 16, `0o` is 8,
/// anything else is decimal. A prefix counts only when digits may follow it.
pub open spec fn split_prefix(s: Seq<char>) -> (nat, Seq<char>) {
    if s.len() > 2 && s[0] == '0' && s[1] == 'x' {
        (16, s.subrange(2, s.len() as int))
    } else if s.len() > 2 && s[0] == '0' && s[1] == 'o' {
        (8, s.subrange(2, s.len() as int))
    } else {
        (10, s)
    }
}

/// Parsing of an optionally prefixed unsigned number within `0..=hi`.
pub open spec fn parse_unsigned(s: Seq<char>, hi: int) -> Option<int> {
    in_range(unsigned_value(split_prefix(s).1, split_prefix(s).0), 0, hi)
}

/// Parsing of an optionally prefixed signed number within `lo..=hi`.
pub open spec fn parse_signed(s: Seq<char>, lo: int, hi: int) -> Option<int> {
    in_range(signed_value(split_prefix(s).1, split_prefix(s).0), lo, hi)
}

/// Relies on u64::from_str_radix: an optional `+` then digits of the radix
/// (either case); a value over u64::MAX is an error.
#[verifier::external_body]
pub(crate) fn u64_from_str_radix(s: &str, radix: u32) -> (r: Option<u64>)
    requires
        2 <= radix <= 36,
    ensures
        r matches Some(v) ==> in_range(unsigned_value(s@, radix as nat), 0, u64::MAX as int) == Some(v as int),
        r is None ==> in_range(unsigned_value(s@, radix as nat), 0, u64::MAX as int) is None,
{
    u64::from_str_radix(s, radix).ok()
}

/// Relies on i64::from_str_radix: an optional `+` or `-` then digits of the
/// radix (either case); a value outside the range of i64 is an error.
#[verifier::external_body]
fn i64_from_str_radix(s: &str, radix: u32) -> (r: Option<i64>)
    requires
        2 <= radix <= 36,
    ensures
        r matches Some(v) ==> in_range(signed_value(s@, radix as nat), i64::MIN as int, i64::MAX as int) == Some(v as int),
        r is None ==> in_range(signed_value(s@, radix as nat), i64::MIN as int, i64::MAX as int) is None,
{
    i64::from_str_radix(s, radix).ok()
}

/// Relies on usize::from_str_radix: an optional `+` then digits of the radix
/// (either case); a value over usize::MAX is an error.
#[verifier::external_body]
fn usize_from_str_radix(s: &str, radix: u32) -> (r: Option<usize>)
    requires
        2 <= radix <= 36,
    ensures
        r matches Some(v) ==> in_range(unsigned_value(s@, radix as nat), 0, usize::MAX as int) == Some(v as int),
        r is None ==> in_range(unsigned_value(s@, radix as nat), 0, usize::MAX as int) is None,
{
    usize::from_str_radix(s, radix).ok()
}

/// The radix selected by the prefix of `s`, and the text after the prefix.
pub fn split_radix_prefix(s: &str) -> (r: (u32, &str))
    ensures
        r.0 as nat == split_prefix(s@).0,
        r.1@ == split_prefix(s@).1,
{
    let n = s.unicode_len();
    if n > 2 && s.get_char(0) == '0' && s.get_char(1) == 'x' {
        (16, s.substring_char(2, n))
    } else if n > 2 && s.get_char(0) == '0' && s.get_char(1) == 'o' {
        (8, s.substring_char(2, n))
    } else {
        assert(s@.subrange(0, n as int) =~= s@);
        (10, s.substring_char(0, n))
    }
}

/// The text is not a number of the requested type.
#[derive(Clone, Copy, Debug, PartialEq, Eq)]
pub struct RadixError {}

/// Parsing of integers written in decimal, or in hex after `0x`, or in octal
/// after `0o`.
pub trait FromStrWithRadix: Sized {
    fn from_str_with_radix(s: &str) -> Result<Self, RadixError>;
}

/// An optionally prefixed u64.
pub fn u64_with_radix(s: &str) -> (r: Result<u64, RadixError>)
    ensures
        r matches Ok(v) ==> parse_unsigned(s@, u64::MAX as int) == Some(v as int),
        r is Err ==> parse_unsigned(s@, u64::MAX as int) is None,
{
    let (radix, body) = split_radix_prefix(s);
    match u64_from_str_radix(body, radix) {
        Some(v) => Ok(v),
        None => Err(RadixError {}),
    }
}

/// An optionally prefixed i64.
pub fn i64_with_radix(s: &str) -> (r: Result<i64, RadixError>)
    ensures
        r matches Ok(v) ==> parse_signed(s@, i64::MIN as int, i64::MAX as int) == Some(v as int),
        r is Err ==> parse_signed(s@, i64::MIN as int, i64::MAX as int) is None,
{
    let (radix, body) = split_radix_prefix(s);
    match i64_from_str_radix(body, radix) {
        Some(v) => Ok(v),
        None => Err(RadixError {}),
    }
}

/// An optionally prefixed usize.
pub fn usize_with_radix(s: &str) -> (r: Result<usize, RadixError>)
    ensures
        r matches Ok(v) ==> parse_unsigned(s@, usize::MAX as int) == Some(v as int),
        r is Err ==> parse_unsigned(s@, usize::MAX as int) is None,
{
    let (radix, body) = split_radix_prefix(s);
    match usize_from_str_radix(body, radix) {
        Some(v) => Ok(v),
        None => Err(RadixError {}),
    }
}

impl FromStrWithRadix for u64 {
    /// See [`u64_with_radix`].
    fn from_str_with_radix(s: &str) -> Result<u64, RadixError> {
        u64_with_radix(s)
    }
}

impl FromStrWithRadix for i64 {
    /// See [`i64_with_radix`].
    fn from_str_with_radix(s: &str) -> Result<i64, RadixError> {
        i64_with_radix(s)
    }
}

impl FromStrWithRadix for usize {
    /// See [`usize_with_radix`].
    fn from_str_with_radix(s: &str) -> Result<usize, RadixError> {
        usize_with_radix(s)
    }
}

} // verus!
