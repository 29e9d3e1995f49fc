//! Numeric timestamps: detecting their kind, converting them to and from
//! nanoseconds since the Unix epoch, and RFC 3339 text.
use vstd::prelude::*;
use vstd::string::StrSliceExecFns;
use crate::pattern::digits;
use crate::radix::{i64_with_radix, parse_signed};
use time::format_description::well_known::{Iso8601, Rfc2822, Rfc3339};

verus! {

/// 100-ns intervals from 1601-01-01 to the Unix epoch.
pub const FILETIME_EPOCH_OFFSET: i128 = 116_444_736_000_000_000;

/// Microseconds from 1601-01-01 to the Unix epoch.
pub const CHROME_EPOCH_OFFSET: i128 = 11_644_473_600_000_000;

/// The units a timestamp can be written in.
#[derive(Clone, Copy, Debug, PartialEq, Eq, Structural)]
pub enum TimeEncoding {
    UnixSecond,
    UnixCentiSecond,
    UnixMilliSecond,
    UnixMicroSecond,
    UnixNanoSecond,
    FILETIME,
    Chrome,
}

/// The date formats accepted as input.
#[derive(Clone, Copy, Debug, PartialEq, Eq, Structural)]
pub enum TimeFormats {
    Iso8601,
    Rfc2822,
    Rfc3339,
}

/// Why a timestamp could not be converted.
#[derive(Clone, Copy, Debug, PartialEq, Eq, Structural)]
pub enum TimeError {
    /// The input is not a number.
    InvalidNumber,
    /// The input is not a date in the expected format.
    InvalidDate,
    /// The instant cannot be written as a date.
    OutOfRange,
}

/// Integer division rounding toward zero.
pub open spec fn tdiv(n: int, d: int) -> int {
    if n >= 0 {
        n / d
    } else {
        -((-n) / d)
    }
}

/// The timestamp in `enc` of the instant `nanos` nanoseconds after the epoch.
pub open spec fn encode_spec(enc: TimeEncoding, nanos: int) -> int {
    match enc {
        TimeEncoding::UnixSecond => tdiv(nanos, 1_000_000_000),
        TimeEncoding::UnixCentiSecond => tdiv(tdiv(nanos, 1_000_000), 10),
        TimeEncoding::UnixMilliSecond => tdiv(nanos, 1_000_000),
        TimeEncoding::UnixMicroSecond => tdiv(nanos, 1_000),
        TimeEncoding::UnixNanoSecond => nanos,
        TimeEncoding::FILETIME => tdiv(nanos, 100) + FILETIME_EPOCH_OFFSET,
        TimeEncoding::Chrome => tdiv(nanos, 1_000) + CHROME_EPOCH_OFFSET,
    }
}

/// Decimal text of `v`, with a leading `-` when negative.
pub open spec fn signed_decimal(v: int) -> Seq<u8> {
    if v < 0 {
        seq![0x2du8] + digits((-v) as nat, 10)
    } else {
        digits(v as nat, 10)
    }
}

/// The instant that parsing `s` in format `fmt` gives, in nanoseconds after
/// the epoch.
pub uninterp spec fn parsed_instant(fmt: TimeFormats, s: Seq<char>) -> Option<int>;

/// The RFC 3339 text (UTC) of the instant `nanos` nanoseconds after the epoch.
pub uninterp spec fn rfc3339_utc(nanos: int) -> Option<Seq<u8>>;

/// Relies on time's UtcDateTime::parse with the well-known format, and on the
/// whole nanoseconds of its difference from UtcDateTime::UNIX_EPOCH.
#[verifier::external_body]
fn parse_instant(fmt: TimeFormats, s: &str) -> (r: Option<i128>)
    ensures
        r matches Some(n) ==> parsed_instant(fmt, s@) == Some(n as int),
        r is None ==> parsed_instant(fmt, s@) is None,
{
    let t = match fmt {
        TimeFormats::Iso8601 => time::UtcDateTime::parse(s, &Iso8601::DEFAULT),
        TimeFormats::Rfc2822 => time::UtcDateTime::parse(s, &Rfc2822),
        TimeFormats::Rfc3339 => time::UtcDateTime::parse(s, &Rfc3339),
    };
    t.ok().map(|t| (t - time::UtcDateTime::UNIX_EPOCH).whole_nanoseconds())
}

/// Relies on time's OffsetDateTime::from_unix_timestamp_nanos and its RFC 3339
/// formatting; either can refuse the instant.
#[verifier::external_body]
fn format_rfc3339_utc(nanos: i128) -> (r: Option<Vec<u8>>)
    ensures
        r matches Some(v) ==> rfc3339_utc(nanos as int) == Some(v@),
        r is None ==> rfc3339_utc(nanos as int) is None,
{
    let t = time::OffsetDateTime::from_unix_timestamp_nanos(nanos).ok()?;
    t.format(&Rfc3339).ok().map(|s| s.into_bytes())
}

/// `n / d` rounded toward zero.
fn trunc_div(n: i128, d: u128) -> (r: i128)
    requires
        d >= 2,
    ensures
        r == tdiv(n as int, d as int),
{
    if n >= 0 {
        ((n as u128) / d) as i128
    } else {
        let m: u128 = ((-(n + 1)) as u128) + 1;
        let q = m / d;
        assert(q <= m / 2) by (nonlinear_arith)
            requires
                d >= 2,
                q == m / d,
        ;
        -(q as i128)
    }
}

/// The timestamp in `enc` of the instant `nanos` nanoseconds after the epoch.
pub fn encode_nanos(enc: TimeEncoding, nanos: i128) -> (r: i128)
    ensures
        r == encode_spec(enc, nanos as int),
{
    match enc {
        TimeEncoding::UnixSecond => trunc_div(nanos, 1_000_000_000),
        TimeEncoding::UnixCentiSecond => trunc_div(trunc_div(nanos, 1_000_000), 10),
        TimeEncoding::UnixMilliSecond => trunc_div(nanos, 1_000_000),
        TimeEncoding::UnixMicroSecond => trunc_div(nanos, 1_000),
        TimeEncoding::UnixNanoSecond => nanos,
        TimeEncoding::FILETIME => trunc_div(nanos, 100) + FILETIME_EPOCH_OFFSET,
        TimeEncoding::Chrome => trunc_div(nanos, 1_000) + CHROME_EPOCH_OFFSET,
    }
}

fn decimal_u128(n: u128) -> (r: Vec<u8>)
    ensures
        r@ == digits(n as nat, 10),
    decreases n,
{
    let d = (n % 10) as u8;
    if n < 10 {
        let mut v: Vec<u8> = Vec::new();
        v.push(0x30 + d);
        v
    } else {
        let mut v = decimal_u128(n / 10);
        v.push(0x30 + d);
        v
    }
}

/// Decimal text of `v`.
pub fn signed_decimal_text(v: i128) -> (r: Vec<u8>)
    ensures
        r@ == signed_decimal(v as int),
{
    if v < 0 {
        let m: u128 = ((-(v + 1)) as u128) + 1;
        let mut out: Vec<u8> = Vec::new();
        out.push(0x2du8);
        let ds = decimal_u128(m);
        let mut i: usize = 0;
        while i < ds.len()
            invariant
                i <= ds@.len(),
                out@ == seq![0x2du8] + ds@.subrange(0, i as int),
            decreases ds@.len() - i,
        {
            out.push(ds[i]);
            i = i + 1;
            assert(out@ =~= seq![0x2du8] + ds@.subrange(0, i as int));
        }
        assert(ds@.subrange(0, i as int) =~= ds@);
        out
    } else {
        decimal_u128(v as u128)
    }
}

/// Encodes dates as numeric timestamps.
pub struct TsEncApplet {
    pub encoding_type: TimeEncoding,
    pub input_format: TimeFormats,
}

impl TsEncApplet {
    pub fn new() -> (r: TsEncApplet)
        ensures
            r.encoding_type == TimeEncoding::UnixSecond,
            r.input_format == TimeFormats::Iso8601,
    {
        TsEncApplet { encoding_type: TimeEncoding::UnixSecond, input_format: TimeFormats::Iso8601 }
    }

    /// The decimal timestamp of the date `val`.
    pub fn process(&self, val: &str) -> (r: Result<Vec<u8>, TimeError>)
        ensures
            r matches Ok(v) ==> exists|n: int|
                parsed_instant(self.input_format, val@) == Some(n) && v@ == signed_decimal(
                    encode_spec(self.encoding_type, n),
                ),
            r is Err ==> parsed_instant(self.input_format, val@) is None && r == Err::<Vec<u8>, TimeError>(TimeError::InvalidDate),
    {
        match parse_instant(self.input_format, val) {
            Some(n) => Ok(signed_decimal_text(encode_nanos(self.encoding_type, n))),
            None => Err(TimeError::InvalidDate),
        }
    }
}

/// The kinds of numeric timestamp that the decoder recognises.
#[derive(Clone, Copy, Debug, PartialEq, Eq, Structural)]
pub enum TimestampKind {
    Seconds,
    Centiseconds,
    Milliseconds,
    Microseconds,
    Chrome,
    FileTime,
}

/// The kind a timestamp of `len` decimal digits is taken to be.
pub open spec fn kind_for_len(len: nat) -> TimestampKind {
    if len == 12 {
        TimestampKind::Centiseconds
    } else if len == 13 {
        TimestampKind::Milliseconds
    } else if len == 16 {
        TimestampKind::Microseconds
    } else if len == 17 {
        TimestampKind::Chrome
    } else if len == 18 {
        TimestampKind::FileTime
    } else {
        TimestampKind::Seconds
    }
}

/// Number of decimal digits of `v` (1 for values below 10, negative ones included).
pub open spec fn digit_count(v: int) -> nat
    decreases v,
{
    if v < 10 {
        1
    } else {
        1 + digit_count(v / 10)
    }
}

/// Nanoseconds after the epoch of timestamp `ts` of kind `k`.
pub open spec fn nanos_of(k: TimestampKind, ts: int) -> int {
    match k {
        TimestampKind::Seconds => ts * 1_000_000_000,
        TimestampKind::Centiseconds => ts * 10_000_000,
        TimestampKind::Milliseconds => ts * 1_000_000,
        TimestampKind::Microseconds => ts * 1_000,
        TimestampKind::Chrome => (ts * 10 - FILETIME_EPOCH_OFFSET) * 100,
        TimestampKind::FileTime => (ts - FILETIME_EPOCH_OFFSET) * 100,
    }
}

/// `s` starts with `0x`.
pub open spec fn hex_prefixed(s: Seq<char>) -> bool {
    s.len() >= 2 && s[0] == '0' && s[1] == 'x'
}

/// The kind of the timestamp text `s` whose value is `v`: by the length of
/// the text if decimal, by the number of decimal digits of `v` if hex.
pub open spec fn kind_of(s: Seq<char>, v: int) -> TimestampKind {
    if hex_prefixed(s) {
        kind_for_len(digit_count(v))
    } else {
        kind_for_len(s.len())
    }
}

proof fn lemma_digit_count_le(v: int)
    requires
        v >= 1,
    ensures
        digit_count(v) <= v,
    decreases v,
{
    if v >= 10 {
        lemma_digit_count_le(v / 10);
    }
}

fn digit_count_exec(v: i64) -> (r: u64)
    ensures
        r == digit_count(v as int),
{
    let mut n: i64 = v;
    let mut c: u64 = 1;
    while n >= 10
        invariant
            c >= 1,
            c + digit_count(n as int) == digit_count(v as int) + 1,
            n <= v,
        decreases n,
    {
        proof {
            lemma_digit_count_le(v as int);
            assert(digit_count(n as int) == 1 + digit_count(n / 10));
        }
        n = n / 10;
        c = c + 1;
    }
    c
}

/// Decodes numeric timestamps, guessing their kind from their length.
pub struct TsDecApplet {
    pub local: bool,
    pub verbose: bool,
}

impl TsDecApplet {
    pub fn new() -> (r: TsDecApplet)
        ensures
            !r.local && !r.verbose,
    {
        TsDecApplet { local: false, verbose: false }
    }

    /// The instant `s` denotes, in nanoseconds after the epoch, and the kind
    /// it was read as.
    pub fn decode_instant(&self, s: &str) -> (r: Result<(i128, TimestampKind), TimeError>)
        ensures
            r matches Ok((n, k)) ==> exists|v: int|
                parse_signed(s@, i64::MIN as int, i64::MAX as int) == Some(v) && k == kind_of(s@, v)
                    && n == nanos_of(k, v),
            r is Err ==> parse_signed(s@, i64::MIN as int, i64::MAX as int) is None,
    {
        let v = match i64_with_radix(s) {
            Ok(v) => v,
            Err(_) => {
                return Err(TimeError::InvalidNumber);
            },
        };
        let len = s.unicode_len();
        let hex = len >= 2 && s.get_char(0) == '0' && s.get_char(1) == 'x';
        let l: u64 = if hex {
            digit_count_exec(v)
        } else {
            len as u64
        };
        let k = if l == 12 {
            TimestampKind::Centiseconds
        } else if l == 13 {
            TimestampKind::Milliseconds
        } else if l == 16 {
            TimestampKind::Microseconds
        } else if l == 17 {
            TimestampKind::Chrome
        } else if l == 18 {
            TimestampKind::FileTime
        } else {
            TimestampKind::Seconds
        };
        let t = v as i128;
        let n: i128 = match k {
            TimestampKind::Seconds => t * 1_000_000_000,
            TimestampKind::Centiseconds => t * 10_000_000,
            TimestampKind::Milliseconds => t * 1_000_000,
            TimestampKind::Microseconds => t * 1_000,
            TimestampKind::Chrome => (t * 10 - FILETIME_EPOCH_OFFSET) * 100,
            TimestampKind::FileTime => (t - FILETIME_EPOCH_OFFSET) * 100,
        };
        assert(hex == hex_prefixed(s@));
        assert(k == kind_of(s@, v as int));
        assert(parse_signed(s@, i64::MIN as int, i64::MAX as int) == Some(v as int) && k == kind_of(s@, v as int)
            && n == nanos_of(k, v as int));
        Ok((n, k))
    }

    /// The RFC 3339 date (UTC) of the timestamp `s`.
    pub fn process(&self, s: &str) -> (r: Result<Vec<u8>, TimeError>)
        ensures
            r is Ok <==> exists|v: int|
                parse_signed(s@, i64::MIN as int, i64::MAX as int) == Some(v) && rfc3339_utc(
                    nanos_of(kind_of(s@, v), v),
                ) is Some,
            r matches Ok(t) ==> exists|v: int|
                parse_signed(s@, i64::MIN as int, i64::MAX as int) == Some(v) && rfc3339_utc(
                    nanos_of(kind_of(s@, v), v),
                ) == Some(t@),
            r == Err::<Vec<u8>, TimeError>(TimeError::InvalidNumber) ==> parse_signed(
                s@,
                i64::MIN as int,
                i64::MAX as int,
            ) is None,
            r == Err::<Vec<u8>, TimeError>(TimeError::OutOfRange) ==> exists|v: int|
                parse_signed(s@, i64::MIN as int, i64::MAX as int) == Some(v) && rfc3339_utc(
                    nanos_of(kind_of(s@, v), v),
                ) is None,
    {
        match self.decode_instant(s) {
            Ok((n, k)) => {
                let ghost v = choose|v: int|
                    parse_signed(s@, i64::MIN as int, i64::MAX as int) == Some(v) && k == kind_of(s@, v)
                        && n == nanos_of(k, v);
                match format_rfc3339_utc(n) {
                    Some(t) => Ok(t),
                    None => {
                        assert(parse_signed(s@, i64::MIN as int, i64::MAX as int) == Some(v)
                            && rfc3339_utc(nanos_of(kind_of(s@, v), v)) is None);
                        Err(TimeError::OutOfRange)
                    },
                }
            },
            Err(_) => Err(TimeError::InvalidNumber),
        }
    }
}

} // verus!
