//! CRC-16 and CRC-32 checksums, printed as fixed-width hex.
use vstd::prelude::*;
use crate::hex::hex_digit;
use crate::radix::{in_range, u64_from_str_radix, unsigned_value};
use vstd::string::StrSliceExecFns;

verus! {

/// The CRC-16/IBM-SDLC checksum of `s`.
pub uninterp spec fn crc16_of(s: Seq<u8>) -> u16;

/// The CRC-32/ISO-HDLC checksum of `s`.
pub uninterp spec fn crc32_of(s: Seq<u8>) -> u32;

/// Relies on crc's `Crc::<u16>::new(&CRC_16_IBM_SDLC).checksum`.
#[verifier::external_body]
fn crc16_raw(s: &[u8]) -> (r: u16)
    ensures
        r == crc16_of(s@),
{
    crc::Crc::<u16>::new(&crc::CRC_16_IBM_SDLC).checksum(s)
}

/// Relies on crc's `Crc::<u32>::new(&CRC_32_ISO_HDLC).checksum`.
#[verifier::external_body]
fn crc32_raw(s: &[u8]) -> (r: u32)
    ensures
        r == crc32_of(s@),
{
    crc::Crc::<u32>::new(&crc::CRC_32_ISO_HDLC).checksum(s)
}

/// The low `w` hex digits of `v`, lowercase, most significant first.
pub open spec fn hex_fixed(v: nat, w: nat) -> Seq<u8>
    decreases w,
{
    if w == 0 {
        Seq::empty()
    } else {
        hex_fixed(v / 16, (w - 1) as nat).push(hex_digit((v % 16) as int))
    }
}

/// `v` as exactly `w` lowercase hex digits (high digits beyond `w` dropped,
/// missing ones written as `0`).
pub fn hex_fixed_width(v: u128, w: usize) -> (r: Vec<u8>)
    ensures
        r@ == hex_fixed(v as nat, w as nat),
    decreases w,
{
    if w == 0 {
        Vec::new()
    } else {
        let mut r = hex_fixed_width(v / 16, w - 1);
        let d = (v % 16) as u8;
        let c = if d < 10 {
            0x30 + d
        } else {
            0x61 + d - 10
        };
        r.push(c);
        r
    }
}

/// CRC-16/IBM-SDLC of the input, as four hex digits.
pub struct CRC16Applet {}

impl CRC16Applet {
    pub fn new() -> (r: CRC16Applet) {
        CRC16Applet {}
    }

    pub fn process(&self, val: Vec<u8>) -> (r: Vec<u8>)
        ensures
            r@ == hex_fixed(crc16_of(val@) as nat, 4),
    {
        let c = crc16_raw(val.as_slice());
        hex_fixed_width(c as u128, 4)
    }
}

/// CRC-32/ISO-HDLC of the input, as eight hex digits.
pub struct CRC32Applet {}

impl CRC32Applet {
    pub fn new() -> (r: CRC32Applet) {
        CRC32Applet {}
    }

    pub fn process(&self, val: Vec<u8>) -> (r: Vec<u8>)
        ensures
            r@ == hex_fixed(crc32_of(val@) as nat, 8),
    {
        let c = crc32_raw(val.as_slice());
        hex_fixed_width(c as u128, 8)
    }
}

/// The number of hex digits printed for a checksum of `bits` bits, by size
/// class: up to 8, 16, 32, 64 or 128 bits.
pub open spec fn hex_width(bits: int) -> Option<nat> {
    if bits <= 8 {
        Some(2)
    } else if bits <= 16 {
        Some(4)
    } else if bits <= 32 {
        Some(8)
    } else if bits <= 64 {
        Some(16)
    } else if bits <= 128 {
        Some(32)
    } else {
        None
    }
}

/// The first index at or after `from` where `s` holds `c` (`s.len()` if none).
pub open spec fn find_char(s: Seq<char>, c: char, from: int) -> int
    decreases s.len() - from,
{
    if from < 0 || from >= s.len() {
        s.len() as int
    } else if s[from] == c {
        from
    } else {
        find_char(s, c, from + 1)
    }
}

/// The size in bits that an algorithm name `CRC_<bits>_<variant>` gives: the
/// decimal number between its first and second `_` (or its end), if it fits
/// in a byte.
pub open spec fn name_bits(name: Seq<char>) -> Option<int> {
    let i = find_char(name, '_', 0);
    if i >= name.len() {
        None
    } else {
        in_range(unsigned_value(name.subrange(i + 1, find_char(name, '_', i + 1)), 10), 0, 255)
    }
}

fn find_char_exec(s: &str, n: usize, c: char, from: usize) -> (r: usize)
    requires
        n == s@.len(),
        from <= n,
    ensures
        r == find_char(s@, c, from as int),
        from <= r <= n,
{
    let mut k: usize = from;
    while k < n && s.get_char(k) != c
        invariant
            from <= k <= n,
            n == s@.len(),
            find_char(s@, c, from as int) == find_char(s@, c, k as int),
        decreases n - k,
    {
        k = k + 1;
    }
    k
}

/// A CRC of the crc crate's catalogue, chosen by name (`CRC_<bits>_<variant>`),
/// or `all` of them.
pub struct CRCApplet {
    pub crctype: String,
}

impl CRCApplet {
    pub fn new() -> (r: CRCApplet)
        ensures
            r.crctype@.len() == 0,
    {
        CRCApplet { crctype: String::new() }
    }

    /// The size in bits of the algorithm named `name`.
    pub fn algorithm_bits(name: &str) -> (r: Option<u8>)
        ensures
            r matches Some(b) ==> name_bits(name@) == Some(b as int),
            r is None ==> name_bits(name@) is None,
    {
        let n = name.unicode_len();
        let i = find_char_exec(name, n, '_', 0);
        if i >= n {
            return None;
        }
        let j = find_char_exec(name, n, '_', i + 1);
        let field = name.substring_char(i + 1, j);
        match u64_from_str_radix(field, 10) {
            Some(v) => {
                if v <= 255 {
                    Some(v as u8)
                } else {
                    None
                }
            },
            None => None,
        }
    }

    /// The printed form of checksum `v` of an algorithm of `bits` bits: as
    /// many hex digits as its size class holds; `None` beyond 128 bits.
    pub fn format_checksum(bits: u8, v: u128) -> (r: Option<Vec<u8>>)
        ensures
            hex_width(bits as int) is None ==> r is None,
            hex_width(bits as int) matches Some(w) ==> r matches Some(t) && t@ == hex_fixed(v as nat, w),
    {
        let w: usize = if bits <= 8 {
            2
        } else if bits <= 16 {
            4
        } else if bits <= 32 {
            8
        } else if bits <= 64 {
            16
        } else if bits <= 128 {
            32
        } else {
            return None;
        };
        Some(hex_fixed_width(v, w))
    }
}

} // verus!
