//! URL percent-encoding with a configurable table, and percent-decoding.
use vstd::prelude::*;
use vstd::string::StrSliceExecFns;
use crate::hex::{hex_digit, hex_val, is_hex};
use crate::trim::{trim_bytes, trim_spec};

verus! {

/// Printable ASCII other than space.
pub open spec fn is_graphic(i: int) -> bool {
    0x21 <= i <= 0x7e
}

/// ASCII letters and digits.
pub open spec fn is_alnum(i: int) -> bool {
    (0x30 <= i <= 0x39) || (0x41 <= i <= 0x5a) || (0x61 <= i <= 0x7a)
}

/// The reserved characters of RFC 3986 that the URL table encodes.
pub open spec fn is_reserved(i: int) -> bool {
    i == 0x21 || i == 0x23 || i == 0x24 || i == 0x25 || i == 0x26 || i == 0x27 || i == 0x28
        || i == 0x29 || i == 0x2a || i == 0x2b || i == 0x2c || i == 0x2f || i == 0x3a || i == 0x3b
        || i == 0x3d || i == 0x3f || i == 0x40 || i == 0x5b || i == 0x5d
}

/// Whether byte `i` is encoded by the URL table: every non-graphic byte, and
/// the reserved characters that are not excluded.
pub open spec fn url_entry(excluded: Seq<char>, i: int) -> bool {
    !is_graphic(i) || (is_reserved(i) && !excluded.contains((i as u32) as char))
}

/// Whether byte `i` is encoded by the default table: every byte that is not an
/// ASCII letter or digit and not excluded.
pub open spec fn default_entry(excluded: Seq<char>, i: int) -> bool {
    !is_alnum(i) && !excluded.contains((i as u32) as char)
}

fn contains_char(cs: &Vec<char>, c: char) -> (r: bool)
    ensures
        r == cs@.contains(c),
{
    let mut i: usize = 0;
    while i < cs.len()
        invariant
            i <= cs@.len(),
            forall|j: int| 0 <= j < i ==> cs@[j] != c,
        decreases cs@.len() - i,
    {
        if cs[i] == c {
            return true;
        }
        i = i + 1;
    }
    false
}

fn chars_of(s: &String) -> (r: Vec<char>)
    ensures
        r@ == s@,
{
    let n = s.as_str().unicode_len();
    let mut r: Vec<char> = Vec::new();
    let mut i: usize = 0;
    while i < n
        invariant
            n == s@.len(),
            i <= n,
            r@ == s@.subrange(0, i as int),
        decreases n - i,
    {
        r.push(s.as_str().get_char(i));
        i = i + 1;
        assert(r@ =~= s@.subrange(0, i as int));
    }
    assert(s@.subrange(0, n as int) =~= s@);
    r
}

fn is_graphic_byte(i: u32) -> (r: bool)
    ensures
        r == is_graphic(i as int),
{
    0x21 <= i && i <= 0x7e
}

fn is_alnum_byte(i: u32) -> (r: bool)
    ensures
        r == is_alnum(i as int),
{
    (0x30 <= i && i <= 0x39) || (0x41 <= i && i <= 0x5a) || (0x61 <= i && i <= 0x7a)
}

fn is_reserved_byte(i: u32) -> (r: bool)
    ensures
        r == is_reserved(i as int),
{
    i == 0x21 || i == 0x23 || i == 0x24 || i == 0x25 || i == 0x26 || i == 0x27 || i == 0x28
        || i == 0x29 || i == 0x2a || i == 0x2b || i == 0x2c || i == 0x2f || i == 0x3a || i == 0x3b
        || i == 0x3d || i == 0x3f || i == 0x40 || i == 0x5b || i == 0x5d
}

/// Fills entries 0 to 254 of `table` by the URL rule; entry 255 is left as it was.
pub fn build_url_table(excluded: &String, table: &mut [bool; 256])
    ensures
        forall|i: int| 0 <= i < 255 ==> final(table)@[i] == url_entry(excluded@, i),
        final(table)@[255] == old(table)@[255],
{
    let cs = chars_of(excluded);
    let mut i: u32 = 0;
    while i < 255
        invariant
            i <= 255,
            cs@ == excluded@,
            forall|j: int| 0 <= j < i ==> table@[j] == url_entry(excluded@, j),
            table@[255] == old(table)@[255],
        decreases 255 - i,
    {
        let c = char_of(i);
        let v = if !is_graphic_byte(i) {
            true
        } else {
            is_reserved_byte(i) && !contains_char(&cs, c)
        };
        table[i as usize] = v;
        i = i + 1;
    }
}

/// Fills entries 0 to 254 of `table` by the default rule; entry 255 is left as it was.
pub fn build_default_table(excluded: &String, table: &mut [bool; 256])
    ensures
        forall|i: int| 0 <= i < 255 ==> final(table)@[i] == default_entry(excluded@, i),
        final(table)@[255] == old(table)@[255],
{
    let cs = chars_of(excluded);
    let mut i: u32 = 0;
    while i < 255
        invariant
            i <= 255,
            cs@ == excluded@,
            forall|j: int| 0 <= j < i ==> table@[j] == default_entry(excluded@, j),
            table@[255] == old(table)@[255],
        decreases 255 - i,
    {
        let c = char_of(i);
        let v = if is_alnum_byte(i) {
            false
        } else {
            !contains_char(&cs, c)
        };
        table[i as usize] = v;
        i = i + 1;
    }
}

/// The character whose code is `i`, for `i` below 256.
fn char_of(i: u32) -> (c: char)
    requires
        i < 256,
    ensures
        c == (i as u32) as char,
{
    (i as u8) as char
}

/// `s` with each byte whose table entry is set written as `%` and two
/// lowercase hex digits.
pub open spec fn url_encoded(table: Seq<bool>, s: Seq<u8>) -> Seq<u8>
    decreases s.len(),
{
    if s.len() == 0 {
        s
    } else {
        let b = s.last();
        let rest = url_encoded(table, s.drop_last());
        if table[b as int] {
            rest + seq![0x25u8, hex_digit(b as int / 16), hex_digit(b as int % 16)]
        } else {
            rest.push(b)
        }
    }
}

/// A lowercase hex digit.
fn hex_digit_byte(n: u8) -> (r: u8)
    requires
        n < 16,
    ensures
        r == hex_digit(n as int),
{
    if n < 10 {
        0x30 + n
    } else {
        0x61 + n - 10
    }
}

/// Percent-encoding of the bytes selected by a table.
pub struct UrlEncApplet {
    pub table: [bool; 256],
}

impl UrlEncApplet {
    pub fn new() -> (r: UrlEncApplet)
        ensures
            forall|i: int| 0 <= i < 256 ==> !r.table@[i],
    {
        UrlEncApplet { table: [false; 256] }
    }

    pub fn process(&self, val: Vec<u8>) -> (r: Vec<u8>)
        ensures
            r@ == url_encoded(self.table@, val@),
    {
        let mut out: Vec<u8> = Vec::with_capacity(val.len());
        let mut i: usize = 0;
        while i < val.len()
            invariant
                i <= val@.len(),
                out@ == url_encoded(self.table@, val@.subrange(0, i as int)),
            decreases val@.len() - i,
        {
            let b = val[i];
            assert(val@.subrange(0, i + 1).drop_last() =~= val@.subrange(0, i as int));
            if self.table[b as usize] {
                out.push(0x25u8);
                out.push(hex_digit_byte(b / 16));
                out.push(hex_digit_byte(b % 16));
            } else {
                out.push(b);
            }
            i = i + 1;
            assert(out@ =~= url_encoded(self.table@, val@.subrange(0, i as int)));
        }
        assert(val@.subrange(0, i as int) =~= val@);
        out
    }
}

/// Percent-decoding: `%` and two hex digits give one byte; every other byte,
/// a lone `%` included, is kept.
pub open spec fn pct_decoded(s: Seq<u8>) -> Seq<u8>
    decreases s.len(),
{
    if s.len() == 0 {
        s
    } else if s.len() >= 3 && s[0] == 0x25u8 && is_hex(s[1]) && is_hex(s[2]) {
        seq![(hex_val(s[1]) * 16 + hex_val(s[2])) as u8] + pct_decoded(s.subrange(3, s.len() as int))
    } else {
        seq![s[0]] + pct_decoded(s.drop_first())
    }
}

/// Relies on percent_encoding::percent_decode: a `%` followed by two hex digits
/// (either case) gives the byte they denote; every other byte is passed through.
#[verifier::external_body]
fn percent_decode_raw(s: &[u8]) -> (r: Vec<u8>)
    ensures
        r@ == pct_decoded(s@),
{
    percent_encoding::percent_decode(s).collect()
}

/// What one byte becomes under `table`.
pub open spec fn url_piece(table: Seq<bool>, b: u8) -> Seq<u8> {
    if table[b as int] {
        seq![0x25u8, hex_digit(b as int / 16), hex_digit(b as int % 16)]
    } else {
        seq![b]
    }
}

proof fn lemma_url_encoded_front(table: Seq<bool>, s: Seq<u8>)
    requires
        s.len() > 0,
    ensures
        url_encoded(table, s) == url_piece(table, s[0]) + url_encoded(table, s.drop_first()),
    decreases s.len(),
{
    if s.len() > 1 {
        lemma_url_encoded_front(table, s.drop_last());
        assert(s.drop_last().drop_first() =~= s.drop_first().drop_last());
        assert(s.drop_last()[0] == s[0]);
        assert(s.drop_first().last() == s.last());
        let p = url_piece(table, s[0]);
        let mid = url_encoded(table, s.drop_first().drop_last());
        if table[s.last() as int] {
            let q = seq![0x25u8, hex_digit(s.last() as int / 16), hex_digit(s.last() as int % 16)];
            assert(p + mid + q =~= p + (mid + q));
        } else {
            assert((p + mid).push(s.last()) =~= p + mid.push(s.last()));
        }
    } else {
        assert(s.drop_last() =~= Seq::<u8>::empty());
        assert(s.drop_first() =~= Seq::<u8>::empty());
        assert(url_encoded(table, s.drop_first()) =~= Seq::<u8>::empty());
        assert(url_encoded(table, s) =~= url_piece(table, s[0]));
    }
}

/// Percent-decoding undoes percent-encoding: for every table that encodes `%`
/// itself and every byte buffer `s`, decoding the encoded `s` gives back `s`.
pub proof fn lemma_url_round_trip(table: Seq<bool>, s: Seq<u8>)
    requires
        table.len() == 256,
        table[0x25],
    ensures
        pct_decoded(url_encoded(table, s)) == s,
    decreases s.len(),
{
    if s.len() > 0 {
        let b = s[0];
        lemma_url_encoded_front(table, s);
        lemma_url_round_trip(table, s.drop_first());
        let rest = url_encoded(table, s.drop_first());
        let e = url_piece(table, b) + rest;
        if table[b as int] {
            let h1 = hex_digit(b as int / 16);
            let h2 = hex_digit(b as int % 16);
            assert(is_hex(h1) && hex_val(h1) == b as int / 16);
            assert(is_hex(h2) && hex_val(h2) == b as int % 16);
            assert(e[0] == 0x25u8 && e[1] == h1 && e[2] == h2);
            assert(e.subrange(3, e.len() as int) =~= rest);
        } else {
            assert(b != 0x25u8);
            assert(e.drop_first() =~= rest);
        }
        assert(seq![b] + s.drop_first() =~= s);
    } else {
        assert(url_encoded(table, s) =~= s);
    }
}

/// Percent-decoding of the trimmed input.
pub struct UrlDecApplet {}

impl UrlDecApplet {
    pub fn new() -> (r: UrlDecApplet) {
        UrlDecApplet {}
    }

    pub fn process(&self, val: Vec<u8>) -> (r: Vec<u8>)
        ensures
            r@ == pct_decoded(trim_spec(val@)),
    {
        let trimmed = trim_bytes(val.as_slice());
        percent_decode_raw(trimmed.as_slice())
    }
}

} // verus!
