//! The cyclic buffer-overflow pattern (`Aa0Aa1...Zz9`) and offset lookup in it.
use vstd::prelude::*;
use vstd::utf8::encode_utf8;
use vstd::arithmetic::div_mod::lemma_div_decreases;
use crate::hex::hex_digit;

verus! {

/// Length of one period of the pattern: 26 * 26 * 10 triples of three bytes.
pub const PATTERN_PERIOD: usize = 20280;

/// Byte `i` of the endless pattern. Triple `t` of a period is an uppercase
/// letter, a lowercase letter and a digit; the digit changes fastest.
pub open spec fn pattern_byte(i: int) -> u8 {
    let j = i % 20280;
    let t = j / 3;
    let pos = j % 3;
    if pos == 0 {
        (65 + t / 260) as u8
    } else if pos == 1 {
        (97 + (t / 10) % 26) as u8
    } else {
        (48 + t % 10) as u8
    }
}

/// The first `n` bytes of the pattern.
pub open spec fn pattern(n: nat) -> Seq<u8> {
    Seq::new(n, |i: int| pattern_byte(i))
}

fn pattern_byte_at(i: usize) -> (r: u8)
    ensures
        r == pattern_byte(i as int),
{
    let j = i % 20280;
    let t = j / 3;
    let pos = j % 3;
    if pos == 0 {
        (65 + t / 260) as u8
    } else if pos == 1 {
        (97 + (t / 10) % 26) as u8
    } else {
        (48 + t % 10) as u8
    }
}

/// Bytes in one round of the pattern: the triples of one uppercase letter.
pub const PATTERN_ROUND: usize = 780;

/// How many whole rounds are appended to a buffer of `start` bytes to reach
/// `len` bytes: as few as reach it, and at most one period (26 rounds).
pub open spec fn rounds(start: nat, len: nat) -> nat {
    if start >= len {
        0
    } else {
        let need = ((len - start) + 779) / 780;
        if need > 26 {
            26
        } else {
            need as nat
        }
    }
}

/// Appends whole rounds of the pattern to `res` until it holds at least `len`
/// bytes, or one full period has been appended.
pub fn gen_pattern(len: usize, res: &mut Vec<u8>)
    ensures
        final(res)@ == old(res)@ + pattern(780 * rounds(old(res)@.len(), len as nat)),
{
    let ghost start = old(res)@.len();
    let mut u: usize = 0;
    while u < 26
        invariant
            u <= 26,
            start == old(res)@.len(),
            res@ =~= old(res)@ + pattern(780 * u as nat),
            u <= rounds(start, len as nat),
        decreases 26 - u,
    {
        if res.len() >= len {
            proof {
                let r = rounds(start, len as nat);
                if start < len {
                    assert(r <= u) by (nonlinear_arith)
                        requires
                            start + 780 * u >= len,
                            start < len,
                            r == (if ((len - start) + 779) / 780 > 26 { 26 } else { ((len - start) + 779) / 780 }),
                    ;
                }
            }
            return;
        }
        let mut j: usize = 0;
        while j < 780
            invariant
                u < 26,
                j <= 780,
                res@ =~= old(res)@ + pattern((780 * u + j) as nat),
            decreases 780 - j,
        {
            res.push(pattern_byte_at(780 * u + j));
            j = j + 1;
        }
        proof {
            assert(u + 1 <= rounds(start, len as nat)) by (nonlinear_arith)
                requires
                    start + 780 * u < len,
                    u < 26,
                    rounds(start, len as nat) == (if ((len - start) + 779) / 780 > 26 { 26 } else { ((len - start) + 779) / 780 }),
            ;
        }
        u = u + 1;
    }
}

/// Generates a pattern of a given length.
pub struct BofPattGenApplet {
    pub len: usize,
}

impl BofPattGenApplet {
    pub fn new() -> (r: BofPattGenApplet)
        ensures
            r.len == 0,
    {
        BofPattGenApplet { len: 0 }
    }

    /// The first `len` bytes of the pattern, and at most one period.
    pub fn process(&self) -> (r: Vec<u8>)
        ensures
            self.len <= 20280 ==> r@ == pattern(self.len as nat),
            self.len > 20280 ==> r@ == pattern(20280),
    {
        let mut res: Vec<u8> = Vec::new();
        gen_pattern(self.len, &mut res);
        proof {
            let r = rounds(0, self.len as nat);
            assert(self.len <= 20280 ==> 780 * r >= self.len) by (nonlinear_arith)
                requires
                    r == (if self.len == 0 { 0 } else if (self.len + 779) / 780 > 26 { 26 } else { (self.len + 779) / 780 }),
            ;
            assert(self.len > 20280 ==> r == 26);
        }
        res.truncate(self.len);
        assert(res@ =~= pattern(if self.len <= 20280 { self.len as nat } else { 20280 }));
        res
    }
}

/// `x` occurs in `h` at position `i`.
pub open spec fn occurs_at(h: Seq<u8>, x: Seq<u8>, i: int) -> bool {
    0 <= i && i + x.len() <= h.len() && h.subrange(i, i + x.len()) == x
}

/// The first position at which `x` occurs in `h`, if any.
pub open spec fn first_occurrence(h: Seq<u8>, x: Seq<u8>) -> Option<nat> {
    if exists|i: int| occurs_at(h, x, i) {
        let i = choose|i: int| occurs_at(h, x, i) && forall|j: int| 0 <= j < i ==> !occurs_at(h, x, j);
        Some(i as nat)
    } else {
        None
    }
}

fn matches_at(h: &Vec<u8>, x: &[u8], i: usize) -> (r: bool)
    requires
        i + x@.len() <= h@.len(),
    ensures
        r == occurs_at(h@, x@, i as int),
{
    let n = h.len();
    let mut j: usize = 0;
    while j < x.len()
        invariant
            n == h@.len(),
            j <= x@.len(),
            i + x@.len() <= h@.len(),
            forall|k: int| 0 <= k < j ==> h@[i + k] == x@[k],
        decreases x@.len() - j,
    {
        if h[i + j] != x[j] {
            assert(h@.subrange(i as int, i + x@.len())[j as int] != x@[j as int]);
            return false;
        }
        j = j + 1;
    }
    assert(h@.subrange(i as int, i + x@.len()) =~= x@);
    true
}

/// The first position at which `x` occurs in `h`.
pub fn find_bytes(h: &Vec<u8>, x: &[u8]) -> (r: Option<usize>)
    ensures
        r matches Some(i) ==> occurs_at(h@, x@, i as int) && forall|j: int| 0 <= j < i ==> !occurs_at(h@, x@, j),
        r is None ==> forall|j: int| !occurs_at(h@, x@, j),
{
    if x.len() > h.len() {
        return None;
    }
    let last = h.len() - x.len();
    let mut i: usize = 0;
    loop
        invariant
            last == h@.len() - x@.len(),
            i <= last,
            forall|j: int| 0 <= j < i ==> !occurs_at(h@, x@, j),
        decreases last - i,
    {
        if matches_at(h, x, i) {
            return Some(i);
        }
        if i == last {
            return None;
        }
        i = i + 1;
    }
}

/// Finds where a pattern extract stands in one period of the pattern.
pub struct BofPattOffApplet {
    pub extract: String,
}

/// The decimal or hex digits of `n` in base `b`, most significant first.
pub open spec fn digits(n: nat, b: nat) -> Seq<u8>
    decreases n,
    via digits_decreases
{
    if b < 2 || n < b {
        seq![hex_digit(n as int)]
    } else {
        digits(n / b, b).push(hex_digit((n % b) as int))
    }
}

#[via_fn]
proof fn digits_decreases(n: nat, b: nat) {
    if !(b < 2 || n < b) {
        lemma_div_decreases(n as int, b as int);
    }
}

fn digits_of(n: usize, b: usize) -> (r: Vec<u8>)
    requires
        2 <= b <= 16,
    ensures
        r@ == digits(n as nat, b as nat),
    decreases n,
{
    if n < b {
        let mut v: Vec<u8> = Vec::new();
        v.push(digit_byte(n));
        v
    } else {
        proof {
            lemma_div_decreases(n as int, b as int);
        }
        let mut v = digits_of(n / b, b);
        v.push(digit_byte(n % b));
        v
    }
}

fn digit_byte(n: usize) -> (r: u8)
    requires
        n < 16,
    ensures
        r == hex_digit(n as int),
{
    if n < 10 {
        (0x30 + n) as u8
    } else {
        (0x61 + n - 10) as u8
    }
}

/// `Offset: <o> (mod 20280) / 0x<o in hex>`.
pub open spec fn offset_message(o: nat) -> Seq<u8> {
    seq![0x4fu8, 0x66, 0x66, 0x73, 0x65, 0x74, 0x3a, 0x20] + digits(o, 10) + seq![
        0x20u8,
        0x28,
        0x6d,
        0x6f,
        0x64,
        0x20,
    ] + digits(20280, 10) + seq![0x29u8, 0x20, 0x2f, 0x20, 0x30, 0x78] + digits(o, 16)
}

/// `Pattern not found`.
pub open spec fn not_found_message() -> Seq<u8> {
    seq![
        0x50u8,
        0x61,
        0x74,
        0x74,
        0x65,
        0x72,
        0x6e,
        0x20,
        0x6e,
        0x6f,
        0x74,
        0x20,
        0x66,
        0x6f,
        0x75,
        0x6e,
        0x64,
    ]
}

fn append(out: &mut Vec<u8>, b: Vec<u8>)
    ensures
        final(out)@ == old(out)@ + b@,
{
    let mut i: usize = 0;
    while i < b.len()
        invariant
            i <= b@.len(),
            out@ == old(out)@ + b@.subrange(0, i as int),
        decreases b@.len() - i,
    {
        out.push(b[i]);
        i = i + 1;
        assert(out@ =~= old(out)@ + b@.subrange(0, i as int));
    }
    assert(b@.subrange(0, i as int) =~= b@);
}

/// The bytes of `v` from the least significant up to the highest non-zero one.
pub open spec fn le_bytes(v: nat) -> Seq<u8>
    decreases v,
{
    if v == 0 {
        Seq::empty()
    } else {
        seq![(v % 256) as u8] + le_bytes(v / 256)
    }
}

/// The bytes of `v` from the highest non-zero one down to the least significant.
pub open spec fn be_bytes(v: nat) -> Seq<u8>
    decreases v,
{
    if v == 0 {
        Seq::empty()
    } else {
        be_bytes(v / 256).push((v % 256) as u8)
    }
}

impl BofPattOffApplet {
    /// The pattern bytes held in a register value, in memory order: least
    /// significant byte first, or most significant first if `big_endian`.
    pub fn extract_from_value(v: u64, big_endian: bool) -> (r: Vec<u8>)
        ensures
            !big_endian ==> r@ == le_bytes(v as nat),
            big_endian ==> r@ == be_bytes(v as nat),
    {
        let mut out: Vec<u8> = Vec::new();
        let mut rest: u64 = v;
        while rest != 0
            invariant
                !big_endian ==> le_bytes(v as nat) == out@ + le_bytes(rest as nat),
                big_endian ==> be_bytes(v as nat) == be_bytes(rest as nat) + out@,
            decreases rest,
        {
            let b = (rest % 256) as u8;
            let ghost prev = out@;
            if big_endian {
                out.insert(0, b);
                assert(be_bytes(rest as nat) + prev =~= be_bytes((rest / 256) as nat) + out@);
            } else {
                out.push(b);
                assert(prev + le_bytes(rest as nat) =~= out@ + le_bytes((rest / 256) as nat));
            }
            rest = rest / 256;
        }
        assert(out@ + le_bytes(0) =~= out@);
        assert(be_bytes(0) + out@ =~= out@);
        out
    }

    pub fn new() -> (r: BofPattOffApplet)
        ensures
            r.extract@.len() == 0,
    {
        BofPattOffApplet { extract: String::new() }
    }

    /// The first position of the extract's bytes in one period of the pattern.
    pub fn find_offset(&self) -> (r: Option<usize>)
        ensures
            r matches Some(i) ==> occurs_at(pattern(20280), encode_utf8(self.extract@), i as int)
                && forall|j: int| 0 <= j < i ==> !occurs_at(pattern(20280), encode_utf8(self.extract@), j),
            r is None ==> forall|j: int| !occurs_at(pattern(20280), encode_utf8(self.extract@), j),
    {
        let mut full: Vec<u8> = Vec::new();
        gen_pattern(PATTERN_PERIOD, &mut full);
        assert(rounds(0, 20280) == 26);
        assert(full@ =~= pattern(20280));
        find_bytes(&full, self.extract.as_str().as_bytes())
    }

    /// The offset message, or `Pattern not found`.
    pub fn process(&self) -> (r: Vec<u8>)
        ensures
            match self.spec_find() {
                Some(o) => r@ == offset_message(o as nat),
                None => r@ == not_found_message(),
            },
    {
        let found = self.find_offset();
        match found {
            Some(o) => {
                let mut out: Vec<u8> = vec![0x4fu8, 0x66, 0x66, 0x73, 0x65, 0x74, 0x3a, 0x20];
                append(&mut out, digits_of(o, 10));
                append(&mut out, vec![0x20u8, 0x28, 0x6d, 0x6f, 0x64, 0x20]);
                append(&mut out, digits_of(PATTERN_PERIOD, 10));
                append(&mut out, vec![0x29u8, 0x20, 0x2f, 0x20, 0x30, 0x78]);
                append(&mut out, digits_of(o, 16));
                proof {
                    lemma_first_occurrence(pattern(20280), encode_utf8(self.extract@), o as int);
                }
                out
            },
            None => {
                proof {
                    assert(!exists|i: int| occurs_at(pattern(20280), encode_utf8(self.extract@), i));
                }
                vec![
                    0x50u8,
                    0x61,
                    0x74,
                    0x74,
                    0x65,
                    0x72,
                    0x6e,
                    0x20,
                    0x6e,
                    0x6f,
                    0x74,
                    0x20,
                    0x66,
                    0x6f,
                    0x75,
                    0x6e,
                    0x64,
                ]
            },
        }
    }

    /// Where the extract first occurs in one period of the pattern.
    pub open spec fn spec_find(self) -> Option<nat> {
        first_occurrence(pattern(20280), encode_utf8(self.extract@))
    }
}

proof fn lemma_first_occurrence(h: Seq<u8>, x: Seq<u8>, i: int)
    requires
        occurs_at(h, x, i),
        forall|j: int| 0 <= j < i ==> !occurs_at(h, x, j),
    ensures
        first_occurrence(h, x) == Some(i as nat),
{
    let c = choose|k: int| occurs_at(h, x, k) && forall|j: int| 0 <= j < k ==> !occurs_at(h, x, j);
    assert(occurs_at(h, x, c) && forall|j: int| 0 <= j < c ==> !occurs_at(h, x, j));
    if c < i {
        assert(!occurs_at(h, x, c));
    } else if c > i {
        assert(!occurs_at(h, x, i));
    }
}

} // verus!
