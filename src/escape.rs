//! Backslash escaping for several quoting styles, HTML entities, and the
//! reverse unescaping.
use vstd::prelude::*;
use crate::hex::{hex_digit, hex_val, is_hex, is_hex_byte};
use crate::trim::{trim_bytes, trim_spec};
use htmlentity::entity::{CharacterSet, EncodeType};

verus! {

/// The escaping styles.
#[derive(Clone, Copy, Debug, PartialEq, Eq, Structural)]
pub enum EscType {
    /// Rust-style escapes of control, quote, backslash and non-ASCII bytes.
    Generic,
    /// Same escapes as `Generic`, wrapped in single quotes.
    Single,
    /// Backslash before `` ` ``, `$`, `"` and `\`.
    Shell,
    /// Backslash before `` ` ``, `$`, `"`, `\` and `!`.
    Bash,
    /// Every `'` written as `'"'"'`, for use inside single quotes.
    BashSingle,
    /// HTML named or hex entities for special and non-ASCII characters.
    HTMLEntities,
}

/// The escape of one byte in the `Generic` style.
pub open spec fn ascii_esc(b: u8) -> Seq<u8> {
    if b == 0x09u8 {
        seq![0x5cu8, 0x74u8]
    } else if b == 0x0du8 {
        seq![0x5cu8, 0x72u8]
    } else if b == 0x0au8 {
        seq![0x5cu8, 0x6eu8]
    } else if b == 0x5cu8 || b == 0x27u8 || b == 0x22u8 {
        seq![0x5cu8, b]
    } else if 0x20u8 <= b <= 0x7eu8 {
        seq![b]
    } else {
        seq![0x5cu8, 0x78u8, hex_digit(b as int / 16), hex_digit(b as int % 16)]
    }
}

/// `s` escaped byte by byte in the `Generic` style.
pub open spec fn ascii_escaped(s: Seq<u8>) -> Seq<u8>
    decreases s.len(),
{
    if s.len() == 0 {
        s
    } else {
        ascii_escaped(s.drop_last()) + ascii_esc(s.last())
    }
}

/// `s` with a backslash before each byte found in `chars`.
pub open spec fn chars_escaped(s: Seq<u8>, chars: Seq<u8>) -> Seq<u8>
    decreases s.len(),
{
    if s.len() == 0 {
        s
    } else if chars.contains(s.last()) {
        chars_escaped(s.drop_last(), chars) + seq![0x5cu8, s.last()]
    } else {
        chars_escaped(s.drop_last(), chars).push(s.last())
    }
}

/// `s` with each single quote written as `'"'"'`.
pub open spec fn bash_single_escaped(s: Seq<u8>) -> Seq<u8>
    decreases s.len(),
{
    if s.len() == 0 {
        s
    } else if s.last() == 0x27u8 {
        bash_single_escaped(s.drop_last()) + seq![0x27u8, 0x22u8, 0x27u8, 0x22u8, 0x27u8]
    } else {
        bash_single_escaped(s.drop_last()).push(s.last())
    }
}

/// The bytes that `Shell` escapes.
pub open spec fn shell_chars() -> Seq<u8> {
    seq![0x60u8, 0x24u8, 0x22u8, 0x5cu8]
}

/// The bytes that `Bash` escapes.
pub open spec fn bash_chars() -> Seq<u8> {
    seq![0x60u8, 0x24u8, 0x22u8, 0x5cu8, 0x21u8]
}

/// What HTML entity encoding (named entity, else hex) of special and non-ASCII
/// characters makes of `s`.
pub uninterp spec fn html_escaped(s: Seq<u8>) -> Seq<u8>;

/// What HTML entity decoding makes of `s`.
pub uninterp spec fn html_unescaped(s: Seq<u8>) -> Seq<u8>;

/// `s` escaped in style `t`.
pub open spec fn escape_spec(s: Seq<u8>, t: EscType) -> Seq<u8> {
    match t {
        EscType::Generic | EscType::Single => ascii_escaped(s),
        EscType::Shell => chars_escaped(s, shell_chars()),
        EscType::Bash => chars_escaped(s, bash_chars()),
        EscType::BashSingle => bash_single_escaped(s),
        EscType::HTMLEntities => html_escaped(s),
    }
}

/// Relies on `<[u8]>::escape_ascii`: `\t`, `\r`, `\n`, `\\`, `\'`, `\"` for
/// those bytes, other printable ASCII unchanged, anything else as `\xNN` with
/// lowercase hex digits.
#[verifier::external_body]
fn escape_ascii_raw(s: &[u8]) -> (r: Vec<u8>)
    ensures
        r@ == ascii_escaped(s@),
{
    s.escape_ascii().collect()
}

/// Relies on htmlentity::entity::encode with `EncodeType::NamedOrHex` and
/// `CharacterSet::SpecialCharsAndNonASCII`; an empty input gives an empty output.
/// `into_bytes` does not panic: its iterator unwraps the next entity's start
/// only while entities remain, and that start is always set then.
#[verifier::external_body]
fn html_encode_raw(s: &[u8]) -> (r: Vec<u8>)
    ensures
        r@ == html_escaped(s@),
        s@.len() == 0 ==> r@.len() == 0,
{
    htmlentity::entity::encode(s, &EncodeType::NamedOrHex, &CharacterSet::SpecialCharsAndNonASCII).into_bytes()
}

/// Relies on htmlentity::entity::decode; an empty input gives an empty output.
/// `into_bytes` does not panic, as for the encoder.
#[verifier::external_body]
fn html_decode_raw(s: &[u8]) -> (r: Vec<u8>)
    ensures
        r@ == html_unescaped(s@),
        s@.len() == 0 ==> r@.len() == 0,
{
    htmlentity::entity::decode(s).into_bytes()
}

fn contains_byte(chars: &[u8], b: u8) -> (r: bool)
    ensures
        r == chars@.contains(b),
{
    let mut i: usize = 0;
    while i < chars.len()
        invariant
            i <= chars@.len(),
            forall|j: int| 0 <= j < i ==> chars@[j] != b,
        decreases chars@.len() - i,
    {
        if chars[i] == b {
            return true;
        }
        i = i + 1;
    }
    false
}

/// `s` with a backslash before each byte found in `chars`.
pub fn escape_chars(s: &[u8], chars: &[u8]) -> (r: Vec<u8>)
    ensures
        r@ == chars_escaped(s@, chars@),
{
    let mut res: Vec<u8> = Vec::with_capacity(s.len());
    let mut i: usize = 0;
    while i < s.len()
        invariant
            i <= s@.len(),
            res@ == chars_escaped(s@.subrange(0, i as int), chars@),
        decreases s@.len() - i,
    {
        assert(s@.subrange(0, i + 1).drop_last() =~= s@.subrange(0, i as int));
        if contains_byte(chars, s[i]) {
            res.push(0x5cu8);
        }
        res.push(s[i]);
        i = i + 1;
        assert(res@ =~= chars_escaped(s@.subrange(0, i as int), chars@));
    }
    assert(s@.subrange(0, i as int) =~= s@);
    res
}

/// `s` with each single quote written as `'"'"'`.
pub fn escape_bash_single(s: &[u8]) -> (r: Vec<u8>)
    ensures
        r@ == bash_single_escaped(s@),
{
    let mut res: Vec<u8> = Vec::with_capacity(s.len());
    let mut i: usize = 0;
    while i < s.len()
        invariant
            i <= s@.len(),
            res@ == bash_single_escaped(s@.subrange(0, i as int)),
        decreases s@.len() - i,
    {
        assert(s@.subrange(0, i + 1).drop_last() =~= s@.subrange(0, i as int));
        if s[i] == 0x27u8 {
            res.push(0x27u8);
            res.push(0x22u8);
            res.push(0x27u8);
            res.push(0x22u8);
            res.push(0x27u8);
        } else {
            res.push(s[i]);
        }
        i = i + 1;
        assert(res@ =~= bash_single_escaped(s@.subrange(0, i as int)));
    }
    assert(s@.subrange(0, i as int) =~= s@);
    res
}

/// `s` escaped in style `t`.
pub fn escape(s: &[u8], t: EscType) -> (r: Vec<u8>)
    ensures
        r@ == escape_spec(s@, t),
{
    match t {
        EscType::Generic | EscType::Single => escape_ascii_raw(s),
        EscType::Shell => {
            let chars: Vec<u8> = vec![0x60u8, 0x24u8, 0x22u8, 0x5cu8];
            escape_chars(s, chars.as_slice())
        },
        EscType::Bash => {
            let chars: Vec<u8> = vec![0x60u8, 0x24u8, 0x22u8, 0x5cu8, 0x21u8];
            escape_chars(s, chars.as_slice())
        },
        EscType::BashSingle => escape_bash_single(s),
        EscType::HTMLEntities => html_encode_raw(s),
    }
}

/// Escapes its input, wrapped in quotes unless told otherwise.
pub struct EscapeApplet {
    pub esc_type: EscType,
    pub no_quote: bool,
    pub no_detect: bool,
    pub multiline: bool,
}

impl EscapeApplet {
    pub fn new() -> (r: EscapeApplet)
        ensures
            r.esc_type == EscType::Generic,
            !r.no_quote && !r.no_detect && !r.multiline,
    {
        EscapeApplet { esc_type: EscType::Generic, no_quote: false, no_detect: false, multiline: false }
    }

    /// The quote the style uses when the input brings none.
    pub open spec fn default_quote(self) -> u8 {
        match self.esc_type {
            EscType::BashSingle | EscType::Single => 0x27u8,
            _ => 0x22u8,
        }
    }

    /// The text to escape (trimmed unless multiline).
    pub open spec fn input_spec(self, val: Seq<u8>) -> Seq<u8> {
        if self.multiline {
            val
        } else {
            trim_spec(val)
        }
    }

    /// The input is wrapped in a matching pair of quotes that are to be
    /// detected and put back around the result.
    pub open spec fn has_quotes(self, t: Seq<u8>) -> bool {
        !self.no_detect && t.len() >= 2 && t[0] == t.last() && (t[0] == 0x27u8 || t[0] == 0x22u8)
    }

    /// What [`EscapeApplet::process`] returns.
    pub open spec fn process_spec(self, val: Seq<u8>) -> Seq<u8> {
        let t = self.input_spec(val);
        let (q, body) = if self.has_quotes(t) {
            (t[0], t.subrange(1, t.len() - 1))
        } else {
            (self.default_quote(), t)
        };
        let escaped = escape_spec(body, self.esc_type);
        if self.no_quote {
            escaped
        } else {
            seq![q] + escaped + seq![q]
        }
    }

    /// Escapes `val`. Surrounding matching quotes (unless `no_detect`) are
    /// taken off, the rest escaped, and the quotes put back; without them the
    /// style's own quote is used. `no_quote` leaves the result bare.
    pub fn process(&self, val: Vec<u8>) -> (r: Vec<u8>)
        ensures
            r@ == self.process_spec(val@),
    {
        let t = if self.multiline {
            val
        } else {
            trim_bytes(val.as_slice())
        };
        let n = t.len();
        let default_q: u8 = match self.esc_type {
            EscType::BashSingle | EscType::Single => 0x27u8,
            _ => 0x22u8,
        };
        let detected = !self.no_detect && n >= 2 && t[0] == t[n - 1] && (t[0] == 0x27u8 || t[0] == 0x22u8);
        let escaped;
        let q;
        if detected {
            q = t[0];
            let body = vstd::slice::slice_subrange(t.as_slice(), 1, n - 1);
            escaped = escape(body, self.esc_type);
        } else {
            q = default_q;
            escaped = escape(t.as_slice(), self.esc_type);
        }
        if self.no_quote {
            escaped
        } else {
            let mut res: Vec<u8> = Vec::new();
            res.push(q);
            let mut i: usize = 0;
            while i < escaped.len()
                invariant
                    i <= escaped@.len(),
                    res@ == seq![q] + escaped@.subrange(0, i as int),
                decreases escaped@.len() - i,
            {
                res.push(escaped[i]);
                i = i + 1;
                assert(res@ =~= seq![q] + escaped@.subrange(0, i as int));
            }
            res.push(q);
            assert(escaped@.subrange(0, i as int) =~= escaped@);
            assert(res@ =~= seq![q] + escaped@ + seq![q]);
            res
        }
    }
}

/// Where the unescaper stands between two bytes.
#[derive(Clone, Copy, Debug, PartialEq, Eq, Structural)]
pub enum EscapeState {
    Normal,
    Backslash,
    Hex1,
    Hex2,
}

/// A `\x` escape whose two characters are not a hex number.
#[derive(Clone, Copy, Debug, PartialEq, Eq, Structural)]
pub enum UnescapeError {
    InvalidHexEscape,
}

/// The byte that the two characters after `\x` denote: two hex digits, or
/// `+` and one hex digit.
pub open spec fn pair_value(h1: u8, h2: u8) -> Option<u8> {
    if is_hex(h1) && is_hex(h2) {
        Some((hex_val(h1) * 16 + hex_val(h2)) as u8)
    } else if h1 == 0x2bu8 && is_hex(h2) {
        Some(hex_val(h2) as u8)
    } else {
        None
    }
}

/// `Some(x)` prefixed by `p`.
pub open spec fn prefix(p: Seq<u8>, r: Option<Seq<u8>>) -> Option<Seq<u8>> {
    match r {
        Some(x) => Some(p + x),
        None => None,
    }
}

/// Unescaping of `s` from position `i` in state `st` (`h` is the first digit
/// of a pending `\x` escape). `\t`, `\n`, `\r` and `\xNN` are decoded, any
/// other escaped byte stands for itself, and an escape cut off by the end of
/// the input is dropped.
pub open spec fn unescape_from(s: Seq<u8>, i: int, st: EscapeState, h: u8) -> Option<Seq<u8>>
    decreases s.len() - i,
{
    if i < 0 || i >= s.len() {
        Some(Seq::empty())
    } else {
        let c = s[i];
        match st {
            EscapeState::Normal => if c == 0x5cu8 {
                unescape_from(s, i + 1, EscapeState::Backslash, h)
            } else {
                prefix(seq![c], unescape_from(s, i + 1, EscapeState::Normal, h))
            },
            EscapeState::Backslash => if c == 0x78u8 {
                unescape_from(s, i + 1, EscapeState::Hex1, h)
            } else {
                let v = if c == 0x74u8 {
                    0x09u8
                } else if c == 0x6eu8 {
                    0x0au8
                } else if c == 0x72u8 {
                    0x0du8
                } else {
                    c
                };
                prefix(seq![v], unescape_from(s, i + 1, EscapeState::Normal, h))
            },
            EscapeState::Hex1 => unescape_from(s, i + 1, EscapeState::Hex2, c),
            EscapeState::Hex2 => match pair_value(h, c) {
                Some(v) => prefix(seq![v], unescape_from(s, i + 1, EscapeState::Normal, h)),
                None => None,
            },
        }
    }
}

fn pair_value_exec(h1: u8, h2: u8) -> (r: Option<u8>)
    ensures
        r == pair_value(h1, h2),
{
    if is_hex_byte(h1) && is_hex_byte(h2) {
        Some(hex_nibble(h1) * 16 + hex_nibble(h2))
    } else if h1 == 0x2bu8 && is_hex_byte(h2) {
        Some(hex_nibble(h2))
    } else {
        None
    }
}

fn hex_nibble(b: u8) -> (r: u8)
    requires
        is_hex(b),
    ensures
        r == hex_val(b),
        r < 16,
{
    if 0x30u8 <= b && b <= 0x39u8 {
        b - 0x30
    } else if 0x61u8 <= b && b <= 0x66u8 {
        b - 0x61 + 10
    } else {
        b - 0x41 + 10
    }
}

/// Backslash (or HTML entity) unescaping of its input.
pub struct UnEscapeApplet {
    pub multiline: bool,
    pub html_entities: bool,
}

impl UnEscapeApplet {
    pub fn new() -> (r: UnEscapeApplet)
        ensures
            !r.multiline && !r.html_entities,
    {
        UnEscapeApplet { multiline: false, html_entities: false }
    }

    /// What [`UnEscapeApplet::process`] returns (`None` for an error).
    pub open spec fn process_spec(self, val: Seq<u8>) -> Option<Seq<u8>> {
        let t = if self.multiline {
            val
        } else {
            trim_spec(val)
        };
        if self.html_entities {
            Some(html_unescaped(t))
        } else {
            unescape_from(t, 0, EscapeState::Normal, 0)
        }
    }

    pub fn process(&self, val: Vec<u8>) -> (r: Result<Vec<u8>, UnescapeError>)
        ensures
            r matches Ok(v) ==> self.process_spec(val@) == Some(v@),
            r is Err ==> self.process_spec(val@) is None,
    {
        let t = if self.multiline {
            val
        } else {
            trim_bytes(val.as_slice())
        };
        if self.html_entities {
            return Ok(html_decode_raw(t.as_slice()));
        }
        let mut res: Vec<u8> = Vec::with_capacity(t.len());
        let mut state = EscapeState::Normal;
        let mut h: u8 = 0;
        let mut i: usize = 0;
        while i < t.len()
            invariant
                !self.html_entities,
                i <= t@.len(),
                t@ == (if self.multiline {
                    val@
                } else {
                    trim_spec(val@)
                }),
                unescape_from(t@, 0, EscapeState::Normal, 0) == prefix(res@, unescape_from(t@, i as int, state, h)),
            decreases t@.len() - i,
        {
            let c = t[i];
            let ghost prev = res@;
            let ghost rest = unescape_from(t@, i + 1, EscapeState::Normal, h);
            match state {
                EscapeState::Normal => {
                    if c == 0x5cu8 {
                        state = EscapeState::Backslash;
                    } else {
                        res.push(c);
                        proof {
                            if let Some(x) = rest {
                                assert(prev + (seq![c] + x) =~= res@ + x);
                            }
                        }
                    }
                },
                EscapeState::Backslash => {
                    if c == 0x78u8 {
                        state = EscapeState::Hex1;
                    } else {
                        let v = if c == 0x74u8 {
                            0x09u8
                        } else if c == 0x6eu8 {
                            0x0au8
                        } else if c == 0x72u8 {
                            0x0du8
                        } else {
                            c
                        };
                        res.push(v);
                        state = EscapeState::Normal;
                        proof {
                            if let Some(x) = rest {
                                assert(prev + (seq![v] + x) =~= res@ + x);
                            }
                        }
                    }
                },
                EscapeState::Hex1 => {
                    h = c;
                    state = EscapeState::Hex2;
                },
                EscapeState::Hex2 => {
                    match pair_value_exec(h, c) {
                        Some(v) => {
                            res.push(v);
                            state = EscapeState::Normal;
                            proof {
                                if let Some(x) = rest {
                                    assert(prev + (seq![v] + x) =~= res@ + x);
                                }
                            }
                        },
                        None => {
                            assert(unescape_from(t@, i as int, state, h) is None);
                            return Err(UnescapeError::InvalidHexEscape);
                        },
                    }
                },
            }
            i = i + 1;
        }
        proof {
            assert(res@ + Seq::<u8>::empty() =~= res@);
        }
        Ok(res)
    }
}

} // verus!
