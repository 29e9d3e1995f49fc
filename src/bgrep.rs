//! Binary grep: the search pattern and the offsets where it matches.
use vstd::prelude::*;
use regex::bytes::RegexBuilder;

verus! {

/// The regex text for a hex pattern of even length: `\x` before each pair.
pub open spec fn hex_regex(p: Seq<u8>) -> Seq<u8>
    decreases p.len(),
{
    if p.len() < 2 {
        Seq::empty()
    } else {
        hex_regex(p.subrange(0, p.len() - 2)) + seq![0x5cu8, 0x78u8, p[p.len() - 2], p[p.len() - 1]]
    }
}

/// The regex text for a hex pattern; `None` if its length is odd.
pub fn hex_pattern(p: &[u8]) -> (r: Option<Vec<u8>>)
    ensures
        r is None <==> p@.len() % 2 != 0,
        r matches Some(v) ==> v@ == hex_regex(p@),
{
    let n = p.len();
    if n % 2 != 0 {
        return None;
    }
    let mut out: Vec<u8> = Vec::new();
    let mut i: usize = 0;
    while i < n
        invariant
            n == p@.len(),
            n % 2 == 0,
            i % 2 == 0,
            i <= n,
            out@ == hex_regex(p@.subrange(0, i as int)),
        decreases n - i,
    {
        assert(p@.subrange(0, i + 2).subrange(0, i as int) =~= p@.subrange(0, i as int));
        out.push(0x5cu8);
        out.push(0x78u8);
        out.push(p[i]);
        out.push(p[i + 1]);
        i = i + 2;
        assert(out@ =~= hex_regex(p@.subrange(0, i as int)));
    }
    assert(p@.subrange(0, n as int) =~= p@);
    Some(out)
}

/// The starts of the successive non-overlapping matches of the regex
/// `pattern` (Unicode off, `.` matching newlines) in `data`; `None` if the
/// pattern is not a valid regex.
pub uninterp spec fn regex_match_starts(pattern: Seq<u8>, data: Seq<u8>) -> Option<Seq<usize>>;

/// Relies on regex::bytes::RegexBuilder with `unicode(false)` and
/// `dot_matches_new_line(true)`, and on Regex::find_iter.
#[verifier::external_body]
fn match_starts(pattern: &[u8], data: &[u8]) -> (r: Option<Vec<usize>>)
    ensures
        r matches Some(v) ==> regex_match_starts(pattern@, data@) == Some(v@),
        r is None ==> regex_match_starts(pattern@, data@) is None,
{
    let text = std::str::from_utf8(pattern).ok()?;
    let mut builder = RegexBuilder::new(text);
    builder.unicode(false);
    builder.dot_matches_new_line(true);
    let re = builder.build().ok()?;
    Some(re.find_iter(data).map(|m| m.start()).collect())
}

/// Searches files for a binary pattern.
pub struct BgrepApplet {
    pub files: Option<Vec<String>>,
    pub pattern: Option<Vec<u8>>,
    pub verbose: bool,
    pub recursive: bool,
}

impl BgrepApplet {
    pub fn new() -> (r: BgrepApplet)
        ensures
            r.files is None,
            r.pattern is None,
            !r.verbose && !r.recursive,
    {
        BgrepApplet { files: None, pattern: None, verbose: false, recursive: false }
    }

    /// Where the pattern matches in `data`; `None` without a valid pattern.
    pub fn offsets(&self, data: &[u8]) -> (r: Option<Vec<usize>>)
        ensures
            self.pattern is None ==> r is None,
            self.pattern matches Some(p) ==> (match r {
                Some(v) => regex_match_starts(p@, data@) == Some(v@),
                None => regex_match_starts(p@, data@) is None,
            }),
    {
        match &self.pattern {
            Some(p) => match_starts(p.as_slice(), data),
            None => None,
        }
    }

    /// Matches are printed with their file name when several files may be searched.
    pub fn many(&self) -> (r: bool)
        ensures
            r == (self.recursive || (self.files matches Some(f) && f@.len() > 1)),
    {
        match &self.files {
            Some(f) => self.recursive || f.len() > 1,
            None => self.recursive,
        }
    }
}

} // verus!
