//! The offsets of a file slice: parsing `start`/`end` arguments and
//! resolving them against the file length.
use vstd::prelude::*;
use vstd::string::StrSliceExecFns;
use crate::radix::{parse_unsigned, u64_with_radix};

verus! {

/// An offset argument: plain, relative to the start (`+`), or counted back
/// from the end of the file (`-`).
#[derive(Clone, Copy, Debug, PartialEq, Eq, Structural)]
pub struct Position {
    pub offset: u64,
    pub relative: bool,
    pub from_end: bool,
}

/// Why a slice cannot be taken.
#[derive(Clone, Copy, Debug, PartialEq, Eq, Structural)]
pub enum SliceError {
    /// The argument is empty or not a number.
    InvalidValue,
    /// An offset from the end of the input was asked of an unseekable input.
    CannotSeekFromEnd,
    /// The start lies before the beginning of the file.
    StartBeforeBeginning,
    /// The start lies after the end of the file.
    StartAfterEnd,
    /// The end lies before the start.
    EndBeforeStart,
    /// The end lies after the end of the file.
    EndAfterEnd,
}

/// What an offset argument denotes.
pub open spec fn position_spec(s: Seq<char>) -> Option<Position> {
    if s.len() < 1 {
        None
    } else {
        let (from_end, relative, body) = if s[0] == '-' {
            (true, false, s.drop_first())
        } else if s[0] == '+' {
            (false, true, s.drop_first())
        } else {
            (false, false, s)
        };
        match parse_unsigned(body, u64::MAX as int) {
            Some(v) => Some(Position { offset: v as u64, relative, from_end }),
            None => None,
        }
    }
}

/// Parses an offset argument: an optional `-` (from the end) or `+`
/// (relative to the start), then a decimal, `0x` hex or `0o` octal number.
pub fn parse_value_with_prefix(s: &String) -> (r: Result<Position, SliceError>)
    ensures
        r matches Ok(p) ==> position_spec(s@) == Some(p),
        r is Err ==> position_spec(s@) is None && r == Err::<Position, SliceError>(SliceError::InvalidValue),
{
    let st = s.as_str();
    let n = st.unicode_len();
    if n < 1 {
        return Err(SliceError::InvalidValue);
    }
    let first = st.get_char(0);
    let (from_end, relative, body) = if first == '-' {
        (true, false, st.substring_char(1, n))
    } else if first == '+' {
        (false, true, st.substring_char(1, n))
    } else {
        (false, false, st.substring_char(0, n))
    };
    proof {
        assert(s@.subrange(0, n as int) =~= s@);
        assert(s@.subrange(1, n as int) =~= s@.drop_first());
    }
    match u64_with_radix(body) {
        Ok(offset) => Ok(Position { offset, relative, from_end }),
        Err(_) => Err(SliceError::InvalidValue),
    }
}

/// A slice of a file, or of standard input if the name is `-`.
pub struct SliceApplet {
    pub file: Option<String>,
    pub start: Position,
    pub end: Option<Position>,
}

/// Where to read on an input of known length: `len` bytes from `start`, or
/// everything from `start` if `len` is `None`.
pub open spec fn seekable_spec(start: Position, end: Option<Position>, flen: u64) -> Result<(u64, Option<u64>), SliceError> {
    if start.from_end && start.offset > flen {
        Err(SliceError::StartBeforeBeginning)
    } else {
        let s: int = if start.from_end {
            flen - start.offset
        } else {
            start.offset as int
        };
        if s > flen {
            Err(SliceError::StartAfterEnd)
        } else {
            match end {
                None => Ok((s as u64, None)),
                Some(e) => {
                    let en: int = if e.from_end {
                        flen - e.offset
                    } else if e.relative {
                        s + e.offset
                    } else {
                        e.offset as int
                    };
                    if en < s {
                        Err(SliceError::EndBeforeStart)
                    } else if en > flen {
                        Err(SliceError::EndAfterEnd)
                    } else {
                        Ok((s as u64, Some((en - s) as u64)))
                    }
                },
            }
        }
    }
}

/// Where to read on an input that can only be read forward: skip `start`
/// bytes, then read `len` bytes, or everything if `len` is `None`.
pub open spec fn unseekable_spec(start: Position, end: Option<Position>) -> Result<(u64, Option<u64>), SliceError> {
    if start.from_end || (end matches Some(e) && e.from_end) {
        Err(SliceError::CannotSeekFromEnd)
    } else {
        match end {
            None => Ok((start.offset, None)),
            Some(e) => {
                let en: int = if e.relative {
                    start.offset + e.offset
                } else {
                    e.offset as int
                };
                if en < start.offset {
                    Err(SliceError::EndBeforeStart)
                } else {
                    Ok((start.offset, Some((en - start.offset) as u64)))
                }
            },
        }
    }
}

impl SliceApplet {
    pub fn new() -> (r: SliceApplet)
        ensures
            r.file is None,
            r.start == (Position { offset: 0, relative: false, from_end: false }),
            r.end is None,
    {
        SliceApplet { file: None, start: Position { offset: 0, relative: false, from_end: false }, end: None }
    }

    /// The bytes to read from an input of length `flen`.
    pub fn seekable_range(&self, flen: u64) -> (r: Result<(u64, Option<u64>), SliceError>)
        ensures
            r == seekable_spec(self.start, self.end, flen),
    {
        if self.start.from_end && self.start.offset > flen {
            return Err(SliceError::StartBeforeBeginning);
        }
        let s: u64 = if self.start.from_end {
            flen - self.start.offset
        } else {
            self.start.offset
        };
        if s > flen {
            return Err(SliceError::StartAfterEnd);
        }
        match self.end {
            None => Ok((s, None)),
            Some(e) => {
                if e.from_end {
                    if e.offset > flen || flen - e.offset < s {
                        return Err(SliceError::EndBeforeStart);
                    }
                    Ok((s, Some(flen - e.offset - s)))
                } else if e.relative {
                    if e.offset > flen - s {
                        return Err(SliceError::EndAfterEnd);
                    }
                    Ok((s, Some(e.offset)))
                } else {
                    if e.offset < s {
                        return Err(SliceError::EndBeforeStart);
                    }
                    if e.offset > flen {
                        return Err(SliceError::EndAfterEnd);
                    }
                    Ok((s, Some(e.offset - s)))
                }
            },
        }
    }

    /// The bytes to read from an input that can only be read forward.
    pub fn unseekable_range(&self) -> (r: Result<(u64, Option<u64>), SliceError>)
        ensures
            r == unseekable_spec(self.start, self.end),
    {
        if self.start.from_end {
            return Err(SliceError::CannotSeekFromEnd);
        }
        match self.end {
            None => Ok((self.start.offset, None)),
            Some(e) => {
                if e.from_end {
                    return Err(SliceError::CannotSeekFromEnd);
                }
                if e.relative {
                    Ok((self.start.offset, Some(e.offset)))
                } else if e.offset < self.start.offset {
                    Err(SliceError::EndBeforeStart)
                } else {
                    Ok((self.start.offset, Some(e.offset - self.start.offset)))
                }
            },
        }
    }
}

} // verus!
