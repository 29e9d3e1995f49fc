//! Decoding policies and the errors a decoder reports.
use vstd::prelude::*;

verus! {

/// How a decoder treats malformed input.
#[derive(Clone, Copy, Debug, PartialEq, Eq, Structural)]
pub enum DecodeMode {
    /// Fail on the first malformed unit.
    Strict,
    /// Decode the longest valid prefix and copy the rest through unchanged.
    Lenient,
}

/// Why a strict decode failed.
#[derive(Clone, Copy, Debug, PartialEq, Eq, Structural)]
pub enum DecodeError {
    /// The trimmed input is not a whole number of units.
    InvalidLength,
    /// The unit starting at `offset` holds a byte the codec does not accept.
    InvalidSymbol { offset: usize },
    /// Padding stands somewhere other than in a trailing run.
    InvalidPadding,
}

impl DecodeError {
    /// A readable message naming the error kind.
    pub fn message(&self) -> String {
        match self {
            DecodeError::InvalidLength => String::from_str("invalid length"),
            DecodeError::InvalidSymbol { .. } => String::from_str("invalid symbol"),
            DecodeError::InvalidPadding => String::from_str("invalid padding"),
        }
    }
}

/// The value view of a decoder's result.
pub open spec fn res_view(r: Result<Vec<u8>, DecodeError>) -> Result<Seq<u8>, DecodeError> {
    match r {
        Ok(v) => Ok(v@),
        Err(e) => Err(e),
    }
}

/// A failed result.
pub open spec fn fail(e: DecodeError) -> Result<Seq<u8>, DecodeError> {
    Err(e)
}

/// A successful result.
pub open spec fn success(d: Seq<u8>) -> Result<Seq<u8>, DecodeError> {
    Ok(d)
}

/// Appends `tail` to a successful result; errors pass through.
pub open spec fn append_ok(r: Result<Seq<u8>, DecodeError>, tail: Seq<u8>) -> Result<
    Seq<u8>,
    DecodeError,
> {
    match r {
        Ok(d) => Ok(d + tail),
        Err(e) => Err(e),
    }
}

} // verus!
