//! Raw deflate and zlib compression and decompression.
use vstd::prelude::*;

verus! {

/// The container of compressed data.
#[derive(Clone, Copy, Debug, PartialEq, Eq, Structural)]
pub enum DataFormat {
    /// A bare deflate stream.
    Raw,
    /// A deflate stream with a zlib header and checksum.
    Zlib,
}

/// What raw deflate compression of `s` at `level` gives.
pub uninterp spec fn deflated_raw(level: u8, s: Seq<u8>) -> Seq<u8>;

/// What zlib-wrapped deflate compression of `s` at `level` gives.
pub uninterp spec fn deflated_zlib(level: u8, s: Seq<u8>) -> Seq<u8>;

/// What raw deflate decompression of `s` gives: the output (partial if it
/// failed), and whether the stream was complete and valid.
pub uninterp spec fn inflated_raw(s: Seq<u8>) -> (Seq<u8>, bool);

/// What zlib decompression of `s` gives, as for [`inflated_raw`].
pub uninterp spec fn inflated_zlib(s: Seq<u8>) -> (Seq<u8>, bool);

/// Compression of `s` in `format` at `level`.
pub open spec fn deflated(format: DataFormat, level: u8, s: Seq<u8>) -> Seq<u8> {
    match format {
        DataFormat::Raw => deflated_raw(level, s),
        DataFormat::Zlib => deflated_zlib(level, s),
    }
}

/// Decompression of `s` in `format`.
pub open spec fn inflated(format: DataFormat, s: Seq<u8>) -> (Seq<u8>, bool) {
    match format {
        DataFormat::Raw => inflated_raw(s),
        DataFormat::Zlib => inflated_zlib(s),
    }
}

/// Relies on miniz_oxide::deflate::compress_to_vec.
#[verifier::external_body]
fn compress_raw(level: u8, s: &[u8]) -> (r: Vec<u8>)
    ensures
        r@ == deflated_raw(level, s@),
{
    miniz_oxide::deflate::compress_to_vec(s, level)
}

/// Relies on miniz_oxide::deflate::compress_to_vec_zlib.
#[verifier::external_body]
fn compress_zlib(level: u8, s: &[u8]) -> (r: Vec<u8>)
    ensures
        r@ == deflated_zlib(level, s@),
{
    miniz_oxide::deflate::compress_to_vec_zlib(s, level)
}

/// Relies on miniz_oxide::inflate::decompress_to_vec; its error holds the
/// output so far.
#[verifier::external_body]
fn decompress_raw(s: &[u8]) -> (r: (Vec<u8>, bool))
    ensures
        (r.0@, r.1) == inflated_raw(s@),
{
    match miniz_oxide::inflate::decompress_to_vec(s) {
        Ok(v) => (v, true),
        Err(e) => (e.output, false),
    }
}

/// Relies on miniz_oxide::inflate::decompress_to_vec_zlib; its error holds
/// the output so far.
#[verifier::external_body]
fn decompress_zlib(s: &[u8]) -> (r: (Vec<u8>, bool))
    ensures
        (r.0@, r.1) == inflated_zlib(s@),
{
    match miniz_oxide::inflate::decompress_to_vec_zlib(s) {
        Ok(v) => (v, true),
        Err(e) => (e.output, false),
    }
}

/// Compresses its input.
pub struct DeflateApplet {
    pub format: DataFormat,
    pub level: u8,
}

impl DeflateApplet {
    pub fn new() -> (r: DeflateApplet)
        ensures
            r.format == DataFormat::Raw,
            r.level == 6,
    {
        DeflateApplet { format: DataFormat::Raw, level: 6 }
    }

    pub fn process(&self, val: Vec<u8>) -> (r: Vec<u8>)
        ensures
            r@ == deflated(self.format, self.level, val@),
    {
        match self.format {
            DataFormat::Raw => compress_raw(self.level, val.as_slice()),
            DataFormat::Zlib => compress_zlib(self.level, val.as_slice()),
        }
    }
}

/// Decompresses its input; on a damaged stream the output so far is kept.
pub struct InflateApplet {
    pub format: DataFormat,
    pub quiet: bool,
}

impl InflateApplet {
    pub fn new() -> (r: InflateApplet)
        ensures
            r.format == DataFormat::Raw,
            !r.quiet,
    {
        InflateApplet { format: DataFormat::Raw, quiet: false }
    }

    /// The decompressed bytes (partial if the stream is damaged), and whether
    /// the stream was whole.
    pub fn process(&self, val: Vec<u8>) -> (r: (Vec<u8>, bool))
        ensures
            (r.0@, r.1) == inflated(self.format, val@),
    {
        match self.format {
            DataFormat::Raw => decompress_raw(val.as_slice()),
            DataFormat::Zlib => decompress_zlib(val.as_slice()),
        }
    }
}

} // verus!
