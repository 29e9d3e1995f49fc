//! Byte-buffer transformation toolbox.
//!
//! The core is the tolerant decoding engine: [`recover`] decodes hex or
//! base64 strictly or leniently (decoding the longest valid prefix and copying
//! the rest), on top of the strict codecs in [`hex`] and [`b64`]; [`scan`]
//! decodes hex pairs found anywhere in a buffer. The other modules hold the
//! smaller tools: encoders, URL and backslash escaping, XOR, checksums,
//! radix conversion, timestamps, compression, file slicing and search.

pub mod trim;
pub mod error;
pub mod hex;
pub mod b64;
pub mod recover;
pub mod scan;
pub mod hexapp;
pub mod b64app;
pub mod url;
pub mod xor;
pub mod pattern;
pub mod radix;
pub mod escape;
pub mod checksum;
pub mod slice;
pub mod timestamp;
pub mod base;
pub mod flate;
pub mod entropy;
pub mod bgrep;
pub mod findso;
