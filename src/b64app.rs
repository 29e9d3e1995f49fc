//! The base64 encoder and decoder.
use vstd::prelude::*;
use crate::b64::{Alphabet, b64_encode, b64_encoded};
use crate::error::{DecodeError, DecodeMode, res_view};
use crate::recover::{Codec, decode, decode_spec};

verus! {

/// Padded base64 encoding over an alphabet.
pub struct B64EncApplet {
    pub alphabet: Alphabet,
}

impl B64EncApplet {
    pub fn new() -> (r: B64EncApplet)
        ensures
            r.alphabet == Alphabet::Standard,
    {
        B64EncApplet { alphabet: Alphabet::Standard }
    }

    pub fn process(&self, val: Vec<u8>) -> (r: Vec<u8>)
        ensures
            r@ == b64_encoded(self.alphabet.symbols(), val@),
    {
        b64_encode(&self.alphabet, val.as_slice())
    }
}

/// Base64 decoding over an alphabet, strict or lenient.
pub struct B64DecApplet {
    pub alphabet: Alphabet,
    pub strict: bool,
}

impl B64DecApplet {
    pub fn new() -> (r: B64DecApplet)
        ensures
            r.alphabet == Alphabet::Standard,
            !r.strict,
    {
        B64DecApplet { alphabet: Alphabet::Standard, strict: false }
    }

    pub open spec fn mode(self) -> DecodeMode {
        if self.strict {
            DecodeMode::Strict
        } else {
            DecodeMode::Lenient
        }
    }

    /// Decodes `val`; lenient decoding fails only on misplaced padding.
    pub fn process(&self, val: Vec<u8>) -> (r: Result<Vec<u8>, DecodeError>)
        ensures
            res_view(r) == decode_spec(Codec::Base64(&self.alphabet), val@, self.mode()),
            !self.strict && r is Err ==> r->Err_0 is InvalidPadding,
    {
        let mode = if self.strict {
            DecodeMode::Strict
        } else {
            DecodeMode::Lenient
        };
        decode(&Codec::Base64(&self.alphabet), val.as_slice(), mode)
    }
}

} // verus!
