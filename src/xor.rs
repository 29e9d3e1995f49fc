//! XOR of a buffer with a repeating key.
use vstd::prelude::*;
use crate::error::{DecodeError, res_view};
use crate::hex::{hex_decode_strict, hex_strict};
use crate::hexapp::{remove_spaces, without_spaces};

verus! {

/// Each byte of `val` XORed with the key byte at the same position, the key
/// repeating; an empty key gives an empty result.
pub open spec fn xor_spec(val: Seq<u8>, key: Seq<u8>) -> Seq<u8> {
    if key.len() == 0 {
        Seq::empty()
    } else {
        Seq::new(val.len(), |i: int| val[i] ^ key[i % (key.len() as int)])
    }
}

/// XOR with a key undoes itself: for every buffer `val` and non-empty key,
/// XORing twice with the key gives back `val`.
pub proof fn lemma_xor_twice(val: Seq<u8>, key: Seq<u8>)
    requires
        key.len() > 0,
    ensures
        xor_spec(xor_spec(val, key), key) == val,
{
    let once = xor_spec(val, key);
    assert forall|i: int| 0 <= i < val.len() implies #[trigger] xor_spec(once, key)[i] == val[i] by {
        let a = val[i];
        let k = key[i % (key.len() as int)];
        assert((a ^ k) ^ k == a) by (bit_vector);
    }
    assert(xor_spec(once, key) =~= val);
}

/// XOR of the input with a repeating key.
pub struct XorApplet {
    pub key_bytes: Vec<u8>,
}

impl XorApplet {
    pub fn new() -> (r: XorApplet)
        ensures
            r.key_bytes@.len() == 0,
    {
        XorApplet { key_bytes: Vec::new() }
    }

    /// A key given as hex text; spaces in it are ignored.
    pub fn from_hex_key(key: &[u8]) -> (r: Result<XorApplet, DecodeError>)
        ensures
            res_view(
                match r {
                    Ok(x) => Ok(x.key_bytes),
                    Err(e) => Err(e),
                },
            ) == hex_strict(without_spaces(key@)),
    {
        let packed = remove_spaces(key);
        match hex_decode_strict(packed.as_slice()) {
            Ok(k) => Ok(XorApplet { key_bytes: k }),
            Err(e) => Err(e),
        }
    }

    pub fn process(&self, val: Vec<u8>) -> (r: Vec<u8>)
        ensures
            r@ == xor_spec(val@, self.key_bytes@),
    {
        let klen = self.key_bytes.len();
        let mut out: Vec<u8> = Vec::new();
        if klen == 0 {
            return out;
        }
        let mut i: usize = 0;
        let mut k: usize = 0;
        while i < val.len()
            invariant
                klen == self.key_bytes@.len(),
                klen > 0,
                i <= val@.len(),
                k == i % klen,
                out@ =~= Seq::new(i as nat, |j: int| val@[j] ^ self.key_bytes@[j % klen as int]),
            decreases val@.len() - i,
        {
            out.push(val[i] ^ self.key_bytes[k]);
            proof {
                let ii = i as int;
                let kk = k as int;
                let n = klen as int;
                assert((ii + 1) % n == if kk + 1 == n { 0 } else { kk + 1 }) by (nonlinear_arith)
                    requires
                        kk == ii % n,
                        n > 0,
                        0 <= kk < n,
                ;
            }
            i = i + 1;
            k = if k + 1 == klen {
                0
            } else {
                k + 1
            };
        }
        out
    }
}

} // verus!
