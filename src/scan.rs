//! The hex scanner: decodes every hex-digit pair found anywhere in a buffer
//! and copies all other bytes through.
use vstd::prelude::*;
use vstd::slice::slice_subrange;
use crate::hex::{hex_decode_strict, hex_pairs, hex_val, is_hex, is_hex_byte, lemma_all_hex};

verus! {

/// Left to right: a pair of hex digits gives one byte and is skipped over,
/// any other byte (and a lone last byte) is copied.
pub open spec fn hex_all(s: Seq<u8>) -> Seq<u8>
    decreases s.len(),
{
    if s.len() < 2 {
        s
    } else if is_hex(s[0]) && is_hex(s[1]) {
        seq![(hex_val(s[0]) * 16 + hex_val(s[1])) as u8] + hex_all(s.subrange(2, s.len() as int))
    } else {
        seq![s[0]] + hex_all(s.drop_first())
    }
}

proof fn lemma_hex_all_len(s: Seq<u8>)
    ensures
        hex_all(s).len() <= s.len(),
    decreases s.len(),
{
    if s.len() >= 2 {
        if is_hex(s[0]) && is_hex(s[1]) {
            lemma_hex_all_len(s.subrange(2, s.len() as int));
        } else {
            lemma_hex_all_len(s.drop_first());
        }
    }
}

/// Decodes every hex pair in `s`; never fails.
pub fn hex_decode_all(s: &[u8]) -> (r: Vec<u8>)
    ensures
        r@ == hex_all(s@),
        r@.len() <= s@.len(),
{
    let n = s.len();
    let mut out: Vec<u8> = Vec::with_capacity(n);
    let mut i: usize = 0;
    assert(s@.subrange(0, n as int) =~= s@);
    while i < n && n - i >= 2
        invariant
            n == s@.len(),
            i <= n,
            hex_all(s@) == out@ + hex_all(s@.subrange(i as int, n as int)),
        decreases n - i,
    {
        let rest = Ghost(s@.subrange(i as int, n as int));
        if is_hex_byte(s[i]) && is_hex_byte(s[i + 1]) {
            let pair = slice_subrange(s, i, i + 2);
            proof {
                lemma_all_hex(pair@);
            }
            let d = hex_decode_strict(pair);
            match d {
                Ok(v) => {
                    proof {
                        assert(v@ == hex_pairs(pair@));
                        assert(v@ =~= seq![(hex_val(s@[i as int]) * 16 + hex_val(s@[i + 1])) as u8]);
                        assert(rest@.subrange(2, rest@.len() as int) =~= s@.subrange(i + 2, n as int));
                        assert(out@ + v@ + hex_all(s@.subrange(i + 2, n as int)) =~= out@ + (v@ + hex_all(s@.subrange(i + 2, n as int))));
                    }
                    let ghost prev = out@;
                    out.push(v[0]);
                    assert(out@ =~= prev + v@);
                },
                Err(_) => {},
            }
            i = i + 2;
        } else {
            proof {
                assert(rest@.drop_first() =~= s@.subrange(i + 1, n as int));
                assert(out@ + seq![s@[i as int]] + hex_all(s@.subrange(i + 1, n as int)) =~= out@ + (seq![s@[i as int]] + hex_all(s@.subrange(i + 1, n as int))));
            }
            out.push(s[i]);
            i = i + 1;
        }
    }
    if i < n {
        out.push(s[i]);
        proof {
            assert(s@.subrange(i as int, n as int) =~= seq![s@[i as int]]);
        }
    }
    proof {
        lemma_hex_all_len(s@);
    }
    out
}

} // verus!
