use rsbkb::b64::{b64_decode_strict, Alphabet};
use rsbkb::b64app::{B64DecApplet, B64EncApplet};
use rsbkb::error::{DecodeError, DecodeMode};
use rsbkb::recover::{decode, Codec};

#[test]
fn test_b64_inv_lenient() {
    let d64 = B64DecApplet {
        strict: false,
        alphabet: Alphabet::Standard,
    };
    assert_eq!(
        "::::".as_bytes().to_vec(),
        d64.process("::::".as_bytes().to_vec()).unwrap()
    );
}

#[test]
fn b64_strict_invalid_symbol_at_start() {
    let d64 = B64DecApplet {
        strict: true,
        alphabet: Alphabet::Standard,
    };
    assert_eq!(
        d64.process("::::".as_bytes().to_vec()),
        Err(DecodeError::InvalidSymbol { offset: 0 })
    );
}

#[test]
fn test_b64_enc() {
    let b64 = B64EncApplet {
        alphabet: Alphabet::Standard,
    };
    assert_eq!("".as_bytes().to_vec(), b64.process("".as_bytes().to_vec()));
    assert_eq!("Zg==".as_bytes().to_vec(), b64.process("f".as_bytes().to_vec()));
    assert_eq!("Zm8=".as_bytes().to_vec(), b64.process("fo".as_bytes().to_vec()));
    assert_eq!("Zm9v".as_bytes().to_vec(), b64.process("foo".as_bytes().to_vec()));
    assert_eq!("Zm9vYg==".as_bytes().to_vec(), b64.process("foob".as_bytes().to_vec()));
    assert_eq!("Zm9vYmE=".as_bytes().to_vec(), b64.process("fooba".as_bytes().to_vec()));
    assert_eq!("Zm9vYmFy".as_bytes().to_vec(), b64.process("foobar".as_bytes().to_vec()));

    let test = [0x14, 0xfb, 0x9c, 0x03, 0xd9, 0x7e].to_vec();
    assert_eq!("FPucA9l+".as_bytes().to_vec(), b64.process(test));
}

#[test]
fn test_b64_url_enc() {
    let b64 = B64EncApplet {
        alphabet: Alphabet::UrlSafe,
    };
    assert_eq!("".as_bytes().to_vec(), b64.process("".as_bytes().to_vec()));
    assert_eq!("Zg==".as_bytes().to_vec(), b64.process("f".as_bytes().to_vec()));
    assert_eq!("Zm8=".as_bytes().to_vec(), b64.process("fo".as_bytes().to_vec()));
    assert_eq!("Zm9v".as_bytes().to_vec(), b64.process("foo".as_bytes().to_vec()));
    assert_eq!("Zm9vYg==".as_bytes().to_vec(), b64.process("foob".as_bytes().to_vec()));
    assert_eq!("Zm9vYmE=".as_bytes().to_vec(), b64.process("fooba".as_bytes().to_vec()));
    assert_eq!("Zm9vYmFy".as_bytes().to_vec(), b64.process("foobar".as_bytes().to_vec()));
    assert_eq!("ZZ-A".as_bytes().to_vec(), b64.process([0x65, 0x9F, 0x80].to_vec()));

    let test = [0x14, 0xfb, 0x9c, 0x03, 0xd9, 0x7e].to_vec();
    assert_eq!("FPucA9l-".as_bytes().to_vec(), b64.process(test));
}

#[test]
fn test_encode_and_back() {
    let b64 = B64EncApplet {
        alphabet: Alphabet::Standard,
    };
    let d64 = B64DecApplet {
        strict: true,
        alphabet: Alphabet::Standard,
    };

    let to_enc = [0x74, 0x65, 0x73, 0x74, 0x52, 0xaf, 0x20].to_vec();
    assert_eq!(to_enc, d64.process(b64.process(to_enc.clone())).unwrap());
}

#[test]
fn test_encode_and_back_url() {
    let b64 = B64EncApplet {
        alphabet: Alphabet::UrlSafe,
    };
    let d64 = B64DecApplet {
        strict: true,
        alphabet: Alphabet::UrlSafe,
    };

    let to_enc = [0x74, 0x65, 0x73, 0x74, 0x52, 0xaf, 0x20].to_vec();
    assert_eq!(to_enc, d64.process(b64.process(to_enc.clone())).unwrap());
}

#[test]
fn rfc4648_vectors_decode_strictly() {
    let vectors: [(&str, &str); 7] = [
        ("", ""),
        ("f", "Zg=="),
        ("fo", "Zm8="),
        ("foo", "Zm9v"),
        ("foob", "Zm9vYg=="),
        ("fooba", "Zm9vYmE="),
        ("foobar", "Zm9vYmFy"),
    ];
    for alphabet in [Alphabet::Standard, Alphabet::UrlSafe] {
        let d64 = B64DecApplet { strict: true, alphabet };
        for (plain, encoded) in vectors.iter() {
            assert_eq!(d64.process(encoded.as_bytes().to_vec()).unwrap(), plain.as_bytes().to_vec());
        }
    }
}

#[test]
fn round_trip_every_length_and_alphabet() {
    let custom = "zyxwvutsrqponmlkjihgfedcbaZYXWVUTSRQPONMLKJIHGFEDCBA9876543210._";
    let data: Vec<u8> = (0u16..200).map(|i| ((i * 71 + 5) % 256) as u8).collect();
    for which in 0..3 {
        for n in 0..data.len() {
            let alphabet = match which {
                0 => Alphabet::Standard,
                1 => Alphabet::UrlSafe,
                _ => Alphabet::custom(custom.to_string()).unwrap(),
            };
            let enc = B64EncApplet { alphabet };
            let text = enc.process(data[..n].to_vec());
            let codec = Codec::Base64(&enc.alphabet);
            assert_eq!(decode(&codec, &text, DecodeMode::Strict).unwrap(), data[..n].to_vec());
        }
    }
}

#[test]
fn custom_alphabet_validation() {
    let good = "zyxwvutsrqponmlkjihgfedcbaZYXWVUTSRQPONMLKJIHGFEDCBA9876543210._";
    assert!(Alphabet::custom(good.to_string()).is_some());
    assert!(Alphabet::custom(good[1..].to_string()).is_none());
    let with_pad = good.replace('_', "=");
    assert!(Alphabet::custom(with_pad).is_none());
    let dup = good.replace('_', ".");
    assert!(Alphabet::custom(dup).is_none());
    let unprintable = good.replace('_', "\t");
    assert!(Alphabet::custom(unprintable).is_none());
}

#[test]
fn custom_alphabet_encodes_with_its_symbols() {
    let custom = "zyxwvutsrqponmlkjihgfedcbaZYXWVUTSRQPONMLKJIHGFEDCBA9876543210._";
    let enc = B64EncApplet { alphabet: Alphabet::custom(custom.to_string()).unwrap() };
    // "f" is 011001 10(0000): symbols 25 and 32, then padding.
    assert_eq!(enc.process(b"f".to_vec()), b"aT==".to_vec());
}

#[test]
fn b64_lenient_alignment_and_symbol_recovery() {
    let d64 = B64DecApplet { strict: false, alphabet: Alphabet::Standard };
    assert_eq!(d64.process(b"Zm9vYg".to_vec()).unwrap(), b"fooYg".to_vec());
    assert_eq!(d64.process(b"Zm9v!!!!Zm9v".to_vec()).unwrap(), b"foo!!!!Zm9v".to_vec());
    assert_eq!(d64.process(b"  Zm9v  ".to_vec()).unwrap(), b"foo".to_vec());
    assert_eq!(d64.process(b"".to_vec()).unwrap(), Vec::<u8>::new());
    assert_eq!(d64.process(b"Zg".to_vec()).unwrap(), b"Zg".to_vec());
    // The head left by the alignment split is not trimmed again.
    assert_eq!(d64.process(b"Zm9v\t\t\t\tY".to_vec()).unwrap(), b"foo\t\t\t\tY".to_vec());
}

#[test]
fn b64_misplaced_padding_is_fatal_in_both_modes() {
    for strict in [true, false] {
        let d64 = B64DecApplet { strict, alphabet: Alphabet::Standard };
        assert_eq!(d64.process(b"Zg=a".to_vec()), Err(DecodeError::InvalidPadding));
        assert_eq!(d64.process(b"Zm9vZg=aZm9v".to_vec()), Err(DecodeError::InvalidPadding));
        assert_eq!(d64.process(b"Zg==".to_vec()).unwrap(), b"f".to_vec());
    }
    let lenient = B64DecApplet { strict: false, alphabet: Alphabet::Standard };
    // A bad symbol before the padding splices as usual.
    assert_eq!(lenient.process(b"Zm9v:g=a".to_vec()).unwrap(), b"foo:g=a".to_vec());
}

#[test]
fn b64_lenient_never_fails_on_noise() {
    let noise: Vec<u8> = (0u16..300).map(|i| ((i * 53 + 7) % 256) as u8).collect();
    let d64 = B64DecApplet { strict: false, alphabet: Alphabet::Standard };
    for n in 0..noise.len() {
        let r = d64.process(noise[..n].to_vec());
        assert!(r.is_ok() || r == Err(DecodeError::InvalidPadding));
    }
    let no_pad: Vec<u8> = noise.iter().copied().filter(|&b| b != b'=').collect();
    for n in 0..no_pad.len() {
        assert!(d64.process(no_pad[..n].to_vec()).is_ok());
    }
}

#[test]
fn b64_strict_errors() {
    let d64 = B64DecApplet { strict: true, alphabet: Alphabet::Standard };
    assert_eq!(d64.process(b"Zm9vY".to_vec()), Err(DecodeError::InvalidLength));
    assert_eq!(d64.process(b" Zm:v".to_vec()), Err(DecodeError::InvalidSymbol { offset: 3 }));
    assert_eq!(d64.process(b"Zg=a".to_vec()), Err(DecodeError::InvalidPadding));
    // Trailing bits are tolerated.
    assert_eq!(d64.process(b"Zh==".to_vec()).unwrap(), b"f".to_vec());
}

#[test]
fn strict_base64_codec_reports_offsets() {
    assert_eq!(
        b64_decode_strict(&Alphabet::Standard, b"Zm9v*m9v"),
        Err(DecodeError::InvalidSymbol { offset: 4 })
    );
    assert_eq!(b64_decode_strict(&Alphabet::UrlSafe, b"-_-_"), Ok(vec![0xfb, 0xff, 0xbf]));
}
