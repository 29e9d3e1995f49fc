use rsbkb::error::DecodeError;
use rsbkb::hex::{hex_decode_strict, hex_encode};
use rsbkb::hexapp::{HexApplet, UnHexApplet};
use rsbkb::recover::{decode, Codec};
use rsbkb::error::DecodeMode;
use rsbkb::scan::hex_decode_all;

#[test]
fn test_hex() {
    let hex = HexApplet {};
    assert_eq!(
        String::from_utf8(hex.process([0, 0xFF].to_vec())).unwrap(),
        "00ff"
    );
}

#[test]
fn test_unhex_hexonly() {
    let unhex = UnHexApplet {
        strict: false,
        hexonly: true,
    };
    assert_eq!(
        unhex
            .process("01 23 45 67 89 ab cd ef".as_bytes().to_vec())
            .unwrap(),
        [0x01, 0x23, 0x45, 0x67, 0x89, 0xab, 0xcd, 0xef]
    );
    assert_eq!(
        unhex
            .process("0123456789abcdef".as_bytes().to_vec())
            .unwrap(),
        [0x01, 0x23, 0x45, 0x67, 0x89, 0xab, 0xcd, 0xef]
    );
}

#[test]
fn test_unhex() {
    let unhex = UnHexApplet {
        strict: false,
        hexonly: false,
    };
    assert_eq!(
        unhex.process("test52af ".as_bytes().to_vec()).unwrap(),
        [0x74, 0x65, 0x73, 0x74, 0x52, 0xaf, 0x20]
    );
    assert_eq!(
        unhex.process("test52af".as_bytes().to_vec()).unwrap(),
        [0x74, 0x65, 0x73, 0x74, 0x52, 0xaf]
    );
    assert_eq!(
        unhex.process("!52af".as_bytes().to_vec()).unwrap(),
        [0x21, 0x52, 0xaf]
    );
    assert_eq!(
        unhex.process("!5 2af".as_bytes().to_vec()).unwrap(),
        [0x21, 0x35, 0x20, 0x2a, 0x66]
    );
}

#[test]
fn hex_only_strict_reports_bad_pair() {
    let unhex = UnHexApplet {
        strict: true,
        hexonly: true,
    };
    assert_eq!(
        unhex.process(b"01at".to_vec()),
        Err(DecodeError::InvalidSymbol { offset: 2 })
    );
}

#[test]
fn hex_only_strict_offset_counts_leading_whitespace() {
    let unhex = UnHexApplet {
        strict: true,
        hexonly: true,
    };
    assert_eq!(
        unhex.process(b"  01at\n".to_vec()),
        Err(DecodeError::InvalidSymbol { offset: 4 })
    );
}

#[test]
fn hex_only_strict_keeps_spaces_as_symbols() {
    let unhex = UnHexApplet {
        strict: true,
        hexonly: true,
    };
    assert_eq!(
        unhex.process(b"01 23".to_vec()),
        Err(DecodeError::InvalidLength)
    );
    assert_eq!(
        unhex.process(b"01 234".to_vec()),
        Err(DecodeError::InvalidSymbol { offset: 2 })
    );
}

#[test]
fn hex_only_strict_odd_length() {
    let unhex = UnHexApplet {
        strict: true,
        hexonly: true,
    };
    assert_eq!(unhex.process(b" 012 ".to_vec()), Err(DecodeError::InvalidLength));
}

#[test]
fn hex_only_lenient_copies_rest_after_fault() {
    let unhex = UnHexApplet {
        strict: false,
        hexonly: true,
    };
    assert_eq!(
        unhex.process(b"4142zz4344".to_vec()).unwrap(),
        b"ABzz4344".to_vec()
    );
    assert_eq!(unhex.process(b"414".to_vec()).unwrap(), b"A4".to_vec());
    assert_eq!(unhex.process(b"01at".to_vec()).unwrap(), vec![0x01, b'a', b't']);
    assert_eq!(unhex.process(b"abc".to_vec()).unwrap(), vec![0xab, b'c']);
    // The head left by the alignment split is not trimmed again.
    assert_eq!(unhex.process(b"abc\td".to_vec()).unwrap(), vec![0xab, b'c', b'\t', b'd']);
}

#[test]
fn hex_only_lenient_empty_and_blank() {
    let unhex = UnHexApplet {
        strict: false,
        hexonly: true,
    };
    assert_eq!(unhex.process(Vec::new()).unwrap(), Vec::<u8>::new());
    assert_eq!(unhex.process(b" \t\r\n".to_vec()).unwrap(), Vec::<u8>::new());
}

#[test]
fn lenient_decode_never_fails_on_noise() {
    let noise: Vec<u8> = (0u16..300).map(|i| ((i * 37 + 11) % 256) as u8).collect();
    for n in 0..noise.len() {
        assert!(decode(&Codec::Hex, &noise[..n], DecodeMode::Lenient).is_ok());
    }
}

#[test]
fn strict_hex_codec_pair_offset() {
    assert_eq!(hex_decode_strict(b"0g"), Err(DecodeError::InvalidSymbol { offset: 0 }));
    assert_eq!(hex_decode_strict(b"00g0"), Err(DecodeError::InvalidSymbol { offset: 2 }));
    assert_eq!(hex_decode_strict(b"0A0b"), Ok(vec![0x0a, 0x0b]));
    assert_eq!(hex_decode_strict(b"abc"), Err(DecodeError::InvalidLength));
}

#[test]
fn hex_encode_then_decode() {
    let data: Vec<u8> = (0u16..256).map(|i| i as u8).collect();
    let text = hex_encode(&data);
    assert_eq!(text.len(), 512);
    assert_eq!(&text[0..6], b"000102");
    assert_eq!(&text[508..], b"feff");
    assert_eq!(decode(&Codec::Hex, &text, DecodeMode::Strict).unwrap(), data);
    assert_eq!(hex_decode_all(&text), data);
    assert_eq!(decode(&Codec::Hex, &text, DecodeMode::Lenient).unwrap(), data);
}

#[test]
fn scanner_edge_cases() {
    assert_eq!(hex_decode_all(b""), Vec::<u8>::new());
    assert_eq!(hex_decode_all(b"a"), b"a".to_vec());
    assert_eq!(hex_decode_all(b"zz"), b"zz".to_vec());
    assert_eq!(hex_decode_all(b"abc"), vec![0xab, b'c']);
    assert_eq!(hex_decode_all(b"xabc"), vec![b'x', 0xab, b'c']);
}
