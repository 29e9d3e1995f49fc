use rsbkb::bgrep::{hex_pattern, BgrepApplet};
use rsbkb::timestamp::{TimeEncoding, TimeFormats, TimestampKind, TsDecApplet, TsEncApplet};
use rsbkb::url::{build_default_table, UrlEncApplet};
use rsbkb::xor::XorApplet;

fn default_urlenc(excluded: &str) -> UrlEncApplet {
    let mut table = [false; 256];
    build_default_table(&excluded.to_string(), &mut table);
    UrlEncApplet { table }
}

#[test]
fn test_urlenc_cli_arg() {
    assert_eq!(default_urlenc("").process("aAé!,".as_bytes().to_vec()), b"aA%c3%a9%21%2c".to_vec());
}

#[test]
fn test_urlenc_cli_arg_exclude() {
    assert_eq!(default_urlenc("!,").process("aAé!,".as_bytes().to_vec()), b"aA%c3%a9!,".to_vec());
}

#[test]
fn test_urlenc_stdin() {
    assert_eq!(default_urlenc("").process("aAé!,".as_bytes().to_vec()), b"aA%c3%a9%21%2c".to_vec());
}

#[test]
fn test_hex_key_cli() {
    let x = XorApplet::from_hex_key(b"41").unwrap();
    assert_eq!(x.process(b"AAAA".to_vec()), b"\0\0\0\0".to_vec());
}

#[test]
fn test_key_file_cli_stdin() {
    let rand_key: [u8; 17] = [
        0x7f, 0x5a, 0x88, 0x7b, 0xe8, 0x81, 0xd6, 0x5e, 0x39, 0xf4, 0x7e, 0x25, 0xf2, 0x05, 0xdc, 0x22, 0x86,
    ];
    let x = XorApplet { key_bytes: rand_key.to_vec() };
    assert_eq!(
        x.process([0u8; 32].to_vec()),
        b"\x7fZ\x88{\xE8\x81\xD6^9\xF4~%\xF2\x05\xDC\"\x86\x7fZ\x88{\xE8\x81\xD6^9\xF4~%\xF2\x05\xDC".to_vec()
    );
    assert_eq!(x.process(rand_key.to_vec()), vec![0u8; 17]);
}

#[test]
fn test_cli() {
    let data: Vec<u8> = (0u8..10).collect();
    let app = BgrepApplet {
        files: Some(vec!["data".to_string()]),
        pattern: Some(hex_pattern(b"020304").unwrap()),
        verbose: false,
        recursive: false,
    };
    assert!(!app.many());
    assert_eq!(app.offsets(&data), Some(vec![2]));
}

#[test]
fn test_cli_multiple() {
    let app = BgrepApplet {
        files: Some(vec!["one".to_string(), "two".to_string()]),
        pattern: Some(b"tmpfile".to_vec()),
        verbose: false,
        recursive: false,
    };
    assert!(app.many());
    assert_eq!(app.offsets(b"tmpfile1"), Some(vec![0]));
    assert_eq!(app.offsets(b"2tmpfile"), Some(vec![1]));
}

#[test]
fn test_recursive() {
    let app = BgrepApplet {
        files: Some(vec!["dir".to_string()]),
        pattern: Some(b"tmpfile".to_vec()),
        verbose: false,
        recursive: true,
    };
    assert!(app.many());
    assert_eq!(app.offsets(b"2tmpfile"), Some(vec![1]));
}

#[test]
fn test_tsdec_verbose_cli_stdin() {
    let ts = TsDecApplet { local: false, verbose: true };
    assert_eq!(ts.decode_instant("1"), Ok((1_000_000_000, TimestampKind::Seconds)));
    assert_eq!(ts.process("1").unwrap(), b"1970-01-01T00:00:01Z".to_vec());
}

#[test]
fn test_tsenc_cli_stdin() {
    let run = |e: TimeEncoding, f: TimeFormats, s: &str| {
        String::from_utf8(TsEncApplet { encoding_type: e, input_format: f }.process(s).unwrap()).unwrap()
    };
    assert_eq!(run(TimeEncoding::UnixSecond, TimeFormats::Iso8601, "1970-01-01T00:00:01Z"), "1");
    assert_eq!(run(TimeEncoding::FILETIME, TimeFormats::Iso8601, "1601-01-01T00:00:01Z"), "10000000");
    assert_eq!(run(TimeEncoding::UnixSecond, TimeFormats::Iso8601, "1970-01-01T00:00:01Z"), "1");
    assert_eq!(run(TimeEncoding::UnixSecond, TimeFormats::Rfc2822, "Sat, 12 Jun 1993 13:25:19 GMT"), "739891519");
    assert_eq!(run(TimeEncoding::UnixSecond, TimeFormats::Rfc3339, "1985-04-12T23:20:50.52Z"), "482196050");
}
