use rsbkb::base::BaseIntApplet;
use rsbkb::checksum::{hex_fixed_width, CRC16Applet, CRC32Applet, CRCApplet};
use rsbkb::escape::{escape, EscType, EscapeApplet, UnEscapeApplet, UnescapeError};
use rsbkb::flate::{DataFormat, DeflateApplet, InflateApplet};
use rsbkb::slice::{parse_value_with_prefix, Position, SliceApplet, SliceError};
use rsbkb::timestamp::{encode_nanos, signed_decimal_text, TimeEncoding, TimeFormats, TsDecApplet, TsEncApplet};

fn esc(t: EscType, no_quote: bool, no_detect: bool, multiline: bool, input: &str) -> String {
    let app = EscapeApplet { esc_type: t, no_quote, no_detect, multiline };
    String::from_utf8(app.process(input.as_bytes().to_vec())).unwrap()
}

#[test]
fn test_base_escape_arg_auto() {
    assert_eq!(esc(EscType::Generic, false, false, false, r"te'st"), r#""te\'st""#);
}

#[test]
fn test_base_escape_stdin_auto() {
    assert_eq!(esc(EscType::Generic, false, false, false, "'te'st'\n"), r"'te\'st'");
}

#[test]
fn test_base_escape_stdin_no_detect() {
    assert_eq!(esc(EscType::Generic, false, true, false, r"'test'"), r#""\'test\'""#);
}

#[test]
fn test_base_escape_stdin_auto_multiline() {
    assert_eq!(esc(EscType::Generic, false, false, true, "te'st\nte\"st\n"), r#""te\'st\nte\"st\n""#);
}

#[test]
fn test_base_escape_stdin_bash_single() {
    assert_eq!(esc(EscType::BashSingle, false, false, false, "te'st"), r#"'te'"'"'st'"#);
}

#[test]
fn test_base_escape_stdin_bash() {
    assert_eq!(esc(EscType::Bash, false, false, false, r#""!t"e`s$t""#), r#""\!t\"e\`s\$t""#);
}

#[test]
fn test_base_escape_stdin_posix_shell() {
    assert_eq!(esc(EscType::Shell, false, false, false, r#""!t"e`s$t""#), r#""!t\"e\`s\$t""#);
}

#[test]
fn test_base_escape_stdin_single() {
    assert_eq!(esc(EscType::Single, false, false, false, r#"sin'gle"#), r#"'sin\'gle'"#);
}

#[test]
fn test_base_escape_stdin_single_noquote() {
    assert_eq!(esc(EscType::Single, true, false, false, r#"sin'gle"#), r#"sin\'gle"#);
}

#[test]
fn escape_generic_bytes_and_lone_quote() {
    assert_eq!(escape(b"\x00\x9d\t\\", EscType::Generic), br"\x00\x9d\t\\".to_vec());
    assert_eq!(esc(EscType::Generic, false, false, false, "'"), r#""\'""#);
    assert_eq!(esc(EscType::Generic, false, false, false, ""), r#""""#);
}

#[test]
fn escape_html_entities() {
    let out = escape(b"<a>", EscType::HTMLEntities);
    assert_eq!(out, b"&lt;a&gt;".to_vec());
    assert_eq!(escape(b"", EscType::HTMLEntities), Vec::<u8>::new());
}

#[test]
fn unescape_sequences() {
    let un = UnEscapeApplet { multiline: false, html_entities: false };
    assert_eq!(un.process(br"  a\tb\nc\rd\x41\x+f\q\\ ".to_vec()).unwrap(), b"a\tb\nc\rdA\x0fq\\".to_vec());
    assert_eq!(un.process(br"ab\x4".to_vec()).unwrap(), b"ab".to_vec());
    assert_eq!(un.process(br"ab\".to_vec()).unwrap(), b"ab".to_vec());
    assert_eq!(un.process(br"\xzz".to_vec()), Err(UnescapeError::InvalidHexEscape));
    let html = UnEscapeApplet { multiline: false, html_entities: true };
    assert_eq!(html.process(b"&lt;a&gt;\n".to_vec()).unwrap(), b"<a>".to_vec());
}

#[test]
fn test_crc32() {
    let crc32 = CRC32Applet {};
    assert_eq!("10cca4f1".as_bytes().to_vec(), crc32.process("toto".as_bytes().to_vec()));
}

#[test]
fn test_crc16() {
    let crc16 = CRC16Applet {};
    assert_eq!("97a8".as_bytes().to_vec(), crc16.process("toto".as_bytes().to_vec()));
}

#[test]
fn crc_formatting_by_size_class() {
    assert_eq!(CRCApplet::format_checksum(32, 0xfa83f52a), Some(b"fa83f52a".to_vec()));
    assert_eq!(CRCApplet::format_checksum(3, 5), Some(b"05".to_vec()));
    assert_eq!(CRCApplet::format_checksum(82, 1), Some(b"00000000000000000000000000000001".to_vec()));
    assert_eq!(CRCApplet::format_checksum(129, 1), None);
}

#[test]
fn fixed_width_hex() {
    assert_eq!(hex_fixed_width(0xab, 4), b"00ab".to_vec());
    assert_eq!(hex_fixed_width(0x12345, 4), b"2345".to_vec());
    assert_eq!(hex_fixed_width(0, 0), Vec::<u8>::new());
}

fn base(src: Option<u32>, to: u32, input: &str) -> String {
    let app = BaseIntApplet { source_radix: src, target_radix: to };
    String::from_utf8(app.process(input.as_bytes().to_vec()).unwrap()).unwrap()
}

#[test]
fn test_base_cli_no_radix() {
    assert_eq!(base(None, 10, "10"), "0xa");
}

#[test]
fn test_base_cli_arg() {
    assert_eq!(base(None, 10, "0x10"), "16");
}

#[test]
fn test_base_cli_arg_from_to() {
    assert_eq!(base(Some(2), 16, "10000"), "10");
}

#[test]
fn test_base_cli_stdin() {
    assert_eq!(base(None, 10, "0xA\n"), "10");
}

#[test]
fn test_base_cli_arg_to() {
    assert_eq!(base(None, 32, "0o7675"), "3tt");
}

#[test]
fn base_separators_and_errors() {
    assert_eq!(base(None, 10, "1_000"), "0x3e8");
    assert_eq!(base(None, 2, "0"), "0");
    let app = BaseIntApplet { source_radix: None, target_radix: 10 };
    assert!(app.process(b"_1".to_vec()).is_err());
    assert!(app.process(b"12a".to_vec()).is_err());
    assert_eq!(base(None, 16, "340282366920938463463374607431768211456"), "100000000000000000000000000000000");
}

#[test]
fn slice_positions() {
    assert_eq!(parse_value_with_prefix(&"-0x10".to_string()), Ok(Position { offset: 16, relative: false, from_end: true }));
    assert_eq!(parse_value_with_prefix(&"+8".to_string()), Ok(Position { offset: 8, relative: true, from_end: false }));
    assert_eq!(parse_value_with_prefix(&"0o10".to_string()), Ok(Position { offset: 8, relative: false, from_end: false }));
    assert_eq!(parse_value_with_prefix(&"".to_string()), Err(SliceError::InvalidValue));
    assert_eq!(parse_value_with_prefix(&"x".to_string()), Err(SliceError::InvalidValue));
}

#[test]
fn slice_ranges() {
    let p = |offset: u64, relative: bool, from_end: bool| Position { offset, relative, from_end };
    let s = SliceApplet { file: None, start: p(2, false, false), end: Some(p(3, true, false)) };
    assert_eq!(s.seekable_range(10), Ok((2, Some(3))));
    assert_eq!(s.unseekable_range(), Ok((2, Some(3))));
    let s = SliceApplet { file: None, start: p(4, false, true), end: None };
    assert_eq!(s.seekable_range(10), Ok((6, None)));
    assert_eq!(s.seekable_range(3), Err(SliceError::StartBeforeBeginning));
    assert_eq!(s.unseekable_range(), Err(SliceError::CannotSeekFromEnd));
    let s = SliceApplet { file: None, start: p(11, false, false), end: None };
    assert_eq!(s.seekable_range(10), Err(SliceError::StartAfterEnd));
    let s = SliceApplet { file: None, start: p(5, false, false), end: Some(p(4, false, false)) };
    assert_eq!(s.seekable_range(10), Err(SliceError::EndBeforeStart));
    assert_eq!(s.unseekable_range(), Err(SliceError::EndBeforeStart));
    let s = SliceApplet { file: None, start: p(5, false, false), end: Some(p(11, false, false)) };
    assert_eq!(s.seekable_range(10), Err(SliceError::EndAfterEnd));
    let s = SliceApplet { file: None, start: p(0, false, false), end: Some(p(2, false, true)) };
    assert_eq!(s.seekable_range(10), Ok((0, Some(8))));
    assert_eq!(SliceApplet::new().seekable_range(0), Ok((0, None)));
}

fn run_decode(app: &TsDecApplet, ts: &str) -> String {
    String::from_utf8(app.process(ts).unwrap()).unwrap()
}

#[test]
fn test_tsdec_decimal() {
    let ts = TsDecApplet { local: false, verbose: false };
    assert_eq!(run_decode(&ts, "0"), "1970-01-01T00:00:00Z");
    assert_eq!(run_decode(&ts, "1420070400"), "2015-01-01T00:00:00Z");
    assert_eq!(run_decode(&ts, "142007040000"), "2015-01-01T00:00:00Z");
    assert_eq!(run_decode(&ts, "1420070400000"), "2015-01-01T00:00:00Z");
    assert_eq!(run_decode(&ts, "1420070400000000"), "2015-01-01T00:00:00Z");
    assert_eq!(run_decode(&ts, "142007040001"), "2015-01-01T00:00:00.01Z");
    assert_eq!(run_decode(&ts, "1420070400001"), "2015-01-01T00:00:00.001Z");
    assert_eq!(run_decode(&ts, "1420070400000001"), "2015-01-01T00:00:00.000001Z");
    assert_eq!(run_decode(&ts, "146424672000234122"), "2065-01-01T00:00:00.0234122Z");
    assert_eq!(run_decode(&ts, "000000000000000000"), "1601-01-01T00:00:00Z");
}

#[test]
fn test_tsdec_hex() {
    let ts = TsDecApplet { local: false, verbose: false };
    assert_eq!(run_decode(&ts, "0x0"), "1970-01-01T00:00:00Z");
    assert_eq!(run_decode(&ts, "0x1"), "1970-01-01T00:00:01Z");
}

#[test]
fn tsdec_errors() {
    let ts = TsDecApplet::new();
    assert_eq!(ts.process("abc"), Err(rsbkb::timestamp::TimeError::InvalidNumber));
    assert_eq!(ts.process("9223372036854775807"), Err(rsbkb::timestamp::TimeError::OutOfRange));
}

fn run_encode(app: &TsEncApplet, date: &str) -> String {
    String::from_utf8(app.process(date).unwrap()).unwrap()
}

#[test]
fn test_tsenc() {
    let enc = |e: TimeEncoding| TsEncApplet { encoding_type: e, input_format: TimeFormats::Iso8601 };
    assert_eq!(run_encode(&enc(TimeEncoding::UnixCentiSecond), "1970-01-01T00:00:01Z"), "100");
    assert_eq!(run_encode(&enc(TimeEncoding::UnixMilliSecond), "1970-01-01T00:00:01Z"), "1000");
    assert_eq!(run_encode(&enc(TimeEncoding::UnixMicroSecond), "1970-01-01T00:00:01Z"), "1000000");
    assert_eq!(run_encode(&enc(TimeEncoding::UnixNanoSecond), "1970-01-01T00:00:01Z"), "1000000000");
    assert_eq!(run_encode(&enc(TimeEncoding::FILETIME), "1970-01-01T00:00:01Z"), "116444736010000000");
    assert_eq!(run_encode(&enc(TimeEncoding::Chrome), "1970-01-01T00:00:01Z"), "11644473601000000");
}

#[test]
fn tsenc_before_epoch_and_bad_date() {
    let app = TsEncApplet { encoding_type: TimeEncoding::UnixSecond, input_format: TimeFormats::Rfc3339 };
    assert_eq!(run_encode(&app, "1969-12-31T23:59:59.5Z"), "0");
    assert_eq!(run_encode(&app, "1969-12-31T23:59:58Z"), "-2");
    assert!(app.process("yesterday").is_err());
    assert_eq!(encode_nanos(TimeEncoding::UnixMilliSecond, -1_500_000), -1);
    assert_eq!(signed_decimal_text(i128::MIN), b"-170141183460469231731687303715884105728".to_vec());
}

#[test]
fn test_inflate() {
    let inf = InflateApplet { quiet: true, format: DataFormat::Raw };
    assert_eq!(
        inf.process([0x2b, 0x49, 0x2d, 0x2e, 0x29, 0x01, 0x62, 0x2e, 0x00].to_vec()).0,
        "testtest\n".as_bytes().to_vec()
    );
}

#[test]
fn test_inflate_trunc() {
    let inf = InflateApplet { quiet: true, format: DataFormat::Raw };
    assert_eq!(
        inf.process([0x2b, 0x49, 0x2d, 0x2e, 0x29].to_vec()).0,
        [116, 101, 115, 116, 0, 0, 0, 0, 0, 0].to_vec()
    );
}

#[test]
fn test_inflate_no_header() {
    let inf = InflateApplet { quiet: true, format: DataFormat::Zlib };
    assert_eq!(
        inf.process([0x2b, 0x49, 0x2d, 0x2e, 0x29].to_vec()).0,
        [0, 0, 0, 0, 0, 0, 0, 0, 0, 0].to_vec()
    );
}

#[test]
fn deflate_then_inflate() {
    for format in [DataFormat::Raw, DataFormat::Zlib] {
        let d = DeflateApplet { format, level: 6 };
        let packed = d.process(b"hello hello hello".to_vec());
        let (out, ok) = InflateApplet { format, quiet: true }.process(packed);
        assert!(ok);
        assert_eq!(out, b"hello hello hello".to_vec());
    }
}

#[test]
fn crc_algorithm_bits_from_name() {
    assert_eq!(CRCApplet::algorithm_bits("CRC_32_AIXM"), Some(32));
    assert_eq!(CRCApplet::algorithm_bits("CRC_82_DARC"), Some(82));
    assert_eq!(CRCApplet::algorithm_bits("CRC_8"), Some(8));
    assert_eq!(CRCApplet::algorithm_bits("lol"), None);
    assert_eq!(CRCApplet::algorithm_bits("CRC_x_Y"), None);
    assert_eq!(CRCApplet::algorithm_bits("CRC_300_Y"), None);
}
