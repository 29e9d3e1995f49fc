use rsbkb::pattern::{gen_pattern, BofPattGenApplet, BofPattOffApplet};
use rsbkb::radix::FromStrWithRadix;
use rsbkb::trim::SliceExt;
use rsbkb::url::{build_default_table, build_url_table, UrlDecApplet, UrlEncApplet};
use rsbkb::xor::XorApplet;

#[test]
fn test_urlenc() {
    let mut table = [false; 256];
    build_default_table(&"".to_string(), &mut table);
    let urlenc = UrlEncApplet { table: table };
    let encoded = urlenc.process("aA!,é".as_bytes().to_vec());
    assert_eq!(String::from_utf8(encoded).unwrap(), "aA%21%2c%c3%a9");
}

#[test]
fn test_urlencdec() {
    let mut table = [false; 256];
    build_default_table(&"".to_string(), &mut table);
    let urlenc = UrlEncApplet { table: table };
    let urldec = UrlDecApplet {};
    let test_string = "aA!,é";
    let encoded = urlenc.process(test_string.as_bytes().to_vec());
    let decoded = urldec.process(encoded);
    assert_eq!(String::from_utf8(decoded).unwrap(), test_string);
}

#[test]
fn urlenc_default_table_with_exclusions() {
    let mut table = [false; 256];
    build_default_table(&"!,".to_string(), &mut table);
    let urlenc = UrlEncApplet { table };
    assert_eq!(urlenc.process("aAé!,".as_bytes().to_vec()), b"aA%c3%a9!,".to_vec());
}

#[test]
fn urlenc_rfc3986_table() {
    let mut table = [false; 256];
    build_url_table(&"/".to_string(), &mut table);
    let urlenc = UrlEncApplet { table };
    assert_eq!(urlenc.process(b"a b/c?d-e".to_vec()), b"a%20b/c%3fd-e".to_vec());
}

#[test]
fn urldec_keeps_malformed_escapes() {
    let urldec = UrlDecApplet {};
    assert_eq!(urldec.process(b" %41%4g%%2 \n".to_vec()), b"A%4g%%2".to_vec());
}

#[test]
fn test_simple() {
    let data = vec![1, 0x55, 0xAA, 0xFF, 0];
    let x = XorApplet {
        key_bytes: data.clone(),
    };
    assert_eq!(x.process(vec![0, 0, 0, 0, 0]), data);
    assert_eq!(
        x.process(vec![0xFF, 0xFF, 0xFF, 0xFF, 0xFF]),
        vec![0xFE, 0xAA, 0x55, 0, 0xFF]
    );
    assert_eq!(x.process(vec![0]), vec![1]);
    assert_eq!(
        x.process(vec![0, 0, 0, 0, 0, 0]),
        vec![1, 0x55, 0xAA, 0xFF, 0, 1]
    );
}

#[test]
fn xor_hex_key_and_empty_key() {
    let x = XorApplet::from_hex_key(b"41 42").unwrap();
    assert_eq!(x.key_bytes, vec![0x41, 0x42]);
    assert_eq!(x.process(b"AAAA".to_vec()), vec![0, 3, 0, 3]);
    assert!(XorApplet::from_hex_key(b"4").is_err());
    assert_eq!(XorApplet::new().process(b"abc".to_vec()), Vec::<u8>::new());
}

#[test]
fn test_gen() {
    let pat = BofPattGenApplet { len: 40 };
    assert_eq!(
        String::from_utf8(pat.process()).unwrap(),
        "Aa0Aa1Aa2Aa3Aa4Aa5Aa6Aa7Aa8Aa9Ab0Ab1Ab2A"
    );
}

#[test]
fn pattern_wraps_after_one_period() {
    let pat = BofPattGenApplet { len: 20283 };
    let out = pat.process();
    assert_eq!(out.len(), 20280);
    assert_eq!(&out[20277..], b"Zz9");
}

#[test]
fn test_off() {
    let pat = BofPattOffApplet {
        extract: String::from("Yq6Y"),
    };
    assert_eq!(
        String::from_utf8(pat.process()).unwrap(),
        "Offset: 19218 (mod 20280) / 0x4b12"
    );
}

#[test]
fn test_not_found() {
    let pat = BofPattOffApplet {
        extract: String::from("***"),
    };
    assert_eq!(
        String::from_utf8(pat.process()).unwrap(),
        "Pattern not found"
    );
}

#[test]
fn pattern_offset_zero() {
    let pat = BofPattOffApplet { extract: String::from("Aa0") };
    assert_eq!(pat.find_offset(), Some(0));
    assert_eq!(String::from_utf8(pat.process()).unwrap(), "Offset: 0 (mod 20280) / 0x0");
}

#[test]
fn radix_prefixes() {
    assert_eq!(u64::from_str_with_radix("0x10"), Ok(16));
    assert_eq!(u64::from_str_with_radix("0o10"), Ok(8));
    assert_eq!(u64::from_str_with_radix("10"), Ok(10));
    assert_eq!(u64::from_str_with_radix("+10"), Ok(10));
    assert!(u64::from_str_with_radix("0x").is_err());
    assert!(u64::from_str_with_radix("-1").is_err());
    assert!(u64::from_str_with_radix("18446744073709551616").is_err());
    assert_eq!(u64::from_str_with_radix("18446744073709551615"), Ok(u64::MAX));
    assert_eq!(i64::from_str_with_radix("-0x10"), Err(rsbkb::radix::RadixError {}));
    assert_eq!(i64::from_str_with_radix("-10"), Ok(-10));
    assert_eq!(i64::from_str_with_radix("0x-10"), Ok(-16));
    assert_eq!(usize::from_str_with_radix("0xfF"), Ok(255));
    assert!(usize::from_str_with_radix("").is_err());
}

#[test]
fn trim_ascii_whitespace() {
    let s: &[u8] = b" \t\r\nab c\n ";
    assert_eq!(s.trim(), &b"ab c"[..]);
    let blank: &[u8] = b" \n\t";
    assert!(blank.trim().is_empty());
    let ff: &[u8] = b"\x0cab";
    assert_eq!(ff.trim(), &b"\x0cab"[..]);
}

#[test]
fn gen_pattern_fills_whole_rounds() {
    let mut res = Vec::new();
    gen_pattern(1, &mut res);
    assert_eq!(res.len(), 780);
    assert_eq!(&res[777..], b"Az9");
    let mut res = Vec::new();
    gen_pattern(781, &mut res);
    assert_eq!(res.len(), 1560);
    let mut res = Vec::new();
    gen_pattern(0, &mut res);
    assert!(res.is_empty());
    let mut res = Vec::new();
    gen_pattern(20280, &mut res);
    assert_eq!(res.len(), 20280);
}
