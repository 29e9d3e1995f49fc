use rsbkb::bgrep::{hex_pattern, BgrepApplet};
use rsbkb::entropy::EntropyApplet;
use rsbkb::findso::{parse_ld_conf, FindSoApplet};

#[test]
fn bgrep_hex_pattern_text() {
    assert_eq!(hex_pattern(b"41ff"), Some(br"\x41\xff".to_vec()));
    assert_eq!(hex_pattern(b""), Some(Vec::new()));
    assert_eq!(hex_pattern(b"4"), None);
}

#[test]
fn bgrep_offsets() {
    let app = BgrepApplet {
        files: Some(vec!["a".to_string()]),
        pattern: Some(hex_pattern(b"4142").unwrap()),
        verbose: false,
        recursive: false,
    };
    assert_eq!(app.offsets(b"xxAB\nAB"), Some(vec![2, 5]));
    assert!(!app.many());
    let dot = BgrepApplet { files: None, pattern: Some(b"A.B".to_vec()), verbose: false, recursive: true };
    assert_eq!(dot.offsets(b"A\nB"), Some(vec![0]));
    assert!(dot.many());
    let bad = BgrepApplet { files: None, pattern: Some(b"(".to_vec()), verbose: false, recursive: false };
    assert_eq!(bad.offsets(b"abc"), None);
    assert_eq!(BgrepApplet::new().offsets(b"abc"), None);
}

#[test]
fn ld_conf_lines() {
    let (dirs, incs) = parse_ld_conf(b"# comment\n/usr/lib\n\ninclude /etc/ld.so.conf.d/*.conf\n/lib64");
    assert_eq!(dirs, vec![b"/usr/lib".to_vec(), b"/lib64".to_vec()]);
    assert_eq!(incs, vec![b"/etc/ld.so.conf.d/*.conf".to_vec()]);
    let (dirs, incs) = parse_ld_conf(b"");
    assert!(dirs.is_empty() && incs.is_empty());
}

#[test]
fn findso_non_elf_and_reporting() {
    let app = FindSoApplet {
        files: None,
        function: Some("main".to_string()),
        is_ref: false,
        paths: None,
        quiet: true,
        skip_symlinks: true,
    };
    assert_eq!(app.defines(b"not an elf"), None);
    assert_eq!(app.reference_libraries(b"not an elf"), None);
    assert!(app.reports(true, false));
    assert!(!app.reports(true, true));
    assert!(!app.reports(false, false));
    assert_eq!(FindSoApplet::new().defines(b"\x7fELF"), None);
}

#[test]
fn entropy_counts() {
    let c = EntropyApplet::new().counts(&[1, 2, 3, 4, 4]);
    assert_eq!(c.len(), 256);
    assert_eq!(c[4], 2);
    assert_eq!(c[1], 1);
    assert_eq!(c[0], 0);
    assert_eq!(c.iter().sum::<u64>(), 5);
}
