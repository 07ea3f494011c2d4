use worktool::charset::decode_to_utf8;

#[test]
fn gbk_bytes_become_text() {
    let (text, bad) = decode_to_utf8(b"GBK", &[0xD6, 0xD0, 0xCE, 0xC4, b'!']);
    assert_eq!(text, "\u{4e2d}\u{6587}!");
    assert!(!bad);
}

#[test]
fn utf16_label_decodes_pairs() {
    let (text, bad) = decode_to_utf8(b"utf-16le", &[b'h', 0, b'i', 0]);
    assert_eq!(text, "hi");
    assert!(!bad);
}

#[test]
fn unknown_label_falls_back_to_utf8() {
    let (text, bad) = decode_to_utf8(b"no-such-encoding", "caf\u{e9}".as_bytes());
    assert_eq!(text, "caf\u{e9}");
    assert!(!bad);
    let (t2, bad2) = decode_to_utf8(b"nonsense", &[b'a', 0xFF]);
    assert_eq!(t2, "a\u{fffd}");
    assert!(bad2);
}

#[test]
fn byte_order_mark_overrides_label() {
    let (text, _) = decode_to_utf8(b"GBK", &[0xEF, 0xBB, 0xBF, b'o', b'k']);
    assert_eq!(text, "ok");
}
