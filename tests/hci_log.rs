use worktool::hci::{ascii_only, classify_line, hci_file_preproc, nonempty_lines};

#[test]
fn traffic_lines() {
    assert!(classify_line("[00:00:01.000] CMD => Reset"));
    assert!(classify_line("EVT <= Command Complete"));
    assert!(classify_line("ACL  => data"));
    assert!(classify_line("MSG x -> y"));
    assert!(!classify_line("MSG x => y"));
    assert!(!classify_line("CMD Reset"));
    assert!(!classify_line("plain text"));
}

#[test]
fn lines_skip_empty_and_carriage_returns() {
    assert_eq!(nonempty_lines("a\r\n\r\nb\n\nc"), vec!["a", "b", "c"]);
    assert_eq!(nonempty_lines("x\n"), vec!["x"]);
    assert!(nonempty_lines("").is_empty());
}

#[test]
fn ascii_filter() {
    assert_eq!(ascii_only("ab\u{4e2d}c\u{e9}"), "abc");
}

#[test]
fn stamps_rewritten() {
    let log = "(12:00:00.123)[12:00:01.000] CMD => Reset\r\n\
               note [12:00:02.500] info\n\n\
               no stamp here \u{4e2d}\n";
    let out = hci_file_preproc(log).unwrap();
    assert_eq!(
        out,
        "\n[12:00:01.000] CMD => Reset\nnote  info\nno stamp here \n"
    );
}
