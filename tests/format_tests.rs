use scope_core::format::{
    bytes_to_ansi_segments, bytes_to_mixed_ascii, bytes_to_mixed_segments,
    bytes_to_string_segments, contains, replace_all, AnsiColor, SegmentKind,
};

#[test]
fn renders_printable() {
    assert_eq!(bytes_to_mixed_ascii(b"Hello"), "Hello");
    let segs = bytes_to_mixed_segments(b"Hello");
    assert_eq!(segs.len(), 1);
    assert_eq!(segs[0].kind, SegmentKind::Plain);
}

#[test]
fn renders_newlines() {
    assert_eq!(bytes_to_mixed_ascii(b"A\nB\r"), "A\\nB\\r");
}

#[test]
fn renders_binary() {
    assert_eq!(bytes_to_mixed_ascii(&[0x00, 0x01, 0xff]), "\\x00\\x01\\xff");
}

#[test]
fn segments_split_plain_and_escape() {
    let segs = bytes_to_mixed_segments(b"A\nB\x00C");
    assert!(segs.iter().any(|s| s.kind == SegmentKind::Plain));
    assert!(segs.iter().any(|s| s.kind == SegmentKind::Escape));
}

#[test]
fn mixed_ascii_example_letter_newline_nul() {
    assert_eq!(bytes_to_mixed_ascii(&[0x41, 0x0A, 0x00]), "A\\n\\x00");
}

#[test]
fn mixed_ascii_empty() {
    assert_eq!(bytes_to_mixed_ascii(&[]), "");
    assert!(bytes_to_mixed_segments(&[]).is_empty());
}

#[test]
fn segments_are_maximal_runs() {
    let segs = bytes_to_mixed_segments(b"A\nB\x00C");
    let texts: Vec<&str> = segs.iter().map(|s| s.text.as_str()).collect();
    assert_eq!(texts, vec!["A", "\\n", "B", "\\x00", "C"]);
    let kinds: Vec<SegmentKind> = segs.iter().map(|s| s.kind).collect();
    assert_eq!(
        kinds,
        vec![
            SegmentKind::Plain,
            SegmentKind::Escape,
            SegmentKind::Plain,
            SegmentKind::Escape,
            SegmentKind::Plain
        ]
    );
}

#[test]
fn segments_join_to_rendering_and_alternate() {
    let input: Vec<u8> = (0u8..=255).chain(b"tail\r\n".iter().copied()).collect();
    let segs = bytes_to_mixed_segments(&input);
    let joined: String = segs.iter().map(|s| s.text.as_str()).collect();
    assert_eq!(joined, bytes_to_mixed_ascii(&input));
    for w in segs.windows(2) {
        assert_ne!(w[0].kind, w[1].kind);
    }
    assert!(segs.iter().all(|s| !s.text.is_empty()));
}

#[test]
fn escape_run_groups_several_bytes() {
    let segs = bytes_to_mixed_segments(&[0x1b, 0x0d, 0x7f, 0x20]);
    assert_eq!(segs.len(), 2);
    assert_eq!(segs[0].text, "\\x1b\\r\\x7f");
    assert_eq!(segs[0].kind, SegmentKind::Escape);
    assert_eq!(segs[1].text, " ");
}

#[test]
fn string_segments_use_accent_for_escapes() {
    let segs = bytes_to_string_segments(b"ok\x00", AnsiColor::Green);
    assert_eq!(segs.len(), 2);
    assert_eq!(segs[0].text, "ok");
    assert_eq!(segs[0].color, AnsiColor::Green);
    assert_eq!(segs[1].text, "\\x00");
    assert_eq!(segs[1].kind, SegmentKind::Escape);
    assert_eq!(segs[1].color, AnsiColor::Yellow);
}

#[test]
fn string_segments_accent_under_yellow_is_dark_gray() {
    let segs = bytes_to_string_segments(b"\n", AnsiColor::Yellow);
    assert_eq!(segs.len(), 1);
    assert_eq!(segs[0].text, "\\n");
    assert_eq!(segs[0].color, AnsiColor::DarkGray);
}

#[test]
fn ansi_colors_follow_sequences() {
    let segs = bytes_to_ansi_segments(b"\x1b[31mred\x1b[0mplain\x01");
    let got: Vec<(&str, SegmentKind, AnsiColor)> =
        segs.iter().map(|s| (s.text.as_str(), s.kind, s.color)).collect();
    assert_eq!(
        got,
        vec![
            ("red", SegmentKind::Plain, AnsiColor::Red),
            ("plain", SegmentKind::Plain, AnsiColor::Reset),
            ("\\x01", SegmentKind::Escape, AnsiColor::Yellow),
        ]
    );
}

#[test]
fn ansi_bold_variant_and_yellow_accent() {
    let segs = bytes_to_ansi_segments(b"\x1b[1;33mwarn\x00");
    let got: Vec<(&str, SegmentKind, AnsiColor)> =
        segs.iter().map(|s| (s.text.as_str(), s.kind, s.color)).collect();
    assert_eq!(
        got,
        vec![
            ("warn", SegmentKind::Plain, AnsiColor::Yellow),
            ("\\x00", SegmentKind::Escape, AnsiColor::DarkGray),
        ]
    );
}

#[test]
fn ansi_control_sequences_are_dropped() {
    let segs = bytes_to_ansi_segments(b"a\x1b[mb\x1b[8Dc\x1b[J");
    assert_eq!(segs.len(), 1);
    assert_eq!(segs[0].text, "abc");
    assert_eq!(segs[0].color, AnsiColor::Reset);
}

#[test]
fn ansi_unknown_sequence_is_rendered() {
    let segs = bytes_to_ansi_segments(b"\x1b[99mx");
    let joined: String = segs.iter().map(|s| s.text.as_str()).collect();
    assert_eq!(joined, "\\x1b[99mx");
}

#[test]
fn contains_finds_windows() {
    assert!(contains(b"abcde", b"cd"));
    assert!(!contains(b"abcde", b"ce"));
    assert!(!contains(b"ab", b"abc"));
    assert!(contains(b"abc", b"abc"));
}

#[test]
fn replace_all_left_to_right() {
    assert_eq!(replace_all(b"aaa", b"aa", b"X"), b"Xa".to_vec());
    assert_eq!(replace_all(b"xabyab", b"ab", b""), b"xy".to_vec());
    assert_eq!(replace_all(b"no match", b"zz", b"Q"), b"no match".to_vec());
    assert_eq!(replace_all(b"", b"a", b"b"), Vec::<u8>::new());
}
