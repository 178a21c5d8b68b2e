use scope_core::terminal::{TerminalView, MAX_LINES};
use scope_core::ui::{InputMode, TerminalLine};

fn contents(view: &TerminalView) -> Vec<String> {
    view.lines.iter().map(|l| l.content.clone()).collect()
}

#[test]
fn new_view_defaults() {
    let v = TerminalView::new();
    assert!(v.lines.is_empty());
    assert_eq!(v.input_mode, InputMode::Ascii);
    assert_eq!(v.mux_link_id, 0xFF);
    assert_eq!(v.mux_link_id_input, "FF");
    assert!(!v.mux_mode);
}

#[test]
fn received_data_is_one_escaped_line() {
    let mut v = TerminalView::new();
    v.add_received_data(b"a\tb\n\x01", Some("12:00".to_string()));
    assert_eq!(contents(&v), vec!["a\\tb\\n\\x01"]);
    assert_eq!(v.lines[0].timestamp.as_deref(), Some("12:00"));
    assert!(!v.lines[0].is_tx);
    v.add_received_data(b"", None);
    assert_eq!(v.lines.len(), 1);
}

#[test]
fn sent_text_is_split_into_lines() {
    let mut v = TerminalView::new();
    v.add_sent_data("foo\nbar\r\n\nbaz", Some("t".to_string()));
    assert_eq!(contents(&v), vec!["foo", "bar", "", "baz"]);
    assert!(v.lines.iter().all(|l| l.is_tx && l.timestamp.as_deref() == Some("t")));
    v.add_sent_data("", None);
    assert_eq!(v.lines.len(), 4);
    v.add_sent_data("last\n", None);
    assert_eq!(v.lines.len(), 5);
}

#[test]
fn sent_bytes_as_uppercase_hex() {
    let mut v = TerminalView::new();
    v.add_sent_bytes(&[0x0a, 0xff, 0x00], None);
    v.add_sent_bytes(&[], None);
    assert_eq!(contents(&v), vec!["[HEX] 0A FF 00", "[HEX] "]);
}

#[test]
fn oldest_lines_are_dropped() {
    let mut v = TerminalView::new();
    for i in 0..(MAX_LINES + 5) {
        v.add_line(TerminalLine { content: i.to_string(), timestamp: None, is_tx: false });
    }
    assert_eq!(v.lines.len(), MAX_LINES);
    assert_eq!(v.lines[0].content, "5");
    v.clear();
    assert!(v.lines.is_empty());
}

#[test]
fn search_ignores_case_unless_asked() {
    let mut v = TerminalView::new();
    v.add_sent_data("Hello World\nfoo\nHELLO", None);
    v.search_buffer = "hello".to_string();
    v.update_search();
    assert_eq!(v.search_results, vec![0, 2]);
    assert_eq!(v.current_search_position(), Some(0));
    v.next_search_result();
    assert_eq!(v.current_search_position(), Some(2));
    v.next_search_result();
    assert_eq!(v.search_index, 0);
    v.prev_search_result();
    assert_eq!(v.search_index, 1);
    v.is_case_sensitive = true;
    v.search_buffer = "Hello".to_string();
    v.update_search();
    assert_eq!(v.search_results, vec![0]);
    v.search_buffer.clear();
    v.update_search();
    assert!(v.search_results.is_empty());
    assert_eq!(v.current_search_position(), None);
}

#[test]
fn hex_entry_typing_and_backspace() {
    let mut v = TerminalView::new();
    v.toggle_input_mode();
    assert_eq!(v.input_mode, InputMode::Hex);
    for c in ['a', 'B', 'x', '3'] {
        v.add_hex_char(c);
    }
    let shown: Vec<String> = v.hex_bytes.iter().map(|h| h.display()).collect();
    assert_eq!(shown, vec!["AB", "3_"]);
    assert_eq!(v.get_hex_bytes(), vec![0xAB]);
    v.backspace_hex();
    let shown: Vec<String> = v.hex_bytes.iter().map(|h| h.display()).collect();
    assert_eq!(shown, vec!["AB", "__"]);
    v.backspace_hex();
    assert_eq!(v.hex_bytes.len(), 1);
    v.backspace_hex();
    assert_eq!(v.hex_bytes[0].display(), "A_");
    v.clear_hex();
    assert!(v.hex_bytes.is_empty());
    v.toggle_input_mode();
    assert_eq!(v.input_mode, InputMode::Ascii);
}

#[test]
fn parse_hex_string_cases() {
    let mut v = TerminalView::new();
    assert_eq!(v.parse_hex_string("de ad-BE:ef"), Some(vec![0xDE, 0xAD, 0xBE, 0xEF]));
    assert_eq!(v.hex_error, None);
    assert_eq!(v.parse_hex_string("abc"), None);
    assert_eq!(v.hex_error.as_deref(), Some("Odd number of hex digits"));
    assert_eq!(v.parse_hex_string("xyz"), Some(vec![]));
    assert_eq!(v.hex_error.as_deref(), Some("Odd number of hex digits"));
    assert_eq!(v.parse_hex_string("0f"), Some(vec![0x0F]));
    assert_eq!(v.hex_error, None);
}

#[test]
fn sent_text_keeps_lone_final_carriage_return() {
    let mut v = TerminalView::new();
    v.add_sent_data("a\r\nb\r", None);
    assert_eq!(contents(&v), vec!["a", "b\r"]);
}

#[test]
fn send_command_ascii_plain_and_framed() {
    let mut v = TerminalView::new();
    assert_eq!(v.send_command(None), None);
    v.input_buffer = "hi".to_string();
    assert_eq!(v.send_command(Some("t".to_string())), Some(b"hi\n".to_vec()));
    assert_eq!(contents(&v), vec!["hi"]);
    assert!(v.lines[0].is_tx);
    assert!(v.input_buffer.is_empty());
    v.mux_mode = true;
    v.mux_link_id = 2;
    v.input_buffer = "hi".to_string();
    assert_eq!(
        v.send_command(None),
        Some(vec![0xBF, 0x02, 0x00, 0x03, b'h', b'i', b'\n', 0xFD])
    );
}

#[test]
fn send_command_hex_entries() {
    let mut v = TerminalView::new();
    v.toggle_input_mode();
    assert_eq!(v.send_command(None), None);
    for c in ['a', 'b', '3'] {
        v.add_hex_char(c);
    }
    assert_eq!(v.send_command(None), Some(vec![0xAB]));
    assert_eq!(contents(&v), vec!["[HEX] AB"]);
    assert!(v.hex_bytes.is_empty());
    assert_eq!(v.input_mode, InputMode::Hex);
}
