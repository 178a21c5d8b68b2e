use scope_core::console::{replace_hex_sequence, CommandHistory};

#[test]
fn plain_text_is_its_bytes() {
    assert_eq!(replace_hex_sequence("AT+RST"), b"AT+RST".to_vec());
    assert_eq!(replace_hex_sequence(""), Vec::<u8>::new());
}

#[test]
fn dollar_sequence_gives_bytes() {
    assert_eq!(replace_hex_sequence("$0a0D"), vec![0x0A, 0x0D]);
    assert_eq!(replace_hex_sequence("x$ff,01 x"), vec![b'x', 0xFF, 0x01, b'x']);
}

#[test]
fn separator_ends_a_byte_early() {
    assert_eq!(replace_hex_sequence("$a,b"), vec![0x0A]);
    assert_eq!(replace_hex_sequence("$1.2-3_4 "), vec![0x01, 0x02, 0x03, 0x04]);
}

#[test]
fn sequence_ends_on_other_character() {
    assert_eq!(replace_hex_sequence("$41zq"), vec![0x41, b'z', b'q']);
    assert_eq!(replace_hex_sequence("$4$"), vec![b'$']);
    assert_eq!(replace_hex_sequence("$"), Vec::<u8>::new());
}

#[test]
fn history_walk_back_and_forth() {
    let mut h = CommandHistory::new();
    h.push_entry("one".to_string());
    h.push_entry("two".to_string());
    h.push_entry("two".to_string());
    assert_eq!(h.history, vec!["one".to_string(), "two".to_string()]);
    h.input = "draft".to_string();
    h.apply_history_prev();
    assert_eq!(h.input, "two");
    h.apply_history_prev();
    assert_eq!(h.input, "one");
    h.apply_history_prev();
    assert_eq!(h.input, "one");
    assert_eq!(h.history_index, Some(0));
    h.apply_history_next();
    assert_eq!(h.input, "two");
    h.apply_history_next();
    assert_eq!(h.input, "draft");
    assert_eq!(h.history_index, None);
    h.apply_history_next();
    assert_eq!(h.input, "draft");
}

#[test]
fn history_empty_does_nothing() {
    let mut h = CommandHistory::new();
    h.input = "x".to_string();
    h.apply_history_prev();
    h.apply_history_next();
    assert_eq!(h.input, "x");
    assert_eq!(h.history_index, None);
}

use scope_core::console::{ConnectFields, ConsoleAction};

fn fields(port: &str, baudrate: &str) -> ConnectFields {
    ConnectFields { port: port.to_string(), baudrate: baudrate.to_string() }
}

fn connected_to(action: &ConsoleAction) -> Option<(String, u32)> {
    match action {
        ConsoleAction::Connect(cfg) => Some((cfg.port.clone(), cfg.baudrate)),
        _ => None,
    }
}

fn error_text(action: &ConsoleAction) -> Option<String> {
    match action {
        ConsoleAction::Error(e) => Some(e.clone()),
        _ => None,
    }
}

#[test]
fn connect_command_sets_fields() {
    let mut f = fields("", "115200");
    let a = f.handle_command("!connect /dev/ttyUSB0 9600");
    assert_eq!(connected_to(&a), Some(("/dev/ttyUSB0".to_string(), 9600)));
    assert_eq!(f.port, "/dev/ttyUSB0");
    assert_eq!(f.baudrate, "9600");
}

#[test]
fn serial_connect_takes_arguments_in_any_order() {
    let mut f = fields("", "");
    let a = f.handle_command("!!serial connect 57600 COM3");
    assert_eq!(connected_to(&a), Some(("COM3".to_string(), 57600)));
}

#[test]
fn serial_alone_connects_with_fields() {
    let mut f = fields("  COM1 ", " 19200\t");
    let a = f.handle_command("!serial");
    assert_eq!(connected_to(&a), Some(("COM1".to_string(), 19200)));
}

#[test]
fn disconnect_commands() {
    let mut f = fields("COM1", "9600");
    assert!(matches!(f.handle_command("!disconnect"), ConsoleAction::Disconnect));
    assert!(matches!(f.handle_command("!serial disconnect"), ConsoleAction::Disconnect));
}

#[test]
fn refused_commands() {
    let mut f = fields("COM1", "9600");
    assert_eq!(
        error_text(&f.handle_command("!serial open")),
        Some("Invalid serial subcommand".to_string())
    );
    assert_eq!(error_text(&f.handle_command("!bogus")), Some("Unknown command".to_string()));
    assert!(matches!(f.handle_command("!  "), ConsoleAction::Nothing));
    assert_eq!(f.port, "COM1");
}

#[test]
fn field_validation() {
    assert_eq!(
        error_text(&fields(" ", "9600").connect_from_fields()),
        Some("Port is empty".to_string())
    );
    assert_eq!(
        error_text(&fields("COM1", "fast").connect_from_fields()),
        Some("Baudrate is not a number".to_string())
    );
    assert_eq!(
        error_text(&fields("COM1", "4294967296").connect_from_fields()),
        Some("Baudrate is not a number".to_string())
    );
    assert_eq!(
        error_text(&fields("COM1", "+").connect_from_fields()),
        Some("Baudrate is not a number".to_string())
    );
    assert_eq!(
        connected_to(&fields("COM1", "+4294967295").connect_from_fields()),
        Some(("COM1".to_string(), 4294967295))
    );
}

#[test]
fn unicode_space_separates_words() {
    let mut f = fields("", "9600");
    let a = f.handle_command("!connect\u{3000}COM9\u{a0}4800");
    assert_eq!(connected_to(&a), Some(("COM9".to_string(), 4800)));
}
