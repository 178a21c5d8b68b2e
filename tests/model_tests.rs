use scope_core::hex_input::HexByte;
use scope_core::model::{
    ConnectionState, DataBits, Direction, FlowControl, LogMessage, Parity, SerialConfig, StopBits,
};
use scope_core::ports::{PortInfo, PortListDialog};
use scope_core::ui::{ConnectionStatus, InputMode};

#[test]
fn serial_config_default_values() {
    let cfg = SerialConfig::default();
    assert_eq!(cfg.port, "");
    assert_eq!(cfg.baudrate, 115_200);
    assert_eq!(cfg.flow_control, FlowControl::Off);
    assert_eq!(cfg.data_bits, DataBits::Eight);
    assert_eq!(cfg.parity, Parity::Off);
    assert_eq!(cfg.stop_bits, StopBits::One);
}

#[test]
fn setting_labels() {
    assert_eq!(FlowControl::Off.label(), "None");
    assert_eq!(FlowControl::Software.label(), "Software");
    assert_eq!(FlowControl::Hardware.label(), "Hardware");
    assert_eq!(DataBits::Five.label(), "5");
    assert_eq!(DataBits::Eight.label(), "8");
    assert_eq!(Parity::Off.label(), "None");
    assert_eq!(Parity::Odd.label(), "Odd");
    assert_eq!(Parity::Even.label(), "Even");
    assert_eq!(StopBits::One.label(), "1");
    assert_eq!(StopBits::Two.label(), "2");
}

#[test]
fn log_message_keeps_direction_and_bytes() {
    let m = LogMessage::new(Direction::Rx, vec![1, 2]);
    assert_eq!(m.direction, Direction::Rx);
    assert_eq!(m.bytes, vec![1, 2]);
    assert!(m.at.unix_ms > 0);
}

#[test]
fn hex_byte_entry() {
    let mut hb = HexByte::new();
    assert!(!hb.is_complete());
    assert_eq!(hb.to_byte(), None);
    assert_eq!(hb.display(), "__");
    hb.high = Some('A');
    assert_eq!(hb.display(), "A_");
    hb.low = Some('f');
    assert!(hb.is_complete());
    assert_eq!(hb.to_byte(), Some(0xAF));
    assert_eq!(hb.display(), "Af");
    hb.low = Some('g');
    assert_eq!(hb.to_byte(), None);
    hb.clear();
    assert!(hb.high.is_none() && hb.low.is_none());
    let only_low = HexByte { high: None, low: Some('3') };
    assert_eq!(only_low.display(), "_3");
}

#[test]
fn port_list_dialog_flow() {
    let mut d = PortListDialog::new();
    assert!(!d.is_visible && !d.is_loading && d.ports.is_empty());
    d.show();
    assert!(d.is_visible);
    d.refresh();
    assert!(d.is_loading && d.ports.is_empty());
    d.set_ports(vec![PortInfo {
        name: "/dev/ttyUSB0".to_string(),
        serial_number: None,
        pid: 0x6001,
        vid: 0x0403,
        manufacturer: Some("FTDI".to_string()),
    }]);
    assert!(!d.is_loading);
    assert_eq!(d.ports.len(), 1);
    d.dismiss();
    assert!(!d.is_visible);
}

#[test]
fn defaults_of_ui_values() {
    assert_eq!(ConnectionStatus::default(), ConnectionStatus::Disconnected);
    assert_eq!(InputMode::default(), InputMode::Ascii);
    assert_ne!(ConnectionState::Connected, ConnectionState::Connecting);
}
