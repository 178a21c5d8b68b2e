//! Plain values that the user interface exchanges with the core.
use vstd::prelude::*;

verus! {

/// The connection as the user interface reports it.
#[derive(Debug, Clone, PartialEq)]
pub enum ConnectionStatus {
    Disconnected,
    Connecting,
    Connected,
    Reconnecting,
    Error(String),
}

impl Default for ConnectionStatus {
    fn default() -> (r: ConnectionStatus)
        ensures
            r is Disconnected,
    {
        ConnectionStatus::Disconnected
    }
}

/// How typed input is sent: as text, or as hexadecimal bytes.
#[derive(Debug, Clone, Copy, PartialEq, Eq, Structural)]
pub enum InputMode {
    Ascii,
    Hex,
}

impl Default for InputMode {
    fn default() -> (r: InputMode)
        ensures
            r == InputMode::Ascii,
    {
        InputMode::Ascii
    }
}

/// One line of the terminal view.
#[derive(Debug, Clone)]
pub struct TerminalLine {
    pub content: String,
    pub timestamp: Option<String>,
    /// Sent to the device rather than received.
    pub is_tx: bool,
}

/// Keyboard shortcuts of the terminal.
#[derive(Debug, Clone, Copy, PartialEq, Eq, Structural)]
pub enum Shortcut {
    JumpToEnd,
    JumpToStart,
    ScrollPageUp,
    ScrollPageDown,
    HistoryPrev,
    HistoryNext,
    SaveHistory,
    ToggleRecord,
    ClearLog,
}

/// What the program is asked to do from the command line.
#[derive(Debug, Clone)]
pub enum Commands {
    /// Monitor a serial port.
    Serial { port: Option<String>, baudrate: Option<u32> },
    /// List the available serial ports.
    List { verbose: bool },
    /// Connect over Bluetooth Low Energy.
    Ble { name_device: String, mtu: u32 },
    /// Start the graphical interface.
    Gui,
}

} // verus!
