//! Values that flow through the connection engine: the device settings, the
//! connection state and the logged messages.
use vstd::prelude::*;
use crate::text::owned;

verus! {

/// Where a logged message comes from.
#[derive(Debug, Clone, Copy, PartialEq, Eq, Structural)]
pub enum Direction {
    /// Received from the device.
    Rx,
    /// Sent to the device.
    Tx,
    /// Informational, from the engine itself.
    System,
}

#[derive(Debug, Clone, Copy, PartialEq, Eq, Structural)]
pub enum FlowControl {
    Off,
    Software,
    Hardware,
}

#[derive(Debug, Clone, Copy, PartialEq, Eq, Structural)]
pub enum DataBits {
    Five,
    Six,
    Seven,
    Eight,
}

#[derive(Debug, Clone, Copy, PartialEq, Eq, Structural)]
pub enum Parity {
    Off,
    Odd,
    Even,
}

#[derive(Debug, Clone, Copy, PartialEq, Eq, Structural)]
pub enum StopBits {
    One,
    Two,
}

pub open spec fn flow_control_label(f: FlowControl) -> Seq<char> {
    match f {
        FlowControl::Off => seq!['N', 'o', 'n', 'e'],
        FlowControl::Software => seq!['S', 'o', 'f', 't', 'w', 'a', 'r', 'e'],
        FlowControl::Hardware => seq!['H', 'a', 'r', 'd', 'w', 'a', 'r', 'e'],
    }
}

pub open spec fn data_bits_label(d: DataBits) -> Seq<char> {
    match d {
        DataBits::Five => seq!['5'],
        DataBits::Six => seq!['6'],
        DataBits::Seven => seq!['7'],
        DataBits::Eight => seq!['8'],
    }
}

pub open spec fn parity_label(p: Parity) -> Seq<char> {
    match p {
        Parity::Off => seq!['N', 'o', 'n', 'e'],
        Parity::Odd => seq!['O', 'd', 'd'],
        Parity::Even => seq!['E', 'v', 'e', 'n'],
    }
}

pub open spec fn stop_bits_label(s: StopBits) -> Seq<char> {
    match s {
        StopBits::One => seq!['1'],
        StopBits::Two => seq!['2'],
    }
}

impl FlowControl {
    /// The name shown to users.
    pub fn label(&self) -> (r: String)
        ensures
            r@ == flow_control_label(*self),
    {
        proof {
            reveal_strlit("None");
            reveal_strlit("Software");
            reveal_strlit("Hardware");
        }
        match self {
            FlowControl::Off => owned("None"),
            FlowControl::Software => owned("Software"),
            FlowControl::Hardware => owned("Hardware"),
        }
    }
}

impl DataBits {
    /// The number of data bits, as shown to users.
    pub fn label(&self) -> (r: String)
        ensures
            r@ == data_bits_label(*self),
    {
        proof {
            reveal_strlit("5");
            reveal_strlit("6");
            reveal_strlit("7");
            reveal_strlit("8");
        }
        match self {
            DataBits::Five => owned("5"),
            DataBits::Six => owned("6"),
            DataBits::Seven => owned("7"),
            DataBits::Eight => owned("8"),
        }
    }
}

impl Parity {
    /// The name shown to users.
    pub fn label(&self) -> (r: String)
        ensures
            r@ == parity_label(*self),
    {
        proof {
            reveal_strlit("None");
            reveal_strlit("Odd");
            reveal_strlit("Even");
        }
        match self {
            Parity::Off => owned("None"),
            Parity::Odd => owned("Odd"),
            Parity::Even => owned("Even"),
        }
    }
}

impl StopBits {
    /// The number of stop bits, as shown to users.
    pub fn label(&self) -> (r: String)
        ensures
            r@ == stop_bits_label(*self),
    {
        proof {
            reveal_strlit("1");
            reveal_strlit("2");
        }
        match self {
            StopBits::One => owned("1"),
            StopBits::Two => owned("2"),
        }
    }
}

/// Everything needed to open a device. A new connection always brings a
/// complete replacement.
#[derive(Debug, Clone, PartialEq, Eq)]
pub struct SerialConfig {
    pub port: String,
    pub baudrate: u32,
    pub flow_control: FlowControl,
    pub data_bits: DataBits,
    pub parity: Parity,
    pub stop_bits: StopBits,
}

/// The settings of a `SerialConfig`, with the device name as characters.
pub struct ConfigView {
    pub port: Seq<char>,
    pub baudrate: u32,
    pub flow_control: FlowControl,
    pub data_bits: DataBits,
    pub parity: Parity,
    pub stop_bits: StopBits,
}

impl View for SerialConfig {
    type V = ConfigView;

    open spec fn view(&self) -> ConfigView {
        ConfigView {
            port: self.port@,
            baudrate: self.baudrate,
            flow_control: self.flow_control,
            data_bits: self.data_bits,
            parity: self.parity,
            stop_bits: self.stop_bits,
        }
    }
}

impl SerialConfig {
    /// A copy with the same settings.
    pub fn duplicate(&self) -> (r: SerialConfig)
        ensures
            r@ == self@,
    {
        SerialConfig {
            port: self.port.clone(),
            baudrate: self.baudrate,
            flow_control: self.flow_control,
            data_bits: self.data_bits,
            parity: self.parity,
            stop_bits: self.stop_bits,
        }
    }
}

impl Default for SerialConfig {
    /// No device, 115200 baud, 8 data bits, no parity, one stop bit, no flow
    /// control.
    fn default() -> (r: SerialConfig)
        ensures
            r@ == (ConfigView {
                port: Seq::empty(),
                baudrate: 115_200,
                flow_control: FlowControl::Off,
                data_bits: DataBits::Eight,
                parity: Parity::Off,
                stop_bits: StopBits::One,
            }),
    {
        SerialConfig {
            port: String::new(),
            baudrate: 115_200,
            flow_control: FlowControl::Off,
            data_bits: DataBits::Eight,
            parity: Parity::Off,
            stop_bits: StopBits::One,
        }
    }
}

/// A point on the local wall clock: milliseconds since the Unix epoch, and the
/// local offset from UTC in seconds.
#[derive(Debug, Clone, Copy, PartialEq, Eq, Structural)]
pub struct Timestamp {
    pub unix_ms: i64,
    pub utc_offset_secs: i32,
}

/// Relies on `chrono::Local::now`: reads the local wall clock. Nothing is
/// known of the value.
#[verifier::external_body]
fn local_now() -> (t: Timestamp) {
    let now = chrono::Local::now();
    Timestamp { unix_ms: now.timestamp_millis(), utc_offset_secs: now.offset().local_minus_utc() }
}

/// One entry of the byte log: when it was made, where the bytes come from, and
/// the bytes.
#[derive(Debug, Clone, PartialEq, Eq)]
pub struct LogMessage {
    pub at: Timestamp,
    pub direction: Direction,
    pub bytes: Vec<u8>,
}

impl LogMessage {
    /// A message stamped with the current local time.
    pub fn new(direction: Direction, bytes: Vec<u8>) -> (r: LogMessage)
        ensures
            r.direction == direction,
            r.bytes@ == bytes@,
    {
        LogMessage { at: local_now(), direction, bytes }
    }
}

#[derive(Debug, Clone, Copy, PartialEq, Eq, Structural)]
pub enum ConnectionState {
    Disconnected,
    Connecting,
    Connected,
}

} // verus!
