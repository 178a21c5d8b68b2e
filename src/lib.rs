//! Core of a serial-port terminal: display codecs for raw bytes, the outbound
//! multiplexing frame, a fan-out channel and the connection state machine,
//! with the state of the terminal's views around them.
pub mod text;
pub mod format;
pub mod mux;
pub mod model;
pub mod engine;
pub mod fanout;
pub mod hex_input;
pub mod ports;
pub mod ui;
pub mod terminal;
pub mod console;
pub mod log;
