use scope_core::engine::EngineEvent;
use scope_core::format::{AnsiColor, SegmentKind, StyledSegment};
use scope_core::log::{push_log_line, LogKind, LogLine, MAX_LOG_LINES};
use scope_core::model::{ConnectionState, Direction, LogMessage};

fn line(n: usize) -> LogLine {
    LogLine {
        timestamp: n.to_string(),
        prefix: "[SYS]".to_string(),
        kind: LogKind::Sys,
        segments: Vec::new(),
    }
}

#[test]
fn rx_message_becomes_colored_line() {
    let event = EngineEvent::Message(LogMessage::new(Direction::Rx, b"\x1b[32mok\x1b[0m\n".to_vec()));
    let l = LogLine::from_event(&event, "10:00:00.000".to_string()).unwrap();
    assert_eq!(l.kind, LogKind::Rx);
    assert_eq!(l.prefix, "[RX]");
    assert_eq!(l.segments.len(), 2);
    assert_eq!(l.segments[0].text, "ok");
    assert_eq!(l.segments[0].color, AnsiColor::Green);
    assert_eq!(l.segments[1].text, "\\n");
    assert_eq!(l.serialize(), "[10:00:00.000][ <=] ok\\n");
}

#[test]
fn error_becomes_red_line() {
    let event = EngineEvent::Error("Not connected".to_string());
    let l = LogLine::from_event(&event, "t".to_string()).unwrap();
    assert_eq!(l.kind, LogKind::Error);
    assert_eq!(l.prefix, "[ERR]");
    assert_eq!(l.segments[0].color, AnsiColor::Red);
    assert_eq!(l.segments[0].kind, SegmentKind::Plain);
    assert_eq!(l.serialize(), "[t][ERR] Not connected");
}

#[test]
fn state_change_gives_no_line() {
    let event = EngineEvent::ConnectionState(ConnectionState::Connected);
    assert!(LogLine::from_event(&event, "t".to_string()).is_none());
}

#[test]
fn serialize_tags() {
    let mut l = LogLine {
        timestamp: "12:34:56.789".to_string(),
        prefix: "[TX]".to_string(),
        kind: LogKind::Tx,
        segments: vec![
            StyledSegment { text: "a".to_string(), kind: SegmentKind::Plain, color: AnsiColor::Reset },
            StyledSegment { text: "\\x00".to_string(), kind: SegmentKind::Escape, color: AnsiColor::Yellow },
        ],
    };
    assert_eq!(l.serialize(), "[12:34:56.789][ =>] a\\x00");
    l.kind = LogKind::Sys;
    assert_eq!(l.serialize(), "[12:34:56.789][SYS] a\\x00");
}

#[test]
fn log_keeps_last_lines() {
    let mut log = Vec::new();
    for n in 0..(MAX_LOG_LINES + 3) {
        push_log_line(&mut log, line(n));
    }
    assert_eq!(log.len(), MAX_LOG_LINES);
    assert_eq!(log[0].timestamp, "3");
    assert_eq!(log[MAX_LOG_LINES - 1].timestamp, (MAX_LOG_LINES + 2).to_string());
}
