use scope_core::engine::{
    DeviceAction, Engine, EngineCommand, EngineEvent, EngineInput, ReadOutcome, Step,
};
use scope_core::model::{
    ConnectionState, DataBits, Direction, FlowControl, Parity, SerialConfig, StopBits,
};

fn config(port: &str, baudrate: u32) -> SerialConfig {
    SerialConfig {
        port: port.to_string(),
        baudrate,
        flow_control: FlowControl::Off,
        data_bits: DataBits::Eight,
        parity: Parity::Off,
        stop_bits: StopBits::One,
    }
}

fn describe(step: &Step) -> Vec<String> {
    step.events
        .iter()
        .map(|e| match e {
            EngineEvent::ConnectionState(s) => format!("state {:?}", s),
            EngineEvent::Message(m) => {
                format!("{:?} {}", m.direction, String::from_utf8_lossy(&m.bytes))
            }
            EngineEvent::Error(t) => format!("error {}", t),
        })
        .collect()
}

fn connect(engine: &mut Engine, cfg: SerialConfig, now: u64) -> Step {
    engine.step(EngineInput::Command(EngineCommand::Connect(cfg)), now)
}

#[test]
fn connect_success_announces_device() {
    let mut engine = Engine::new();
    let step = connect(&mut engine, config("/dev/ttyUSB0", 115200), 0);
    assert!(step.close_device);
    assert_eq!(describe(&step), vec!["state Connecting"]);
    match &step.action {
        DeviceAction::Open(cfg) => {
            assert_eq!(cfg.port, "/dev/ttyUSB0");
            assert_eq!(cfg.baudrate, 115200);
        }
        _ => panic!("expected an open"),
    }
    let step = engine.step(EngineInput::Opened(Ok(())), 5);
    assert_eq!(
        describe(&step),
        vec!["state Connected", "System Connected to /dev/ttyUSB0 @ 115200"]
    );
    assert!(matches!(step.action, DeviceAction::Idle));
    assert_eq!(engine.state(), ConnectionState::Connected);
    assert_eq!(engine.backoff_ms(), 200);
}

#[test]
fn failed_open_reports_and_backs_off() {
    let mut engine = Engine::new();
    connect(&mut engine, config("/dev/ttyS9", 9600), 1000);
    let step = engine.step(EngineInput::Opened(Err("No such file".to_string())), 1000);
    assert_eq!(
        describe(&step),
        vec!["error Failed to open serial port /dev/ttyS9 @ 9600: No such file"]
    );
    assert!(matches!(step.action, DeviceAction::Idle));
    assert!(!step.close_device);
    assert_eq!(engine.state(), ConnectionState::Connecting);
    assert_eq!(engine.backoff_ms(), 400);
    let early = engine.step(EngineInput::Tick, 1199);
    assert!(early.events.is_empty());
    assert!(matches!(early.action, DeviceAction::Idle));
    let due = engine.step(EngineInput::Tick, 1200);
    assert_eq!(describe(&due), vec!["state Connecting"]);
    assert!(matches!(due.action, DeviceAction::Open(_)));
}

#[test]
fn backoff_doubles_to_ceiling_and_resets() {
    let mut engine = Engine::new();
    let mut now = 0u64;
    connect(&mut engine, config("COM3", 57600), now);
    let mut seen = Vec::new();
    for _ in 0..6 {
        engine.step(EngineInput::Opened(Err("busy".to_string())), now);
        seen.push(engine.backoff_ms());
        now += 5000;
        let step = engine.step(EngineInput::Tick, now);
        assert!(matches!(step.action, DeviceAction::Open(_)));
    }
    assert_eq!(seen, vec![400, 800, 1600, 2000, 2000, 2000]);
    let step = engine.step(EngineInput::Opened(Ok(())), now);
    assert!(matches!(step.action, DeviceAction::Read));
    assert_eq!(engine.backoff_ms(), 200);
}

#[test]
fn new_connect_resets_backoff() {
    let mut engine = Engine::new();
    connect(&mut engine, config("COM3", 57600), 0);
    engine.step(EngineInput::Opened(Err("busy".to_string())), 0);
    engine.step(EngineInput::Tick, 400);
    engine.step(EngineInput::Opened(Err("busy".to_string())), 400);
    assert_eq!(engine.backoff_ms(), 800);
    connect(&mut engine, config("COM4", 57600), 500);
    assert_eq!(engine.backoff_ms(), 200);
}

#[test]
fn disconnect_cancels_pending_retries() {
    let mut engine = Engine::new();
    connect(&mut engine, config("/dev/ttyACM0", 115200), 0);
    engine.step(EngineInput::Opened(Err("gone".to_string())), 0);
    let step = engine.step(EngineInput::Command(EngineCommand::Disconnect), 10);
    assert!(step.close_device);
    assert_eq!(describe(&step), vec!["state Disconnected"]);
    for k in 1..50u64 {
        let step = engine.step(EngineInput::Tick, k * 10_000);
        assert!(step.events.is_empty());
        assert!(matches!(step.action, DeviceAction::Idle));
    }
    assert_eq!(engine.state(), ConnectionState::Disconnected);
}

#[test]
fn disconnect_is_idempotent() {
    let mut engine = Engine::new();
    let a = engine.step(EngineInput::Command(EngineCommand::Disconnect), 0);
    let b = engine.step(EngineInput::Command(EngineCommand::Disconnect), 1);
    assert_eq!(describe(&a), describe(&b));
    assert_eq!(engine.state(), ConnectionState::Disconnected);
}

#[test]
fn send_while_disconnected_reports_not_connected() {
    let mut engine = Engine::new();
    let step = engine.step(EngineInput::Command(EngineCommand::SendBytes(b"hi".to_vec())), 0);
    assert_eq!(describe(&step), vec!["error Not connected"]);
    assert!(matches!(step.action, DeviceAction::Idle));
    assert!(!step.close_device);
}

fn connected_engine() -> Engine {
    let mut engine = Engine::new();
    connect(&mut engine, config("/dev/ttyUSB1", 9600), 0);
    engine.step(EngineInput::Opened(Ok(())), 0);
    engine
}

#[test]
fn send_while_connected_writes_and_logs_tx() {
    let mut engine = connected_engine();
    let step = engine.step(EngineInput::Command(EngineCommand::SendBytes(vec![1, 2, 3])), 1);
    match &step.action {
        DeviceAction::Write(b) => assert_eq!(b, &vec![1, 2, 3]),
        _ => panic!("expected a write"),
    }
    let step = engine.step(EngineInput::Written(Ok(())), 2);
    assert_eq!(step.events.len(), 1);
    match &step.events[0] {
        EngineEvent::Message(m) => {
            assert_eq!(m.direction, Direction::Tx);
            assert_eq!(m.bytes, vec![1, 2, 3]);
        }
        _ => panic!("expected a message"),
    }
}

#[test]
fn write_failure_keeps_connection() {
    let mut engine = connected_engine();
    engine.step(EngineInput::Command(EngineCommand::SendBytes(vec![9])), 1);
    let step = engine.step(EngineInput::Written(Err("write timed out".to_string())), 2);
    assert_eq!(describe(&step), vec!["error write timed out"]);
    assert!(!step.close_device);
    assert_eq!(engine.state(), ConnectionState::Connected);
}

#[test]
fn tick_reads_and_publishes_rx() {
    let mut engine = connected_engine();
    let step = engine.step(EngineInput::Tick, 30);
    assert!(matches!(step.action, DeviceAction::Read));
    let step = engine.step(EngineInput::ReadDone(ReadOutcome::Data(b"abc".to_vec())), 30);
    assert_eq!(describe(&step), vec!["Rx abc"]);
    engine.step(EngineInput::Tick, 60);
    let step = engine.step(EngineInput::ReadDone(ReadOutcome::Data(Vec::new())), 60);
    assert!(step.events.is_empty());
    engine.step(EngineInput::Tick, 90);
    let step = engine.step(EngineInput::ReadDone(ReadOutcome::TimedOut), 90);
    assert!(step.events.is_empty());
    assert_eq!(engine.state(), ConnectionState::Connected);
}

#[test]
fn read_failure_closes_and_retries() {
    let mut engine = connected_engine();
    engine.step(EngineInput::Tick, 30);
    let step = engine.step(EngineInput::ReadDone(ReadOutcome::Failed("device lost".to_string())), 30);
    assert!(step.close_device);
    assert_eq!(describe(&step), vec!["error device lost", "state Connecting"]);
    assert_eq!(engine.backoff_ms(), 400);
    let step = engine.step(EngineInput::Tick, 100);
    assert!(matches!(step.action, DeviceAction::Idle));
    let step = engine.step(EngineInput::Tick, 230);
    assert!(matches!(step.action, DeviceAction::Open(_)));
}

#[test]
fn stray_outcomes_are_ignored() {
    let mut engine = Engine::new();
    let step = engine.step(EngineInput::ReadDone(ReadOutcome::Data(vec![1])), 0);
    assert!(step.events.is_empty());
    let step = engine.step(EngineInput::Written(Ok(())), 0);
    assert!(step.events.is_empty());
    let step = engine.step(EngineInput::Opened(Ok(())), 0);
    assert!(step.events.is_empty());
    assert_eq!(engine.state(), ConnectionState::Disconnected);
}

#[test]
fn announcement_is_utf8_encoded() {
    let mut engine = Engine::new();
    connect(&mut engine, config("/dev/tté", 300), 0);
    let step = engine.step(EngineInput::Opened(Ok(())), 0);
    match &step.events[1] {
        EngineEvent::Message(m) => {
            assert_eq!(m.direction, Direction::System);
            assert_eq!(m.bytes, "Connected to /dev/tté @ 300".as_bytes().to_vec());
            assert!(m.bytes.windows(2).any(|w| w == [0xC3, 0xA9]));
        }
        _ => panic!("expected the announcement"),
    }
}
