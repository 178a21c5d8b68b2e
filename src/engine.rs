//! The connection engine: the decisions that drive opening, reading, writing
//! and reconnecting a serial device.
//!
//! The engine never touches the device itself. Each call of [`Engine::step`]
//! takes one input (a command, a tick of the clock, or the outcome of the last
//! device operation) and answers with the events to publish, whether to drop
//! the open device, and the one device operation to perform next. Its driver
//! performs that operation and hands the outcome back as the next input.
use vstd::prelude::*;
use crate::model::{ConfigView, ConnectionState, Direction, LogMessage, SerialConfig};
use crate::text::{decimal, into_bytes, owned, push_decimal, utf8_of};

verus! {

/// Delay before the first retry after a failed open, in milliseconds.
pub const BACKOFF_FLOOR_MS: u64 = 200;

/// Longest delay between two retries, in milliseconds.
pub const BACKOFF_CEILING_MS: u64 = 2000;

pub enum EngineCommand {
    Connect(SerialConfig),
    Disconnect,
    SendBytes(Vec<u8>),
}

pub enum EngineEvent {
    ConnectionState(ConnectionState),
    Message(LogMessage),
    Error(String),
}

/// What a bounded read of the device gave.
pub enum ReadOutcome {
    Data(Vec<u8>),
    TimedOut,
    Failed(String),
}

/// One input of the engine.
pub enum EngineInput {
    Command(EngineCommand),
    /// The periodic tick.
    Tick,
    /// The outcome of the last `Open`; the error carries its reason.
    Opened(Result<(), String>),
    /// The outcome of the last `Read`.
    ReadDone(ReadOutcome),
    /// The outcome of the last `Write`; the error carries its reason.
    Written(Result<(), String>),
}

/// The device operation the engine asks for next.
pub enum DeviceAction {
    Idle,
    Open(SerialConfig),
    Read,
    Write(Vec<u8>),
}

/// The answer to one input.
pub struct Step {
    /// Drop the open device, if any, before anything else.
    pub close_device: bool,
    /// Events to publish, in order.
    pub events: Vec<EngineEvent>,
    pub action: DeviceAction,
}

/// The device operation whose outcome the engine waits for.
enum Pending {
    Nothing,
    /// An open; when it succeeds, a read follows at once.
    Open(bool),
    Read,
    Write(Vec<u8>),
}

pub struct Engine {
    desired: Option<SerialConfig>,
    device_open: bool,
    state: ConnectionState,
    backoff_ms: u64,
    next_retry_ms: u64,
    pending: Pending,
}

pub enum PendingView {
    Nothing,
    Open(bool),
    Read,
    Write(Seq<u8>),
}

pub struct EngineView {
    /// The device to keep connected, if any.
    pub desired: Option<ConfigView>,
    /// Whether the driver holds an open device.
    pub device_open: bool,
    pub state: ConnectionState,
    /// Delay that the next failure schedules.
    pub backoff_ms: u64,
    /// Clock reading from which a tick retries the open.
    pub next_retry_ms: u64,
    pub pending: PendingView,
}

pub enum EventView {
    State(ConnectionState),
    Message(Direction, Seq<u8>),
    Error(Seq<char>),
}

pub enum CommandView {
    Connect(ConfigView),
    Disconnect,
    SendBytes(Seq<u8>),
}

pub enum ReadView {
    Data(Seq<u8>),
    TimedOut,
    Failed(Seq<char>),
}

pub enum InputView {
    Command(CommandView),
    Tick,
    Opened(Result<(), Seq<char>>),
    ReadDone(ReadView),
    Written(Result<(), Seq<char>>),
}

pub enum ActionView {
    Idle,
    Open(ConfigView),
    Read,
    Write(Seq<u8>),
}

pub struct StepView {
    pub engine: EngineView,
    pub close_device: bool,
    pub events: Seq<EventView>,
    pub action: ActionView,
}

impl View for Engine {
    type V = EngineView;

    closed spec fn view(&self) -> EngineView {
        EngineView {
            desired: match self.desired {
                Some(c) => Some(c@),
                None => None,
            },
            device_open: self.device_open,
            state: self.state,
            backoff_ms: self.backoff_ms,
            next_retry_ms: self.next_retry_ms,
            pending: match self.pending {
                Pending::Nothing => PendingView::Nothing,
                Pending::Open(r) => PendingView::Open(r),
                Pending::Read => PendingView::Read,
                Pending::Write(b) => PendingView::Write(b@),
            },
        }
    }
}

impl View for EngineEvent {
    type V = EventView;

    open spec fn view(&self) -> EventView {
        match self {
            EngineEvent::ConnectionState(s) => EventView::State(*s),
            EngineEvent::Message(m) => EventView::Message(m.direction, m.bytes@),
            EngineEvent::Error(e) => EventView::Error(e@),
        }
    }
}

impl View for EngineCommand {
    type V = CommandView;

    open spec fn view(&self) -> CommandView {
        match self {
            EngineCommand::Connect(c) => CommandView::Connect(c@),
            EngineCommand::Disconnect => CommandView::Disconnect,
            EngineCommand::SendBytes(b) => CommandView::SendBytes(b@),
        }
    }
}

pub open spec fn result_view(r: Result<(), String>) -> Result<(), Seq<char>> {
    match r {
        Ok(()) => Ok(()),
        Err(e) => Err(e@),
    }
}

impl View for EngineInput {
    type V = InputView;

    open spec fn view(&self) -> InputView {
        match self {
            EngineInput::Command(c) => InputView::Command(c@),
            EngineInput::Tick => InputView::Tick,
            EngineInput::Opened(r) => InputView::Opened(result_view(*r)),
            EngineInput::ReadDone(o) => InputView::ReadDone(
                match o {
                    ReadOutcome::Data(b) => ReadView::Data(b@),
                    ReadOutcome::TimedOut => ReadView::TimedOut,
                    ReadOutcome::Failed(e) => ReadView::Failed(e@),
                },
            ),
            EngineInput::Written(r) => InputView::Written(result_view(*r)),
        }
    }
}

impl View for DeviceAction {
    type V = ActionView;

    open spec fn view(&self) -> ActionView {
        match self {
            DeviceAction::Idle => ActionView::Idle,
            DeviceAction::Open(c) => ActionView::Open(c@),
            DeviceAction::Read => ActionView::Read,
            DeviceAction::Write(b) => ActionView::Write(b@),
        }
    }
}

pub open spec fn events_view(v: Seq<EngineEvent>) -> Seq<EventView> {
    v.map_values(|e: EngineEvent| e@)
}

/// The answer `r` and the engine after it, `e`, as one value.
pub open spec fn step_view(e: EngineView, r: Step) -> StepView {
    StepView {
        engine: e,
        close_device: r.close_device,
        events: events_view(r.events@),
        action: r.action@,
    }
}

/// The delay after `b`: doubled, up to the ceiling.
pub open spec fn next_backoff(b: u64) -> u64 {
    if b * 2 < BACKOFF_CEILING_MS {
        (b * 2) as u64
    } else {
        BACKOFF_CEILING_MS
    }
}

/// The clock reading `delay` after `now`, saturating at the largest one.
pub open spec fn retry_at(now: u64, delay: u64) -> u64 {
    if now + delay <= u64::MAX {
        (now + delay) as u64
    } else {
        u64::MAX
    }
}

pub open spec fn not_connected_text() -> Seq<char> {
    "Not connected"@
}

/// The text of the message that announces a successful open.
pub open spec fn connected_text(cfg: ConfigView) -> Seq<char> {
    "Connected to "@ + cfg.port + " @ "@ + decimal(cfg.baudrate)
}

/// The text of the error that reports a failed open.
pub open spec fn open_failed_text(cfg: ConfigView, cause: Seq<char>) -> Seq<char> {
    "Failed to open serial port "@ + cfg.port + " @ "@ + decimal(cfg.baudrate) + ": "@ + cause
}

/// An input that does not answer what the engine waits for changes nothing.
pub open spec fn ignored(e: EngineView) -> StepView {
    StepView { engine: e, close_device: false, events: Seq::empty(), action: ActionView::Idle }
}

/// What the engine does with each input, given the clock reading `now`.
///
/// - `Connect` records the settings, drops any open device, goes
///   `Connecting`, resets the backoff and the retry time, and asks to open.
/// - `Disconnect` forgets the settings, which stops all retries, drops the
///   device and goes `Disconnected`.
/// - `SendBytes` asks to write when a device is open, and otherwise reports
///   `Not connected` without touching the device.
/// - A tick retries the open when settings are recorded, no device is open and
///   the retry time has come; else, with a device open, it asks to read.
/// - A successful open goes `Connected`, resets the backoff and announces the
///   device; a tick's open is followed by a read. A failed open reports the
///   reason, schedules a retry after the backoff, and doubles the backoff up
///   to its ceiling.
/// - Data read is published as received bytes; an empty read and a timeout do
///   nothing. A failed read drops the device, reports the reason, and goes
///   `Connecting` with a retry scheduled as after a failed open when settings
///   are recorded, or `Disconnected` when not.
/// - A successful write publishes the bytes written; a failed one reports the
///   reason and keeps the device.
pub open spec fn step_spec(e: EngineView, input: InputView, now: u64) -> StepView {
    match input {
        InputView::Command(CommandView::Connect(cfg)) => StepView {
            engine: EngineView {
                desired: Some(cfg),
                device_open: false,
                state: ConnectionState::Connecting,
                backoff_ms: BACKOFF_FLOOR_MS,
                next_retry_ms: now,
                pending: PendingView::Open(false),
            },
            close_device: true,
            events: seq![EventView::State(ConnectionState::Connecting)],
            action: ActionView::Open(cfg),
        },
        InputView::Command(CommandView::Disconnect) => StepView {
            engine: EngineView {
                desired: None,
                device_open: false,
                state: ConnectionState::Disconnected,
                pending: PendingView::Nothing,
                ..e
            },
            close_device: true,
            events: seq![EventView::State(ConnectionState::Disconnected)],
            action: ActionView::Idle,
        },
        InputView::Command(CommandView::SendBytes(b)) => if e.device_open {
            StepView {
                engine: EngineView { pending: PendingView::Write(b), ..e },
                close_device: false,
                events: Seq::empty(),
                action: ActionView::Write(b),
            }
        } else {
            StepView {
                engine: EngineView { pending: PendingView::Nothing, ..e },
                close_device: false,
                events: seq![EventView::Error(not_connected_text())],
                action: ActionView::Idle,
            }
        },
        InputView::Tick => match e.desired {
            Some(cfg) if !e.device_open && now >= e.next_retry_ms => StepView {
                engine: EngineView {
                    state: ConnectionState::Connecting,
                    pending: PendingView::Open(true),
                    ..e
                },
                close_device: false,
                events: seq![EventView::State(ConnectionState::Connecting)],
                action: ActionView::Open(cfg),
            },
            _ => if e.device_open {
                StepView {
                    engine: EngineView { pending: PendingView::Read, ..e },
                    close_device: false,
                    events: Seq::empty(),
                    action: ActionView::Read,
                }
            } else {
                StepView {
                    engine: EngineView { pending: PendingView::Nothing, ..e },
                    close_device: false,
                    events: Seq::empty(),
                    action: ActionView::Idle,
                }
            },
        },
        InputView::Opened(r) => match (e.pending, e.desired) {
            (PendingView::Open(then_read), Some(cfg)) => match r {
                Ok(()) => StepView {
                    engine: EngineView {
                        device_open: true,
                        state: ConnectionState::Connected,
                        backoff_ms: BACKOFF_FLOOR_MS,
                        next_retry_ms: now,
                        pending: if then_read {
                            PendingView::Read
                        } else {
                            PendingView::Nothing
                        },
                        ..e
                    },
                    close_device: false,
                    events: seq![
                        EventView::State(ConnectionState::Connected),
                        EventView::Message(Direction::System, utf8_of(connected_text(cfg))),
                    ],
                    action: if then_read {
                        ActionView::Read
                    } else {
                        ActionView::Idle
                    },
                },
                Err(cause) => StepView {
                    engine: EngineView {
                        device_open: false,
                        backoff_ms: next_backoff(e.backoff_ms),
                        next_retry_ms: retry_at(now, e.backoff_ms),
                        pending: PendingView::Nothing,
                        ..e
                    },
                    close_device: false,
                    events: seq![EventView::Error(open_failed_text(cfg, cause))],
                    action: ActionView::Idle,
                },
            },
            _ => ignored(e),
        },
        InputView::ReadDone(o) => if e.pending is Read && e.device_open {
            match o {
                ReadView::Data(b) => StepView {
                    engine: EngineView { pending: PendingView::Nothing, ..e },
                    close_device: false,
                    events: if b.len() > 0 {
                        seq![EventView::Message(Direction::Rx, b)]
                    } else {
                        Seq::empty()
                    },
                    action: ActionView::Idle,
                },
                ReadView::TimedOut => StepView {
                    engine: EngineView { pending: PendingView::Nothing, ..e },
                    close_device: false,
                    events: Seq::empty(),
                    action: ActionView::Idle,
                },
                ReadView::Failed(cause) => if e.desired is Some {
                    StepView {
                        engine: EngineView {
                            device_open: false,
                            state: ConnectionState::Connecting,
                            backoff_ms: next_backoff(e.backoff_ms),
                            next_retry_ms: retry_at(now, e.backoff_ms),
                            pending: PendingView::Nothing,
                            ..e
                        },
                        close_device: true,
                        events: seq![
                            EventView::Error(cause),
                            EventView::State(ConnectionState::Connecting),
                        ],
                        action: ActionView::Idle,
                    }
                } else {
                    StepView {
                        engine: EngineView {
                            device_open: false,
                            state: ConnectionState::Disconnected,
                            pending: PendingView::Nothing,
                            ..e
                        },
                        close_device: true,
                        events: seq![
                            EventView::Error(cause),
                            EventView::State(ConnectionState::Disconnected),
                        ],
                        action: ActionView::Idle,
                    }
                },
            }
        } else {
            ignored(e)
        },
        InputView::Written(r) => match e.pending {
            PendingView::Write(b) if e.device_open => StepView {
                engine: EngineView { pending: PendingView::Nothing, ..e },
                close_device: false,
                events: match r {
                    Ok(()) => seq![EventView::Message(Direction::Tx, b)],
                    Err(cause) => seq![EventView::Error(cause)],
                },
                action: ActionView::Idle,
            },
            _ => ignored(e),
        },
    }
}

/// The states the engine can be in.
pub open spec fn engine_wf(e: EngineView) -> bool {
    &&& BACKOFF_FLOOR_MS <= e.backoff_ms <= BACKOFF_CEILING_MS
    &&& e.device_open <==> e.state == ConnectionState::Connected
    &&& e.desired is None ==> !e.device_open && e.state == ConnectionState::Disconnected
    &&& e.pending is Open ==> e.desired is Some && !e.device_open
    &&& (e.pending is Read || e.pending is Write) ==> e.device_open
}

fn connected_message(cfg: &SerialConfig) -> (r: Vec<u8>)
    ensures
        r@ == utf8_of(connected_text(cfg@)),
{
    let mut s = owned("Connected to ");
    s.append(cfg.port.as_str());
    s.append(" @ ");
    push_decimal(&mut s, cfg.baudrate);
    into_bytes(s)
}

fn open_failed_message(cfg: &SerialConfig, cause: &String) -> (r: String)
    ensures
        r@ == open_failed_text(cfg@, cause@),
{
    let mut s = owned("Failed to open serial port ");
    s.append(cfg.port.as_str());
    s.append(" @ ");
    push_decimal(&mut s, cfg.baudrate);
    s.append(": ");
    s.append(cause.as_str());
    s
}

fn next_backoff_exec(b: u64) -> (r: u64)
    requires
        b <= BACKOFF_CEILING_MS,
    ensures
        r == next_backoff(b),
{
    if b * 2 < BACKOFF_CEILING_MS {
        b * 2
    } else {
        BACKOFF_CEILING_MS
    }
}

fn retry_at_exec(now: u64, delay: u64) -> (r: u64)
    ensures
        r == retry_at(now, delay),
{
    if now <= u64::MAX - delay {
        now + delay
    } else {
        u64::MAX
    }
}

impl Engine {
    pub open spec fn wf(&self) -> bool {
        engine_wf(self@)
    }

    /// A disconnected engine with no recorded settings.
    pub fn new() -> (r: Engine)
        ensures
            r.wf(),
            r@.desired is None,
            !r@.device_open,
            r@.state == ConnectionState::Disconnected,
            r@.backoff_ms == BACKOFF_FLOOR_MS,
            r@.next_retry_ms == 0,
            r@.pending is Nothing,
    {
        Engine {
            desired: None,
            device_open: false,
            state: ConnectionState::Disconnected,
            backoff_ms: BACKOFF_FLOOR_MS,
            next_retry_ms: 0,
            pending: Pending::Nothing,
        }
    }

    pub fn state(&self) -> (r: ConnectionState)
        ensures
            r == self@.state,
    {
        self.state
    }

    pub fn backoff_ms(&self) -> (r: u64)
        ensures
            r == self@.backoff_ms,
    {
        self.backoff_ms
    }

    /// Handles one input at clock reading `now_ms`, as `step_spec` says.
    pub fn step(&mut self, input: EngineInput, now_ms: u64) -> (r: Step)
        requires
            old(self).wf(),
        ensures
            final(self).wf(),
            step_view(final(self)@, r) == step_spec(old(self)@, input@, now_ms),
    {
        match input {
            EngineInput::Command(cmd) => self.on_command(cmd, now_ms),
            EngineInput::Tick => self.on_tick(now_ms),
            EngineInput::Opened(r) => self.on_opened(r, now_ms),
            EngineInput::ReadDone(o) => self.on_read(o, now_ms),
            EngineInput::Written(r) => self.on_written(r),
        }
    }

    fn on_command(&mut self, cmd: EngineCommand, now_ms: u64) -> (r: Step)
        requires
            old(self).wf(),
        ensures
            final(self).wf(),
            step_view(final(self)@, r) == step_spec(old(self)@, InputView::Command(cmd@), now_ms),
    {
        match cmd {
            EngineCommand::Connect(cfg) => {
                let action = DeviceAction::Open(cfg.duplicate());
                self.desired = Some(cfg);
                self.device_open = false;
                self.state = ConnectionState::Connecting;
                self.backoff_ms = BACKOFF_FLOOR_MS;
                self.next_retry_ms = now_ms;
                self.pending = Pending::Open(false);
                let events = vec![EngineEvent::ConnectionState(ConnectionState::Connecting)];
                let r = Step { close_device: true, events, action };
                assert(events_view(r.events@) =~= seq![EventView::State(ConnectionState::Connecting)]);
                r
            },
            EngineCommand::Disconnect => {
                self.desired = None;
                self.device_open = false;
                self.state = ConnectionState::Disconnected;
                self.pending = Pending::Nothing;
                let events = vec![EngineEvent::ConnectionState(ConnectionState::Disconnected)];
                let r = Step { close_device: true, events, action: DeviceAction::Idle };
                assert(events_view(r.events@) =~= seq![EventView::State(ConnectionState::Disconnected)]);
                r
            },
            EngineCommand::SendBytes(bytes) => {
                if self.device_open {
                    self.pending = Pending::Write(vstd::slice::slice_to_vec(bytes.as_slice()));
                    let r = Step { close_device: false, events: Vec::new(), action: DeviceAction::Write(bytes) };
                    assert(events_view(r.events@) =~= Seq::empty());
                    r
                } else {
                    self.pending = Pending::Nothing;
                    let text = owned("Not connected");
                    let events = vec![EngineEvent::Error(text)];
                    let r = Step { close_device: false, events, action: DeviceAction::Idle };
                    assert(events_view(r.events@) =~= seq![EventView::Error(not_connected_text())]);
                    r
                }
            },
        }
    }

    fn on_tick(&mut self, now_ms: u64) -> (r: Step)
        requires
            old(self).wf(),
        ensures
            final(self).wf(),
            step_view(final(self)@, r) == step_spec(old(self)@, InputView::Tick, now_ms),
    {
        let retry = match &self.desired {
            Some(cfg) => if !self.device_open && now_ms >= self.next_retry_ms {
                Some(cfg.duplicate())
            } else {
                None
            },
            None => None,
        };
        match retry {
            Some(cfg) => {
                self.state = ConnectionState::Connecting;
                self.pending = Pending::Open(true);
                let events = vec![EngineEvent::ConnectionState(ConnectionState::Connecting)];
                let r = Step { close_device: false, events, action: DeviceAction::Open(cfg) };
                assert(events_view(r.events@) =~= seq![EventView::State(ConnectionState::Connecting)]);
                r
            },
            None => {
                let r = if self.device_open {
                    self.pending = Pending::Read;
                    Step { close_device: false, events: Vec::new(), action: DeviceAction::Read }
                } else {
                    self.pending = Pending::Nothing;
                    Step { close_device: false, events: Vec::new(), action: DeviceAction::Idle }
                };
                assert(events_view(r.events@) =~= Seq::empty());
                r
            },
        }
    }

    fn on_opened(&mut self, result: Result<(), String>, now_ms: u64) -> (r: Step)
        requires
            old(self).wf(),
        ensures
            final(self).wf(),
            step_view(final(self)@, r) == step_spec(
                old(self)@,
                InputView::Opened(result_view(result)),
                now_ms,
            ),
    {
        let then_read = match self.pending {
            Pending::Open(t) => t,
            _ => {
                let r = Step { close_device: false, events: Vec::new(), action: DeviceAction::Idle };
                assert(events_view(r.events@) =~= Seq::empty());
                return r;
            },
        };
        let cfg = match &self.desired {
            Some(cfg) => cfg.duplicate(),
            None => {
                let r = Step { close_device: false, events: Vec::new(), action: DeviceAction::Idle };
                assert(events_view(r.events@) =~= Seq::empty());
                return r;
            },
        };
        match result {
            Ok(()) => {
                let message = connected_message(&cfg);
                self.device_open = true;
                self.state = ConnectionState::Connected;
                self.backoff_ms = BACKOFF_FLOOR_MS;
                self.next_retry_ms = now_ms;
                let action = if then_read {
                    self.pending = Pending::Read;
                    DeviceAction::Read
                } else {
                    self.pending = Pending::Nothing;
                    DeviceAction::Idle
                };
                let events = vec![
                    EngineEvent::ConnectionState(ConnectionState::Connected),
                    EngineEvent::Message(LogMessage::new(Direction::System, message)),
                ];
                let r = Step { close_device: false, events, action };
                assert(events_view(r.events@) =~= seq![
                    EventView::State(ConnectionState::Connected),
                    EventView::Message(Direction::System, utf8_of(connected_text(cfg@))),
                ]);
                r
            },
            Err(cause) => {
                let text = open_failed_message(&cfg, &cause);
                let ghost t = text@;
                self.device_open = false;
                self.next_retry_ms = retry_at_exec(now_ms, self.backoff_ms);
                self.backoff_ms = next_backoff_exec(self.backoff_ms);
                self.pending = Pending::Nothing;
                let events = vec![EngineEvent::Error(text)];
                let r = Step { close_device: false, events, action: DeviceAction::Idle };
                assert(events_view(r.events@) =~= seq![EventView::Error(t)]);
                r
            },
        }
    }

    fn on_read(&mut self, outcome: ReadOutcome, now_ms: u64) -> (r: Step)
        requires
            old(self).wf(),
        ensures
            final(self).wf(),
            step_view(final(self)@, r) == step_spec(
                old(self)@,
                (EngineInput::ReadDone(outcome))@,
                now_ms,
            ),
    {
        let waiting = match self.pending {
            Pending::Read => self.device_open,
            _ => false,
        };
        if !waiting {
            let r = Step { close_device: false, events: Vec::new(), action: DeviceAction::Idle };
            assert(events_view(r.events@) =~= Seq::empty());
            return r;
        }
        self.pending = Pending::Nothing;
        match outcome {
            ReadOutcome::Data(bytes) => {
                if bytes.len() > 0 {
                    let ghost b = bytes@;
                    let events = vec![EngineEvent::Message(LogMessage::new(Direction::Rx, bytes))];
                    let r = Step { close_device: false, events, action: DeviceAction::Idle };
                    assert(events_view(r.events@) =~= seq![EventView::Message(Direction::Rx, b)]);
                    r
                } else {
                    let r = Step { close_device: false, events: Vec::new(), action: DeviceAction::Idle };
                    assert(events_view(r.events@) =~= Seq::empty());
                    r
                }
            },
            ReadOutcome::TimedOut => {
                let r = Step { close_device: false, events: Vec::new(), action: DeviceAction::Idle };
                assert(events_view(r.events@) =~= Seq::empty());
                r
            },
            ReadOutcome::Failed(cause) => {
                let ghost c = cause@;
                self.device_open = false;
                if self.desired.is_some() {
                    self.state = ConnectionState::Connecting;
                    self.next_retry_ms = retry_at_exec(now_ms, self.backoff_ms);
                    self.backoff_ms = next_backoff_exec(self.backoff_ms);
                    let events = vec![
                        EngineEvent::Error(cause),
                        EngineEvent::ConnectionState(ConnectionState::Connecting),
                    ];
                    let r = Step { close_device: true, events, action: DeviceAction::Idle };
                    assert(events_view(r.events@) =~= seq![
                        EventView::Error(c),
                        EventView::State(ConnectionState::Connecting),
                    ]);
                    r
                } else {
                    self.state = ConnectionState::Disconnected;
                    let events = vec![
                        EngineEvent::Error(cause),
                        EngineEvent::ConnectionState(ConnectionState::Disconnected),
                    ];
                    let r = Step { close_device: true, events, action: DeviceAction::Idle };
                    assert(events_view(r.events@) =~= seq![
                        EventView::Error(c),
                        EventView::State(ConnectionState::Disconnected),
                    ]);
                    r
                }
            },
        }
    }

    fn on_written(&mut self, result: Result<(), String>) -> (r: Step)
        requires
            old(self).wf(),
        ensures
            final(self).wf(),
            forall|now: u64|
                step_view(final(self)@, r) == #[trigger] step_spec(
                    old(self)@,
                    InputView::Written(result_view(result)),
                    now,
                ),
    {
        if !self.device_open {
            let r = Step { close_device: false, events: Vec::new(), action: DeviceAction::Idle };
            assert(events_view(r.events@) =~= Seq::empty());
            return r;
        }
        let written = match &self.pending {
            Pending::Write(bytes) => Some(vstd::slice::slice_to_vec(bytes.as_slice())),
            _ => None,
        };
        match written {
            Some(bytes) => {
                self.pending = Pending::Nothing;
                let event = match result {
                    Ok(()) => EngineEvent::Message(LogMessage::new(Direction::Tx, bytes)),
                    Err(cause) => EngineEvent::Error(cause),
                };
                let events = vec![event];
                let r = Step { close_device: false, events, action: DeviceAction::Idle };
                assert(events_view(r.events@) =~= seq![event@]);
                r
            },
            None => {
                let r = Step { close_device: false, events: Vec::new(), action: DeviceAction::Idle };
                assert(events_view(r.events@) =~= Seq::empty());
                r
            },
        }
    }
}

/// The backoff after `k` failed opens in a row that follow a `Connect`.
pub open spec fn backoff_after_failures(k: nat) -> u64
    decreases k,
{
    if k == 0 {
        BACKOFF_FLOOR_MS
    } else {
        next_backoff(backoff_after_failures((k - 1) as nat))
    }
}

/// A failed open doubles the backoff up to the ceiling, strictly while below
/// it; a failed read continues the same doubling; a successful open and a new
/// `Connect` set it back to the floor. From a `Connect` on, failures in a row
/// give 200, 400, 800, 1600 and then 2000 ms.
pub proof fn lemma_backoff(
    e: EngineView,
    now: u64,
    cause: Seq<char>,
    cfg: ConfigView,
    k: nat,
)
    requires
        engine_wf(e),
    ensures
        e.pending is Open ==> {
            let failed = step_spec(e, InputView::Opened(Err(cause)), now).engine.backoff_ms;
            &&& failed == next_backoff(e.backoff_ms)
            &&& 2 * e.backoff_ms <= BACKOFF_CEILING_MS ==> failed == 2 * e.backoff_ms
            &&& e.backoff_ms < BACKOFF_CEILING_MS ==> failed > e.backoff_ms
            &&& failed <= BACKOFF_CEILING_MS
        },
        e.pending is Open ==> step_spec(e, InputView::Opened(Ok(())), now).engine.backoff_ms
            == BACKOFF_FLOOR_MS,
        e.pending is Read && e.device_open && e.desired is Some ==> step_spec(
            e,
            InputView::ReadDone(ReadView::Failed(cause)),
            now,
        ).engine.backoff_ms == next_backoff(e.backoff_ms),
        step_spec(e, InputView::Command(CommandView::Connect(cfg)), now).engine.backoff_ms
            == BACKOFF_FLOOR_MS,
        backoff_after_failures(k) == if k == 0 {
            200u64
        } else if k == 1 {
            400
        } else if k == 2 {
            800
        } else if k == 3 {
            1600
        } else {
            2000
        },
    decreases k,
{
    if k > 0 {
        lemma_backoff(e, now, cause, cfg, (k - 1) as nat);
    }
}

/// Runs the engine over a sequence of inputs, each with its clock reading;
/// gives the final engine, every event published and every action asked.
pub open spec fn run(e: EngineView, inputs: Seq<(InputView, u64)>) -> (
    EngineView,
    Seq<EventView>,
    Seq<ActionView>,
)
    decreases inputs.len(),
{
    if inputs.len() == 0 {
        (e, Seq::empty(), Seq::empty())
    } else {
        let s = step_spec(e, inputs[0].0, inputs[0].1);
        let rest = run(s.engine, inputs.drop_first());
        (rest.0, s.events + rest.1, seq![s.action] + rest.2)
    }
}

pub open spec fn is_connect(i: InputView) -> bool {
    i matches InputView::Command(CommandView::Connect(_))
}

/// Disconnected with nothing to retry.
pub open spec fn settled(e: EngineView) -> bool {
    &&& e.desired is None
    &&& !e.device_open
    &&& e.state == ConnectionState::Disconnected
    &&& e.pending is Nothing
}

proof fn lemma_settled_run(e: EngineView, inputs: Seq<(InputView, u64)>)
    requires
        settled(e),
        forall|i: int| 0 <= i < inputs.len() ==> !is_connect(#[trigger] inputs[i].0),
    ensures
        settled(run(e, inputs).0),
        forall|j: int|
            0 <= j < run(e, inputs).1.len() ==> #[trigger] run(e, inputs).1[j] != EventView::State(
                ConnectionState::Connecting,
            ),
        forall|j: int| 0 <= j < run(e, inputs).2.len() ==> !(#[trigger] run(e, inputs).2[j] is Open),
    decreases inputs.len(),
{
    if inputs.len() > 0 {
        let s = step_spec(e, inputs[0].0, inputs[0].1);
        assert(!is_connect(inputs[0].0));
        assert(settled(s.engine));
        let rest_inputs = inputs.drop_first();
        assert forall|i: int| 0 <= i < rest_inputs.len() implies !is_connect(
            #[trigger] rest_inputs[i].0,
        ) by {
            assert(rest_inputs[i] == inputs[i + 1]);
        }
        lemma_settled_run(s.engine, rest_inputs);
        let rest = run(s.engine, rest_inputs);
        let all = run(e, inputs);
        assert forall|j: int| 0 <= j < all.1.len() implies #[trigger] all.1[j] != EventView::State(
            ConnectionState::Connecting,
        ) by {
            if j < s.events.len() {
                assert(all.1[j] == s.events[j]);
            } else {
                assert(all.1[j] == rest.1[j - s.events.len()]);
            }
        }
        assert forall|j: int| 0 <= j < all.2.len() implies !(#[trigger] all.2[j] is Open) by {
            if j > 0 {
                assert(all.2[j] == rest.2[j - 1]);
            }
        }
    }
}

/// After a `Disconnect`, from whatever state, no input but a new `Connect`
/// brings the engine back to `Connecting` or makes it open the device: the
/// retries are cancelled.
pub proof fn lemma_disconnect_cancels_retries(
    e: EngineView,
    now: u64,
    inputs: Seq<(InputView, u64)>,
)
    requires
        engine_wf(e),
        forall|i: int| 0 <= i < inputs.len() ==> !is_connect(#[trigger] inputs[i].0),
    ensures
        ({
            let after = step_spec(e, InputView::Command(CommandView::Disconnect), now).engine;
            let r = run(after, inputs);
            &&& r.0.desired is None
            &&& forall|j: int|
                0 <= j < r.1.len() ==> #[trigger] r.1[j] != EventView::State(
                    ConnectionState::Connecting,
                )
            &&& forall|j: int| 0 <= j < r.2.len() ==> !(#[trigger] r.2[j] is Open)
        }),
{
    let after = step_spec(e, InputView::Command(CommandView::Disconnect), now).engine;
    lemma_settled_run(after, inputs);
}

/// `SendBytes` without an open device neither writes nor drops anything, and
/// publishes exactly one event: the error `Not connected`.
pub proof fn lemma_send_while_disconnected(e: EngineView, bytes: Seq<u8>, now: u64)
    requires
        engine_wf(e),
        !e.device_open,
    ensures
        ({
            let s = step_spec(e, InputView::Command(CommandView::SendBytes(bytes)), now);
            &&& s.action is Idle
            &&& !s.close_device
            &&& s.events == seq![EventView::Error(not_connected_text())]
            &&& s.engine.state == e.state
            &&& s.engine.desired == e.desired
        }),
{
}

/// The backoff stays within its bounds, and only a successful open or a new
/// `Connect` lowers it.
pub proof fn lemma_backoff_only_resets_on_success(e: EngineView, input: InputView, now: u64)
    requires
        engine_wf(e),
    ensures
        ({
            let after = step_spec(e, input, now).engine;
            &&& BACKOFF_FLOOR_MS <= after.backoff_ms <= BACKOFF_CEILING_MS
            &&& after.backoff_ms < e.backoff_ms ==> is_connect(input) || (input matches InputView::Opened(
                Ok(_),
            ) && e.pending is Open)
        }),
{
}

/// At most one device is open: the engine asks to open one only when none is
/// open or when it drops the open one first.
pub proof fn lemma_one_device(e: EngineView, input: InputView, now: u64)
    requires
        engine_wf(e),
    ensures
        ({
            let s = step_spec(e, input, now);
            s.action is Open ==> s.close_device || !e.device_open
        }),
{
}

} // verus!
