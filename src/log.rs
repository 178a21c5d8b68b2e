//! The log of the terminal: one line per message or error the engine
//! publishes, each a list of colored segments.
use vstd::prelude::*;
use crate::engine::EngineEvent;
use crate::format::{
    ansi_segments_of, bytes_to_ansi_segments, styled_view, AnsiColor, SegmentKind, StyledSegment,
};
use crate::model::Direction;
use crate::text::owned;

verus! {

/// The most lines the log keeps; the oldest go first.
pub const MAX_LOG_LINES: usize = 5000;

#[derive(Debug, Clone, Copy, PartialEq, Eq, Structural)]
pub enum LogKind {
    Rx,
    Tx,
    Sys,
    Error,
}

pub struct LogLine {
    /// The time of the line, as shown.
    pub timestamp: String,
    pub prefix: String,
    pub kind: LogKind,
    pub segments: Vec<StyledSegment>,
}

/// The marker of each kind in the text form of a line.
pub open spec fn kind_tag(k: LogKind) -> Seq<char> {
    match k {
        LogKind::Rx => " <="@,
        LogKind::Tx => " =>"@,
        LogKind::Sys => "SYS"@,
        LogKind::Error => "ERR"@,
    }
}

pub open spec fn prefix_of(k: LogKind) -> Seq<char> {
    match k {
        LogKind::Rx => "[RX]"@,
        LogKind::Tx => "[TX]"@,
        LogKind::Sys => "[SYS]"@,
        LogKind::Error => "[ERR]"@,
    }
}

/// The texts of colored segments, joined.
pub open spec fn styled_text(segs: Seq<(Seq<char>, SegmentKind, AnsiColor)>) -> Seq<char>
    decreases segs.len(),
{
    if segs.len() == 0 {
        Seq::empty()
    } else {
        styled_text(segs.drop_last()) + segs.last().0
    }
}

/// The text form of a line: `[time][tag] text`.
pub open spec fn line_text(timestamp: Seq<char>, kind: LogKind, segs: Seq<StyledSegment>) -> Seq<
    char,
> {
    "["@ + timestamp + "]["@ + kind_tag(kind) + "] "@ + styled_text(styled_view(segs))
}

/// The last `MAX_LOG_LINES` of `s`.
pub open spec fn log_tail<A>(s: Seq<A>) -> Seq<A> {
    if s.len() > MAX_LOG_LINES {
        s.subrange(s.len() - MAX_LOG_LINES, s.len() as int)
    } else {
        s
    }
}

fn kind_of_direction(d: Direction) -> (r: LogKind)
    ensures
        r == match d {
            Direction::Rx => LogKind::Rx,
            Direction::Tx => LogKind::Tx,
            Direction::System => LogKind::Sys,
        },
{
    match d {
        Direction::Rx => LogKind::Rx,
        Direction::Tx => LogKind::Tx,
        Direction::System => LogKind::Sys,
    }
}

fn prefix_text(k: LogKind) -> (r: String)
    ensures
        r@ == prefix_of(k),
{
    match k {
        LogKind::Rx => owned("[RX]"),
        LogKind::Tx => owned("[TX]"),
        LogKind::Sys => owned("[SYS]"),
        LogKind::Error => owned("[ERR]"),
    }
}

fn tag_text(k: LogKind) -> (r: &'static str)
    ensures
        r@ == kind_tag(k),
{
    match k {
        LogKind::Rx => " <=",
        LogKind::Tx => " =>",
        LogKind::Sys => "SYS",
        LogKind::Error => "ERR",
    }
}

impl LogLine {
    /// The line for an event, stamped with `timestamp`: a message gives its
    /// bytes as colored segments, an error its text in red; a change of
    /// connection state gives no line.
    pub fn from_event(event: &EngineEvent, timestamp: String) -> (r: Option<LogLine>)
        ensures
            match event {
                EngineEvent::ConnectionState(_) => r is None,
                EngineEvent::Message(m) => r matches Some(l) && {
                    let k = match m.direction {
                        Direction::Rx => LogKind::Rx,
                        Direction::Tx => LogKind::Tx,
                        Direction::System => LogKind::Sys,
                    };
                    &&& l.timestamp == timestamp
                    &&& l.kind == k
                    &&& l.prefix@ == prefix_of(k)
                    &&& styled_view(l.segments@) == ansi_segments_of(m.bytes@)
                },
                EngineEvent::Error(e) => r matches Some(l) && {
                    &&& l.timestamp == timestamp
                    &&& l.kind == LogKind::Error
                    &&& l.prefix@ == prefix_of(LogKind::Error)
                    &&& styled_view(l.segments@) == seq![
                        (e@, SegmentKind::Plain, AnsiColor::Red),
                    ]
                },
            },
    {
        match event {
            EngineEvent::ConnectionState(_) => None,
            EngineEvent::Message(m) => {
                let kind = kind_of_direction(m.direction);
                let segments = bytes_to_ansi_segments(m.bytes.as_slice());
                Some(LogLine { timestamp, prefix: prefix_text(kind), kind, segments })
            },
            EngineEvent::Error(e) => {
                let segments = vec![
                    StyledSegment { text: e.clone(), kind: SegmentKind::Plain, color: AnsiColor::Red },
                ];
                assert(styled_view(segments@) =~= seq![(e@, SegmentKind::Plain, AnsiColor::Red)]);
                Some(LogLine { timestamp, prefix: prefix_text(LogKind::Error), kind: LogKind::Error, segments })
            },
        }
    }

    /// The line as text: `[time][tag] ` and the joined segment texts, with
    /// ` <=`, ` =>`, `SYS` and `ERR` as tags.
    pub fn serialize(&self) -> (r: String)
        ensures
            r@ == line_text(self.timestamp@, self.kind, self.segments@),
    {
        let mut r = owned("[");
        r.append(self.timestamp.as_str());
        r.append("][");
        r.append(tag_text(self.kind));
        r.append("] ");
        let ghost head = r@;
        let mut i: usize = 0;
        while i < self.segments.len()
            invariant
                i <= self.segments@.len(),
                r@ == head + styled_text(styled_view(self.segments@).subrange(0, i as int)),
            decreases self.segments.len() - i,
        {
            let ghost sv = styled_view(self.segments@);
            assert(sv.subrange(0, i + 1).drop_last() =~= sv.subrange(0, i as int));
            assert(sv[i as int] == self.segments@[i as int]@);
            r.append(self.segments[i].text.as_str());
            i += 1;
        }
        assert(styled_view(self.segments@).subrange(0, i as int) =~= styled_view(self.segments@));
        r
    }
}

/// Appends a line to the log, keeping only the last `MAX_LOG_LINES`.
pub fn push_log_line(log: &mut Vec<LogLine>, line: LogLine)
    ensures
        final(log)@ == log_tail(old(log)@.push(line)),
{
    log.push(line);
    if log.len() > MAX_LOG_LINES {
        let extra = log.len() - MAX_LOG_LINES;
        let mut rest = log.split_off(extra);
        std::mem::swap(log, &mut rest);
    }
}

} // verus!
