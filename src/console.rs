//! The input line of the terminal: its history, and the `$` notation that
//! embeds raw bytes as hexadecimal digits in typed text.
use vstd::prelude::*;
use crate::hex_input::hex_value;
use crate::model::{ConfigView, SerialConfig};
use crate::text::{chars_of, owned, push_char};

verus! {

/// A separator inside a `$` sequence: it ends the byte being written.
pub open spec fn is_hex_separator(c: char) -> bool {
    c == ',' || c == '_' || c == '-' || c == '.' || c == ' '
}

/// The byte a typed character stands for outside a `$` sequence: the low
/// eight bits of its code.
pub open spec fn char_byte(c: char) -> u8 {
    (c as u32) as u8
}

/// State of the scan of a typed line: bytes so far, inside a `$` sequence or
/// not, the shift for the next digit (0 or 4), and the byte being written.
pub open spec fn hex_scan(s: Seq<char>) -> (Seq<u8>, bool, u8, Option<u8>)
    decreases s.len(),
{
    if s.len() == 0 {
        (Seq::empty(), false, 0, None)
    } else {
        let st = hex_scan(s.drop_last());
        let c = s.last();
        let (out, in_hex, shift, val) = st;
        if !in_hex {
            if c == '$' {
                (out, true, 0, Some(0u8))
            } else {
                (out.push(char_byte(c)), false, shift, val)
            }
        } else if hex_value(c) is None && !is_hex_separator(c) {
            (out.push(char_byte(c)), false, shift, val)
        } else if is_hex_separator(c) {
            (
                match val {
                    Some(h) => out.push(h),
                    None => out,
                },
                true,
                0,
                None,
            )
        } else {
            let v = ((match val {
                Some(h) => h,
                None => 0u8,
            }) << shift) | hex_value(c).unwrap();
            if shift == 0 {
                (out, true, 4, Some(v))
            } else {
                (out.push(v), true, 0, None)
            }
        }
    }
}

/// The bytes of a typed line. Characters stand for themselves; `$` starts a
/// sequence of hexadecimal digits, two to a byte, where `,` `_` `-` `.` and
/// space end a byte early and any other character ends the sequence and
/// stands for itself. A lone digit left at the end is dropped.
pub fn replace_hex_sequence(command_line: &str) -> (r: Vec<u8>)
    ensures
        r@ == hex_scan(command_line@).0,
{
    let chars = chars_of(command_line);
    let mut output: Vec<u8> = Vec::new();
    let mut in_hex_seq = false;
    let mut hex_shift: u8 = 0;
    let mut hex_val: Option<u8> = None;
    let mut i: usize = 0;
    while i < chars.len()
        invariant
            i <= chars@.len(),
            chars@ == command_line@,
            hex_shift == 0 || hex_shift == 4,
            (output@, in_hex_seq, hex_shift, hex_val) == hex_scan(
                command_line@.subrange(0, i as int),
            ),
        decreases chars.len() - i,
    {
        let c = chars[i];
        assert(command_line@.subrange(0, i + 1).drop_last() =~= command_line@.subrange(0, i as int));
        i += 1;
        let is_digit = ('0' <= c && c <= '9') || ('a' <= c && c <= 'f') || ('A' <= c && c <= 'F');
        let is_sep = c == ',' || c == '_' || c == '-' || c == '.' || c == ' ';
        if !in_hex_seq {
            if c == '$' {
                in_hex_seq = true;
                hex_shift = 0;
                hex_val = Some(0);
            } else {
                output.push((c as u32) as u8);
            }
        } else if !is_digit && !is_sep {
            in_hex_seq = false;
            output.push((c as u32) as u8);
        } else if is_sep {
            if let Some(hex) = hex_val {
                output.push(hex);
            }
            hex_val = None;
            hex_shift = 0;
        } else {
            let d: u8 = if '0' <= c && c <= '9' {
                (c as u32 - 48) as u8
            } else if 'a' <= c && c <= 'f' {
                (c as u32 - 87) as u8
            } else {
                (c as u32 - 55) as u8
            };
            let base: u8 = match hex_val {
                Some(h) => h,
                None => 0,
            };
            let v: u8 = (base << hex_shift) | d;
            if hex_shift == 0 {
                hex_shift = 4;
                hex_val = Some(v);
            } else {
                output.push(v);
                hex_val = None;
                hex_shift = 0;
            }
        }
    }
    assert(command_line@.subrange(0, i as int) =~= command_line@);
    output
}

/// The typed line and the lines sent before it, with a position when the
/// user walks back through them.
pub struct CommandHistory {
    pub input: String,
    pub history: Vec<String>,
    /// The entry shown, if the user is walking the history.
    pub history_index: Option<usize>,
    /// What was typed before the walk started.
    pub history_backup: String,
}

impl CommandHistory {
    pub open spec fn wf(&self) -> bool {
        self.history_index matches Some(i) ==> i < self.history@.len()
    }

    pub fn new() -> (r: CommandHistory)
        ensures
            r.wf(),
            r.input@.len() == 0,
            r.history@.len() == 0,
            r.history_index is None,
            r.history_backup@.len() == 0,
    {
        CommandHistory {
            input: String::new(),
            history: Vec::new(),
            history_index: None,
            history_backup: String::new(),
        }
    }

    /// Records a sent line, unless it repeats the last one, and ends any walk
    /// through the history with an empty input.
    pub fn push_entry(&mut self, line: String)
        ensures
            final(self).wf(),
            final(self).history@ == if old(self).history@.len() > 0
                && old(self).history@.last()@ == line@ {
                old(self).history@
            } else {
                old(self).history@.push(line)
            },
            final(self).history_index is None,
            final(self).input@.len() == 0,
            final(self).history_backup == old(self).history_backup,
    {
        let n = self.history.len();
        let repeated = n > 0 && self.history[n - 1] == line;
        if !repeated {
            self.history.push(line);
        }
        self.history_index = None;
        self.input = String::new();
    }

    /// Shows the previous entry; the first step back keeps what was typed.
    pub fn apply_history_prev(&mut self)
        requires
            old(self).wf(),
        ensures
            final(self).wf(),
            final(self).history == old(self).history,
            old(self).history@.len() == 0 ==> *final(self) == *old(self),
            old(self).history@.len() > 0 ==> match old(self).history_index {
                None => {
                    &&& final(self).history_index == Some((old(self).history@.len() - 1) as usize)
                    &&& final(self).history_backup == old(self).input
                    &&& final(self).input == old(self).history@.last()
                },
                Some(i) => {
                    let j: usize = if i == 0 {
                        0
                    } else {
                        (i - 1) as usize
                    };
                    &&& final(self).history_index == Some(j)
                    &&& final(self).history_backup == old(self).history_backup
                    &&& final(self).input == old(self).history@[j as int]
                },
            },
    {
        let n = self.history.len();
        if n == 0 {
            return;
        }
        let j = match self.history_index {
            None => {
                self.history_backup = self.input.clone();
                n - 1
            },
            Some(i) => if i == 0 {
                0
            } else {
                i - 1
            },
        };
        self.history_index = Some(j);
        self.input = self.history[j].clone();
    }

    /// Shows the next entry; past the last one, what was typed before.
    pub fn apply_history_next(&mut self)
        requires
            old(self).wf(),
        ensures
            final(self).wf(),
            final(self).history == old(self).history,
            final(self).history_backup == old(self).history_backup,
            old(self).history@.len() == 0 || old(self).history_index is None ==> *final(self)
                == *old(self),
            old(self).history@.len() > 0 ==> (old(self).history_index matches Some(i) ==> if i
                == old(self).history@.len() - 1 {
                &&& final(self).history_index is None
                &&& final(self).input == old(self).history_backup
            } else {
                &&& final(self).history_index == Some((i + 1) as usize)
                &&& final(self).input == old(self).history@[i + 1]
            }),
    {
        let n = self.history.len();
        if n == 0 {
            return;
        }
        match self.history_index {
            None => {},
            Some(i) => if i == n - 1 {
                self.history_index = None;
                self.input = self.history_backup.clone();
            } else {
                self.history_index = Some(i + 1);
                self.input = self.history[i + 1].clone();
            },
        }
    }
}

/// Unicode white space, as `char::is_whitespace` defines it.
pub open spec fn is_space(c: char) -> bool {
    ('\u{9}' <= c <= '\u{d}') || c == ' ' || c == '\u{85}' || c == '\u{a0}' || c == '\u{1680}'
        || ('\u{2000}' <= c <= '\u{200a}') || c == '\u{2028}' || c == '\u{2029}' || c
        == '\u{202f}' || c == '\u{205f}' || c == '\u{3000}'
}

fn is_space_exec(c: char) -> (r: bool)
    ensures
        r == is_space(c),
{
    ('\u{9}' <= c && c <= '\u{d}') || c == ' ' || c == '\u{85}' || c == '\u{a0}' || c
        == '\u{1680}' || ('\u{2000}' <= c && c <= '\u{200a}') || c == '\u{2028}' || c
        == '\u{2029}' || c == '\u{202f}' || c == '\u{205f}' || c == '\u{3000}'
}

/// `s` without its leading `!` characters.
pub open spec fn without_bangs(s: Seq<char>) -> Seq<char>
    decreases s.len(),
{
    if s.len() > 0 && s[0] == '!' {
        without_bangs(s.drop_first())
    } else {
        s
    }
}

/// `s` without leading white space.
pub open spec fn trim_start(s: Seq<char>) -> Seq<char>
    decreases s.len(),
{
    if s.len() > 0 && is_space(s[0]) {
        trim_start(s.drop_first())
    } else {
        s
    }
}

/// `s` without trailing white space.
pub open spec fn trim_end(s: Seq<char>) -> Seq<char>
    decreases s.len(),
{
    if s.len() > 0 && is_space(s.last()) {
        trim_end(s.drop_last())
    } else {
        s
    }
}

pub open spec fn trimmed(s: Seq<char>) -> Seq<char> {
    trim_end(trim_start(s))
}

/// The words found so far in a prefix, and the word being read.
pub open spec fn word_scan(s: Seq<char>) -> (Seq<Seq<char>>, Seq<char>)
    decreases s.len(),
{
    if s.len() == 0 {
        (Seq::empty(), Seq::empty())
    } else {
        let (done, cur) = word_scan(s.drop_last());
        if is_space(s.last()) {
            if cur.len() > 0 {
                (done.push(cur), Seq::empty())
            } else {
                (done, cur)
            }
        } else {
            (done, cur.push(s.last()))
        }
    }
}

/// The words of a text: its maximal runs without white space, in order.
pub open spec fn words(s: Seq<char>) -> Seq<Seq<char>> {
    let (done, cur) = word_scan(s);
    if cur.len() > 0 {
        done.push(cur)
    } else {
        done
    }
}

pub open spec fn is_decimal_digit(c: char) -> bool {
    '0' <= c <= '9'
}

/// The value of a decimal digit.
pub open spec fn digit_value(c: char) -> nat {
    if is_decimal_digit(c) {
        (c as u32 - 48) as nat
    } else {
        0
    }
}

/// The value of a run of decimal digits.
pub open spec fn digits_value(d: Seq<char>) -> nat
    decreases d.len(),
{
    if d.len() == 0 {
        0
    } else {
        digits_value(d.drop_last()) * 10 + digit_value(d.last())
    }
}

/// `s` without one leading `+`.
pub open spec fn unsigned_part(s: Seq<char>) -> Seq<char> {
    if s.len() > 0 && s[0] == '+' {
        s.drop_first()
    } else {
        s
    }
}

pub open spec fn all_decimal(d: Seq<char>) -> bool {
    forall|i: int| 0 <= i < d.len() ==> is_decimal_digit(#[trigger] d[i])
}

/// A number as `str::parse::<u32>` reads it: an optional `+`, then one or
/// more decimal digits, of a value that fits.
pub open spec fn parse_u32(s: Seq<char>) -> Option<u32> {
    let d = unsigned_part(s);
    if d.len() == 0 || !all_decimal(d) || digits_value(d) > u32::MAX {
        None
    } else {
        Some(digits_value(d) as u32)
    }
}

/// What a typed command asks for.
pub enum ConsoleAction {
    /// Not a command: nothing to do.
    Nothing,
    Connect(SerialConfig),
    Disconnect,
    /// The command was refused; the text says why.
    Error(String),
}

pub enum ConsoleActionView {
    Nothing,
    Connect(ConfigView),
    Disconnect,
    Error(Seq<char>),
}

impl View for ConsoleAction {
    type V = ConsoleActionView;

    open spec fn view(&self) -> ConsoleActionView {
        match self {
            ConsoleAction::Nothing => ConsoleActionView::Nothing,
            ConsoleAction::Connect(c) => ConsoleActionView::Connect(c@),
            ConsoleAction::Disconnect => ConsoleActionView::Disconnect,
            ConsoleAction::Error(e) => ConsoleActionView::Error(e@),
        }
    }
}

/// The device name and speed as typed in their fields.
pub struct ConnectFields {
    pub port: String,
    pub baudrate: String,
}

/// The settings for a device name and speed as typed, or why they are
/// refused. Everything else takes its default.
pub open spec fn connect_spec(port: Seq<char>, baudrate: Seq<char>) -> ConsoleActionView {
    if trimmed(port).len() == 0 {
        ConsoleActionView::Error("Port is empty"@)
    } else {
        match parse_u32(trimmed(baudrate)) {
            None => ConsoleActionView::Error("Baudrate is not a number"@),
            Some(b) => ConsoleActionView::Connect(
                ConfigView {
                    port: trimmed(port),
                    baudrate: b,
                    flow_control: crate::model::FlowControl::Off,
                    data_bits: crate::model::DataBits::Eight,
                    parity: crate::model::Parity::Off,
                    stop_bits: crate::model::StopBits::One,
                },
            ),
        }
    }
}

/// The fields after a command argument: all digits sets the speed, anything
/// else the device name.
pub open spec fn take_argument(f: (Seq<char>, Seq<char>), w: Seq<char>) -> (Seq<char>, Seq<char>) {
    if forall|i: int| 0 <= i < w.len() ==> is_decimal_digit(#[trigger] w[i]) {
        (f.0, w)
    } else {
        (w, f.1)
    }
}

/// The fields after the arguments `ws[from]` and `ws[from + 1]`, those that
/// exist.
pub open spec fn take_arguments(f: (Seq<char>, Seq<char>), ws: Seq<Seq<char>>, from: int) -> (
    Seq<char>,
    Seq<char>,
) {
    let f1 = if from < ws.len() {
        take_argument(f, ws[from])
    } else {
        f
    };
    if from + 1 < ws.len() {
        take_argument(f1, ws[from + 1])
    } else {
        f1
    }
}

/// A typed command and what it does to the fields.
///
/// The command is the line without its leading `!`, read as words:
/// `serial [connect|disconnect] [arg] [arg]`, `connect [arg] [arg]` or
/// `disconnect`. Each argument sets the speed when all digits and the device
/// name otherwise; a connect then validates the fields.
pub open spec fn command_spec(f: (Seq<char>, Seq<char>), raw: Seq<char>) -> (
    (Seq<char>, Seq<char>),
    ConsoleActionView,
) {
    let ws = words(without_bangs(raw));
    if ws.len() == 0 {
        (f, ConsoleActionView::Nothing)
    } else if ws[0] == "serial"@ {
        let sub = if ws.len() > 1 {
            ws[1]
        } else {
            "connect"@
        };
        if sub == "connect"@ {
            let g = take_arguments(f, ws, 2);
            (g, connect_spec(g.0, g.1))
        } else if sub == "disconnect"@ {
            (f, ConsoleActionView::Disconnect)
        } else {
            (f, ConsoleActionView::Error("Invalid serial subcommand"@))
        }
    } else if ws[0] == "connect"@ {
        let g = take_arguments(f, ws, 1);
        (g, connect_spec(g.0, g.1))
    } else if ws[0] == "disconnect"@ {
        (f, ConsoleActionView::Disconnect)
    } else {
        (f, ConsoleActionView::Error("Unknown command"@))
    }
}

fn string_of(c: &Vec<char>) -> (r: String)
    ensures
        r@ == c@,
{
    let mut s = String::new();
    let mut i: usize = 0;
    while i < c.len()
        invariant
            i <= c@.len(),
            s@ == c@.subrange(0, i as int),
        decreases c.len() - i,
    {
        push_char(&mut s, c[i]);
        i += 1;
        assert(s@ =~= c@.subrange(0, i as int));
    }
    assert(c@.subrange(0, i as int) =~= c@);
    s
}

fn same_chars(a: &Vec<char>, b: &Vec<char>) -> (r: bool)
    ensures
        r == (a@ == b@),
{
    if a.len() != b.len() {
        return false;
    }
    let mut i: usize = 0;
    while i < a.len()
        invariant
            i <= a@.len(),
            a@.len() == b@.len(),
            forall|j: int| 0 <= j < i ==> a@[j] == b@[j],
        decreases a.len() - i,
    {
        if a[i] != b[i] {
            return false;
        }
        i += 1;
    }
    assert(a@ =~= b@);
    true
}

fn trimmed_chars(s: &str) -> (r: Vec<char>)
    ensures
        r@ == trimmed(s@),
{
    let c = chars_of(s);
    let mut start: usize = 0;
    assert(c@.subrange(0, c@.len() as int) =~= c@);
    while start < c.len() && is_space_exec(c[start])
        invariant
            start <= c@.len(),
            trim_start(c@) == trim_start(c@.subrange(start as int, c@.len() as int)),
        decreases c.len() - start,
    {
        assert(c@.subrange(start as int, c@.len() as int).drop_first() =~= c@.subrange(
            start + 1,
            c@.len() as int,
        ));
        start += 1;
    }
    let ghost rest = c@.subrange(start as int, c@.len() as int);
    assert(trim_start(rest) == rest);
    let mut end: usize = c.len();
    while end > start && is_space_exec(c[end - 1])
        invariant
            start <= end <= c@.len(),
            trim_end(rest) == trim_end(c@.subrange(start as int, end as int)),
        decreases end,
    {
        assert(c@.subrange(start as int, end as int).drop_last() =~= c@.subrange(
            start as int,
            end - 1,
        ));
        end -= 1;
    }
    let ghost kept = c@.subrange(start as int, end as int);
    assert(trim_end(kept) == kept);
    let mut r: Vec<char> = Vec::new();
    let mut i: usize = start;
    while i < end
        invariant
            start <= i <= end,
            end <= c@.len(),
            r@ == c@.subrange(start as int, i as int),
        decreases end - i,
    {
        r.push(c[i]);
        i += 1;
        assert(r@ =~= c@.subrange(start as int, i as int));
    }
    r
}

fn parse_u32_exec(s: &Vec<char>) -> (r: Option<u32>)
    ensures
        r == parse_u32(s@),
{
    let from: usize = if s.len() > 0 && s[0] == '+' {
        1
    } else {
        0
    };
    let ghost d = unsigned_part(s@);
    assert(d =~= s@.subrange(from as int, s@.len() as int));
    if from == s.len() {
        return None;
    }
    let mut value: u64 = 0;
    let mut i: usize = from;
    while i < s.len()
        invariant
            from <= i <= s@.len(),
            d == unsigned_part(s@),
            d == s@.subrange(from as int, s@.len() as int),
            value == digits_value(s@.subrange(from as int, i as int)),
            value <= u32::MAX,
            forall|j: int| from <= j < i ==> is_decimal_digit(#[trigger] s@[j]),
        decreases s.len() - i,
    {
        let c = s[i];
        if !('0' <= c && c <= '9') {
            assert(d[i - from] == s@[i as int]);
            assert(!all_decimal(d));
            return None;
        }
        let ghost pre = s@.subrange(from as int, i as int);
        assert(s@.subrange(from as int, i + 1).drop_last() =~= pre);
        let next = value * 10 + (c as u32 - 48) as u64;
        if next > 0xFFFF_FFFF {
            proof {
                let p = s@.subrange(from as int, i + 1);
                assert(p.last() == c);
                assert(digits_value(p) == next);
                assert(p =~= d.subrange(0, p.len() as int));
                lemma_digits_value_grows(p, d);
                assert(digits_value(d) > u32::MAX);
            }
            return None;
        }
        value = next;
        i += 1;
    }
    assert(s@.subrange(from as int, i as int) =~= d);
    assert(all_decimal(d)) by {
        assert forall|j: int| 0 <= j < d.len() implies is_decimal_digit(#[trigger] d[j]) by {
            assert(d[j] == s@[from + j]);
        }
    }
    Some(value as u32)
}

/// A run of digits is worth at least any of its prefixes.
proof fn lemma_digits_value_grows(pre: Seq<char>, d: Seq<char>)
    requires
        pre.len() <= d.len(),
        pre == d.subrange(0, pre.len() as int),
    ensures
        digits_value(pre) <= digits_value(d),
    decreases d.len() - pre.len(),
{
    if pre.len() < d.len() {
        let longer = d.subrange(0, pre.len() as int + 1);
        assert(longer.drop_last() =~= pre);
        let x = digits_value(pre);
        let y = digit_value(longer.last());
        assert(digits_value(longer) == x * 10 + y);
        assert(x * 10 + y >= x) by (nonlinear_arith);
        lemma_digits_value_grows(longer, d);
    } else {
        assert(pre =~= d);
    }
}

fn split_words(s: &Vec<char>) -> (r: Vec<Vec<char>>)
    ensures
        r@.map_values(|w: Vec<char>| w@) == words(s@),
{
    let mut done: Vec<Vec<char>> = Vec::new();
    let mut cur: Vec<char> = Vec::new();
    let mut i: usize = 0;
    while i < s.len()
        invariant
            i <= s@.len(),
            (done@.map_values(|w: Vec<char>| w@), cur@) == word_scan(s@.subrange(0, i as int)),
        decreases s.len() - i,
    {
        let c = s[i];
        let ghost before = done@.map_values(|w: Vec<char>| w@);
        assert(s@.subrange(0, i + 1).drop_last() =~= s@.subrange(0, i as int));
        if is_space_exec(c) {
            if cur.len() > 0 {
                let ghost cv = cur@;
                done.push(cur);
                cur = Vec::new();
                assert(done@.map_values(|w: Vec<char>| w@) =~= before.push(cv));
            }
        } else {
            cur.push(c);
        }
        i += 1;
    }
    assert(s@.subrange(0, i as int) =~= s@);
    if cur.len() > 0 {
        let ghost before = done@.map_values(|w: Vec<char>| w@);
        let ghost cv = cur@;
        done.push(cur);
        assert(done@.map_values(|w: Vec<char>| w@) =~= before.push(cv));
    }
    done
}

fn without_bangs_exec(c: &Vec<char>) -> (r: Vec<char>)
    ensures
        r@ == without_bangs(c@),
{
    let mut start: usize = 0;
    assert(c@.subrange(0, c@.len() as int) =~= c@);
    while start < c.len() && c[start] == '!'
        invariant
            start <= c@.len(),
            without_bangs(c@) == without_bangs(c@.subrange(start as int, c@.len() as int)),
        decreases c.len() - start,
    {
        assert(c@.subrange(start as int, c@.len() as int).drop_first() =~= c@.subrange(
            start + 1,
            c@.len() as int,
        ));
        start += 1;
    }
    let mut r: Vec<char> = Vec::new();
    let mut i: usize = start;
    while i < c.len()
        invariant
            start <= i <= c@.len(),
            r@ == c@.subrange(start as int, i as int),
        decreases c.len() - i,
    {
        r.push(c[i]);
        i += 1;
        assert(r@ =~= c@.subrange(start as int, i as int));
    }
    r
}

fn all_digits(w: &Vec<char>) -> (r: bool)
    ensures
        r == forall|i: int| 0 <= i < w@.len() ==> is_decimal_digit(#[trigger] w@[i]),
{
    let mut i: usize = 0;
    while i < w.len()
        invariant
            i <= w@.len(),
            forall|j: int| 0 <= j < i ==> is_decimal_digit(#[trigger] w@[j]),
        decreases w.len() - i,
    {
        if !('0' <= w[i] && w[i] <= '9') {
            return false;
        }
        i += 1;
    }
    true
}

impl ConnectFields {
    /// The settings for the fields as typed, or why they are refused.
    pub fn connect_from_fields(&self) -> (r: ConsoleAction)
        ensures
            r@ == connect_spec(self.port@, self.baudrate@),
    {
        let port = trimmed_chars(self.port.as_str());
        if port.len() == 0 {
            proof {
                reveal_strlit("Port is empty");
            }
            return ConsoleAction::Error(owned("Port is empty"));
        }
        let baud = trimmed_chars(self.baudrate.as_str());
        match parse_u32_exec(&baud) {
            None => ConsoleAction::Error(owned("Baudrate is not a number")),
            Some(b) => {
                let cfg = SerialConfig { port: string_of(&port), baudrate: b, ..SerialConfig::default() };
                ConsoleAction::Connect(cfg)
            },
        }
    }

    fn take_argument(&mut self, w: &Vec<char>)
        ensures
            (final(self).port@, final(self).baudrate@) == take_argument(
                (old(self).port@, old(self).baudrate@),
                w@,
            ),
    {
        if all_digits(w) {
            self.baudrate = string_of(w);
        } else {
            self.port = string_of(w);
        }
    }

    fn take_arguments(&mut self, ws: &Vec<Vec<char>>, from: usize)
        requires
            from <= 2,
        ensures
            (final(self).port@, final(self).baudrate@) == take_arguments(
                (old(self).port@, old(self).baudrate@),
                ws@.map_values(|w: Vec<char>| w@),
                from as int,
            ),
    {
        let ghost wv = ws@.map_values(|w: Vec<char>| w@);
        if from < ws.len() {
            self.take_argument(&ws[from]);
        }
        if from + 1 < ws.len() {
            self.take_argument(&ws[from + 1]);
        }
    }

    /// Carries out a typed command (see `command_spec`).
    pub fn handle_command(&mut self, raw: &str) -> (r: ConsoleAction)
        ensures
            ((final(self).port@, final(self).baudrate@), r@) == command_spec(
                (old(self).port@, old(self).baudrate@),
                raw@,
            ),
    {
        let line = without_bangs_exec(&chars_of(raw));
        let ws = split_words(&line);
        let ghost wv = ws@.map_values(|w: Vec<char>| w@);
        if ws.len() == 0 {
            return ConsoleAction::Nothing;
        }
        assert(wv[0] == ws@[0]@);
        let serial = chars_of("serial");
        let connect = chars_of("connect");
        let disconnect = chars_of("disconnect");
        if same_chars(&ws[0], &serial) {
            let (is_connect, is_disconnect) = if ws.len() > 1 {
                assert(wv[1] == ws@[1]@);
                (same_chars(&ws[1], &connect), same_chars(&ws[1], &disconnect))
            } else {
                (true, false)
            };
            if is_connect {
                self.take_arguments(&ws, 2);
                self.connect_from_fields()
            } else if is_disconnect {
                ConsoleAction::Disconnect
            } else {
                ConsoleAction::Error(owned("Invalid serial subcommand"))
            }
        } else if same_chars(&ws[0], &connect) {
            self.take_arguments(&ws, 1);
            self.connect_from_fields()
        } else if same_chars(&ws[0], &disconnect) {
            ConsoleAction::Disconnect
        } else {
            ConsoleAction::Error(owned("Unknown command"))
        }
    }
}

} // verus!
