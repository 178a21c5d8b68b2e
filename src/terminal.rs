//! State of the terminal view: the bounded list of shown lines, the search
//! over them, and the entry of bytes as hexadecimal digits.
use vstd::prelude::*;
use std::collections::VecDeque;
use crate::format::{push_rendered, render_byte};
use crate::hex_input::{byte_of, hex_value, HexByte};
use crate::mux::{encode_mux_frame, mux_frame};
use crate::text::{
    chars_occur, chars_of, hex_digit_upper, hex_digit_upper_exec, into_bytes, lines_of, lower_of,
    owned, push_char, str_contains, strings_view, text_lines, to_lowercase, utf8_of,
};
use crate::ui::{InputMode, TerminalLine};

verus! {

/// The most lines the view keeps; the oldest go first.
pub const MAX_LINES: usize = 1000;

pub struct TerminalView {
    pub lines: VecDeque<TerminalLine>,
    pub input_buffer: String,
    pub search_buffer: String,
    pub is_search_mode: bool,
    pub is_case_sensitive: bool,
    pub search_index: usize,
    pub search_results: Vec<usize>,
    pub input_mode: InputMode,
    pub hex_bytes: Vec<HexByte>,
    pub hex_input_buffer: String,
    pub hex_error: Option<String>,
    pub mux_mode: bool,
    pub mux_link_id: u8,
    pub mux_link_id_input: String,
}

pub open spec fn opt_view(o: Option<String>) -> Option<Seq<char>> {
    match o {
        Some(s) => Some(s@),
        None => None,
    }
}

pub open spec fn line_view(l: TerminalLine) -> (Seq<char>, Option<Seq<char>>, bool) {
    (l.content@, opt_view(l.timestamp), l.is_tx)
}

pub open spec fn lines_view(v: Seq<TerminalLine>) -> Seq<(Seq<char>, Option<Seq<char>>, bool)> {
    v.map_values(|l: TerminalLine| line_view(l))
}

pub open spec fn contents_of(v: Seq<TerminalLine>) -> Seq<Seq<char>> {
    v.map_values(|l: TerminalLine| l.content@)
}

pub open spec fn hex_view(v: Seq<HexByte>) -> Seq<(Option<char>, Option<char>)> {
    v.map_values(|h: HexByte| (h.high, h.low))
}

/// `lines` with `x` appended, the oldest line dropped first when full.
pub open spec fn bounded_push<A>(lines: Seq<A>, x: A) -> Seq<A> {
    if lines.len() >= MAX_LINES {
        lines.drop_first().push(x)
    } else {
        lines.push(x)
    }
}

/// `lines` with each of `new` appended in turn, as `bounded_push` does.
pub open spec fn bounded_push_all<A>(lines: Seq<A>, new: Seq<A>) -> Seq<A>
    decreases new.len(),
{
    if new.len() == 0 {
        lines
    } else {
        bounded_push(bounded_push_all(lines, new.drop_last()), new.last())
    }
}

/// How a received byte is shown in the terminal: as in the mixed rendering,
/// with a tab shown as `\t`.
pub open spec fn terminal_byte(b: u8) -> Seq<char> {
    if b == 0x09 {
        seq!['\\', 't']
    } else {
        render_byte(b)
    }
}

pub open spec fn terminal_text(bytes: Seq<u8>) -> Seq<char>
    decreases bytes.len(),
{
    if bytes.len() == 0 {
        Seq::empty()
    } else {
        terminal_text(bytes.drop_last()) + terminal_byte(bytes.last())
    }
}

/// Two uppercase hexadecimal digits.
pub open spec fn upper_pair(b: u8) -> Seq<char> {
    seq![hex_digit_upper(b / 16), hex_digit_upper(b % 16)]
}

/// Bytes as uppercase hexadecimal pairs separated by single spaces.
pub open spec fn hex_list(bytes: Seq<u8>) -> Seq<char>
    decreases bytes.len(),
{
    if bytes.len() == 0 {
        Seq::empty()
    } else if bytes.len() == 1 {
        upper_pair(bytes[0])
    } else {
        hex_list(bytes.drop_last()) + seq![' '] + upper_pair(bytes.last())
    }
}

pub open spec fn hex_line_text(bytes: Seq<u8>) -> Seq<char> {
    seq!['[', 'H', 'E', 'X', ']', ' '] + hex_list(bytes)
}

/// Whether a line's text matches the search term.
pub open spec fn line_matches(content: Seq<char>, term: Seq<char>, case_sensitive: bool) -> bool {
    if case_sensitive {
        chars_occur(content, term)
    } else {
        chars_occur(lower_of(content), lower_of(term))
    }
}

/// The positions of the lines that match, in order.
pub open spec fn matching_lines(contents: Seq<Seq<char>>, term: Seq<char>, case_sensitive: bool) -> Seq<
    usize,
>
    decreases contents.len(),
{
    if contents.len() == 0 {
        Seq::empty()
    } else {
        let pre = matching_lines(contents.drop_last(), term, case_sensitive);
        if line_matches(contents.last(), term, case_sensitive) {
            pre.push((contents.len() - 1) as usize)
        } else {
            pre
        }
    }
}

pub open spec fn ascii_upper(c: char) -> char {
    if 'a' <= c <= 'z' {
        (((c as u32) - 32) as u8) as char
    } else {
        c
    }
}

/// The digit entries after typing `c`: ignored unless hexadecimal; else, in
/// uppercase, it fills the last entry's high slot, or its low slot, or starts
/// a new entry.
pub open spec fn after_hex_char(hb: Seq<(Option<char>, Option<char>)>, c: char) -> Seq<
    (Option<char>, Option<char>),
> {
    let u = ascii_upper(c);
    if hex_value(c) is None {
        hb
    } else if hb.len() > 0 && hb.last().0 is None {
        hb.update(hb.len() - 1, (Some(u), hb.last().1))
    } else if hb.len() > 0 && hb.last().1 is None {
        hb.update(hb.len() - 1, (hb.last().0, Some(u)))
    } else {
        hb.push((Some(u), None))
    }
}

/// The digit entries after a backspace: the last digit entered goes, or the
/// last entry when it is empty.
pub open spec fn after_backspace(hb: Seq<(Option<char>, Option<char>)>) -> Seq<
    (Option<char>, Option<char>),
> {
    if hb.len() == 0 {
        hb
    } else if hb.last().1 is Some {
        hb.update(hb.len() - 1, (hb.last().0, None))
    } else if hb.last().0 is Some {
        hb.update(hb.len() - 1, (None, hb.last().1))
    } else {
        hb.drop_last()
    }
}

/// The bytes of the complete, valid entries, in order.
pub open spec fn complete_bytes(hb: Seq<(Option<char>, Option<char>)>) -> Seq<u8>
    decreases hb.len(),
{
    if hb.len() == 0 {
        Seq::empty()
    } else {
        let pre = complete_bytes(hb.drop_last());
        match byte_of(hb.last().0, hb.last().1) {
            Some(b) => pre.push(b),
            None => pre,
        }
    }
}

/// The hexadecimal digits of a text, in order; everything else is dropped.
pub open spec fn hex_digits_of(s: Seq<char>) -> Seq<char>
    decreases s.len(),
{
    if s.len() == 0 {
        Seq::empty()
    } else if hex_value(s.last()) is Some {
        hex_digits_of(s.drop_last()).push(s.last())
    } else {
        hex_digits_of(s.drop_last())
    }
}

/// The bytes that consecutive pairs of hexadecimal digits stand for.
pub open spec fn bytes_of_digits(d: Seq<char>) -> Seq<u8>
    decreases d.len(),
{
    if d.len() < 2 {
        Seq::empty()
    } else {
        bytes_of_digits(d.subrange(0, d.len() - 2)).push(
            (hex_value(d[d.len() - 2]).unwrap() * 16 + hex_value(d[d.len() - 1]).unwrap()) as u8,
        )
    }
}

pub open spec fn odd_digits_text() -> Seq<char> {
    "Odd number of hex digits"@
}

/// `a` and `b` hold the same typed input, modes and link settings.
pub open spec fn same_inputs(a: TerminalView, b: TerminalView) -> bool {
    &&& a.input_buffer == b.input_buffer
    &&& a.search_buffer == b.search_buffer
    &&& a.is_search_mode == b.is_search_mode
    &&& a.is_case_sensitive == b.is_case_sensitive
    &&& a.mux_mode == b.mux_mode
    &&& a.mux_link_id == b.mux_link_id
    &&& a.mux_link_id_input == b.mux_link_id_input
}

/// `a` and `b` hold the same hexadecimal entry.
pub open spec fn same_hex(a: TerminalView, b: TerminalView) -> bool {
    &&& a.input_mode == b.input_mode
    &&& a.hex_bytes@ == b.hex_bytes@
    &&& a.hex_input_buffer == b.hex_input_buffer
    &&& a.hex_error == b.hex_error
}

/// `a` and `b` show the same lines and search results.
pub open spec fn same_lines(a: TerminalView, b: TerminalView) -> bool {
    &&& a.lines@ == b.lines@
    &&& a.search_index == b.search_index
    &&& a.search_results@ == b.search_results@
}

/// The bytes that go out for `data`: a multiplexing frame on the chosen link
/// when multiplexing is on, else `data` itself.
pub open spec fn outgoing(v: TerminalView, data: Seq<u8>) -> Seq<u8> {
    if v.mux_mode {
        mux_frame(data, v.mux_link_id)
    } else {
        data
    }
}

fn clone_opt(o: &Option<String>) -> (r: Option<String>)
    ensures
        opt_view(r) == opt_view(*o),
{
    match o {
        Some(s) => Some(s.clone()),
        None => None,
    }
}

impl TerminalView {
    /// No lines, no search, ASCII input, multiplexing off on the control link.
    pub fn new() -> (r: TerminalView)
        ensures
            r.lines@.len() == 0,
            r.input_buffer@.len() == 0,
            r.search_buffer@.len() == 0,
            !r.is_search_mode,
            !r.is_case_sensitive,
            r.search_index == 0,
            r.search_results@.len() == 0,
            r.input_mode == InputMode::Ascii,
            r.hex_bytes@.len() == 0,
            r.hex_input_buffer@.len() == 0,
            r.hex_error is None,
            !r.mux_mode,
            r.mux_link_id == 0xFF,
            r.mux_link_id_input@ == seq!['F', 'F'],
    {
        proof {
            reveal_strlit("FF");
        }
        TerminalView {
            lines: VecDeque::new(),
            input_buffer: String::new(),
            search_buffer: String::new(),
            is_search_mode: false,
            is_case_sensitive: false,
            search_index: 0,
            search_results: Vec::new(),
            input_mode: InputMode::Ascii,
            hex_bytes: Vec::new(),
            hex_input_buffer: String::new(),
            hex_error: None,
            mux_mode: false,
            mux_link_id: 0xFF,
            mux_link_id_input: owned("FF"),
        }
    }

    /// Appends a line, dropping the oldest when the view is full.
    pub fn add_line(&mut self, line: TerminalLine)
        ensures
            final(self).lines@ == bounded_push(old(self).lines@, line),
            final(self).search_index == old(self).search_index,
            final(self).search_results@ == old(self).search_results@,
            same_inputs(*final(self), *old(self)),
            same_hex(*final(self), *old(self)),
    {
        if self.lines.len() >= MAX_LINES {
            let _ = self.lines.pop_front();
        }
        self.lines.push_back(line);
        assert(self.lines@ =~= bounded_push(old(self).lines@, line));
    }

    /// Shows received bytes as one line: printable ASCII as itself, newline,
    /// carriage return and tab as `\n`, `\r`, `\t`, other bytes as `\xHH`.
    /// Nothing is added for no bytes.
    pub fn add_received_data(&mut self, data: &[u8], timestamp: Option<String>)
        ensures
            data@.len() == 0 ==> final(self).lines@ == old(self).lines@,
            data@.len() > 0 ==> lines_view(final(self).lines@) == bounded_push(
                lines_view(old(self).lines@),
                (terminal_text(data@), opt_view(timestamp), false),
            ),
            final(self).search_index == old(self).search_index,
            final(self).search_results@ == old(self).search_results@,
            same_inputs(*final(self), *old(self)),
            same_hex(*final(self), *old(self)),
    {
        let mut content = String::new();
        let mut i: usize = 0;
        while i < data.len()
            invariant
                i <= data@.len(),
                content@ == terminal_text(data@.subrange(0, i as int)),
            decreases data.len() - i,
        {
            let b = data[i];
            let ghost before = content@;
            if b == 0x09 {
                push_char(&mut content, '\\');
                push_char(&mut content, 't');
            } else {
                push_rendered(&mut content, b);
            }
            assert(data@.subrange(0, i + 1).drop_last() =~= data@.subrange(0, i as int));
            assert(content@ =~= terminal_text(data@.subrange(0, i + 1)));
            i += 1;
        }
        assert(data@.subrange(0, data@.len() as int) =~= data@);
        if data.len() > 0 {
            let line = TerminalLine { content, timestamp, is_tx: false };
            let ghost lv = line_view(line);
            self.add_line(line);
            assert(lines_view(self.lines@) =~= bounded_push(lines_view(old(self).lines@), lv));
        }
    }

    /// Shows sent text, one view line for each of its lines.
    pub fn add_sent_data(&mut self, data: &str, timestamp: Option<String>)
        ensures
            lines_view(final(self).lines@) == bounded_push_all(
                lines_view(old(self).lines@),
                text_lines(data@).map_values(
                    |l: Seq<char>| (l, opt_view(timestamp), true),
                ),
            ),
            final(self).search_index == old(self).search_index,
            final(self).search_results@ == old(self).search_results@,
            same_inputs(*final(self), *old(self)),
            same_hex(*final(self), *old(self)),
    {
        let lines = lines_of(data);
        let ghost new = text_lines(data@).map_values(
            |l: Seq<char>| (l, opt_view(timestamp), true),
        );
        let mut i: usize = 0;
        while i < lines.len()
            invariant
                i <= lines@.len(),
                strings_view(lines@) == text_lines(data@),
                new == text_lines(data@).map_values(
                    |l: Seq<char>| (l, opt_view(timestamp), true),
                ),
                lines_view(self.lines@) == bounded_push_all(
                    lines_view(old(self).lines@),
                    new.subrange(0, i as int),
                ),
                self.search_index == old(self).search_index,
                self.search_results@ == old(self).search_results@,
                same_inputs(*self, *old(self)),
                same_hex(*self, *old(self)),
            decreases lines.len() - i,
        {
            let line = TerminalLine {
                content: lines[i].clone(),
                timestamp: clone_opt(&timestamp),
                is_tx: true,
            };
            let ghost before = lines_view(self.lines@);
            let ghost lv = line_view(line);
            assert(lv == new[i as int]) by {
                assert(strings_view(lines@)[i as int] == lines@[i as int]@);
            }
            self.add_line(line);
            assert(new.subrange(0, i + 1).drop_last() =~= new.subrange(0, i as int));
            assert(lines_view(self.lines@) =~= bounded_push(before, lv));
            i += 1;
        }
        assert(new.subrange(0, i as int) =~= new);
    }

    /// Shows sent bytes as one line: `[HEX] ` and the bytes as uppercase
    /// hexadecimal pairs separated by spaces.
    pub fn add_sent_bytes(&mut self, bytes: &[u8], timestamp: Option<String>)
        ensures
            lines_view(final(self).lines@) == bounded_push(
                lines_view(old(self).lines@),
                (hex_line_text(bytes@), opt_view(timestamp), true),
            ),
            final(self).search_index == old(self).search_index,
            final(self).search_results@ == old(self).search_results@,
            same_inputs(*final(self), *old(self)),
            same_hex(*final(self), *old(self)),
    {
        let mut content = owned("[HEX] ");
        proof {
            reveal_strlit("[HEX] ");
        }
        let ghost head = content@;
        let mut i: usize = 0;
        while i < bytes.len()
            invariant
                i <= bytes@.len(),
                head == seq!['[', 'H', 'E', 'X', ']', ' '],
                content@ == head + hex_list(bytes@.subrange(0, i as int)),
            decreases bytes.len() - i,
        {
            let b = bytes[i];
            if i > 0 {
                push_char(&mut content, ' ');
            }
            push_char(&mut content, hex_digit_upper_exec(b / 16));
            push_char(&mut content, hex_digit_upper_exec(b % 16));
            assert(bytes@.subrange(0, i + 1).drop_last() =~= bytes@.subrange(0, i as int));
            assert(content@ =~= head + hex_list(bytes@.subrange(0, i + 1)));
            i += 1;
        }
        assert(bytes@.subrange(0, bytes@.len() as int) =~= bytes@);
        let line = TerminalLine { content, timestamp, is_tx: true };
        let ghost lv = line_view(line);
        self.add_line(line);
        assert(lines_view(self.lines@) =~= bounded_push(lines_view(old(self).lines@), lv));
    }

    /// Removes every line and every search result.
    pub fn clear(&mut self)
        ensures
            final(self).lines@.len() == 0,
            final(self).search_results@.len() == 0,
            final(self).search_index == 0,
            same_inputs(*final(self), *old(self)),
            same_hex(*final(self), *old(self)),
    {
        self.lines.clear();
        self.search_results.clear();
        self.search_index = 0;
    }

    /// Finds the lines whose text holds the search term, ignoring case
    /// unless asked not to; an empty term finds nothing.
    pub fn update_search(&mut self)
        ensures
            final(self).search_index == 0,
            final(self).search_results@ == if old(self).search_buffer@.len() == 0 {
                Seq::empty()
            } else {
                matching_lines(
                    contents_of(old(self).lines@),
                    old(self).search_buffer@,
                    old(self).is_case_sensitive,
                )
            },
            final(self).lines@ == old(self).lines@,
            same_inputs(*final(self), *old(self)),
            same_hex(*final(self), *old(self)),
    {
        self.search_results.clear();
        self.search_index = 0;
        if self.search_buffer.as_str().is_empty() {
            assert(self.search_results@ =~= Seq::empty());
            return;
        }
        let term = if self.is_case_sensitive {
            self.search_buffer.clone()
        } else {
            to_lowercase(self.search_buffer.as_str())
        };
        let mut i: usize = 0;
        while i < self.lines.len()
            invariant
                i <= self.lines@.len(),
                self.lines@ == old(self).lines@,
                self.search_index == 0,
                same_inputs(*self, *old(self)),
                same_hex(*self, *old(self)),
                term@ == if self.is_case_sensitive {
                    self.search_buffer@
                } else {
                    lower_of(self.search_buffer@)
                },
                self.search_results@ == matching_lines(
                    contents_of(self.lines@).subrange(0, i as int),
                    self.search_buffer@,
                    self.is_case_sensitive,
                ),
            decreases self.lines.len() - i,
        {
            let found = if self.is_case_sensitive {
                str_contains(self.lines[i].content.as_str(), term.as_str())
            } else {
                let content = to_lowercase(self.lines[i].content.as_str());
                str_contains(content.as_str(), term.as_str())
            };
            let ghost cs = contents_of(self.lines@);
            assert(cs.subrange(0, i + 1).drop_last() =~= cs.subrange(0, i as int));
            assert(cs.subrange(0, i + 1).last() == self.lines@[i as int].content@);
            if found {
                self.search_results.push(i);
            }
            i += 1;
        }
        assert(contents_of(self.lines@).subrange(0, i as int) =~= contents_of(self.lines@));
    }

    /// Moves to the next search result, after the last back to the first.
    pub fn next_search_result(&mut self)
        ensures
            old(self).search_results@.len() == 0 ==> final(self).search_index
                == old(self).search_index,
            old(self).search_results@.len() > 0 ==> final(self).search_index == (
            old(self).search_index + 1) % (old(self).search_results@.len() as int),
            final(self).search_results@ == old(self).search_results@,
            final(self).lines@ == old(self).lines@,
            same_inputs(*final(self), *old(self)),
            same_hex(*final(self), *old(self)),
    {
        let n = self.search_results.len();
        if n == 0 {
            return;
        }
        let i = self.search_index % n;
        let next = if i + 1 == n {
            0
        } else {
            i + 1
        };
        proof {
            let x = old(self).search_index as int;
            let m = n as int;
            vstd::arithmetic::div_mod::lemma_mod_bound(x, m);
            vstd::arithmetic::div_mod::lemma_add_mod_noop(x, 1, m);
            if m == 1 {
                vstd::arithmetic::div_mod::lemma_mod_self_0(1);
                vstd::arithmetic::div_mod::lemma_mod_bound(x + 1, 1);
            } else {
                vstd::arithmetic::div_mod::lemma_small_mod(1, n as nat);
                if i + 1 == n {
                    vstd::arithmetic::div_mod::lemma_mod_self_0(m);
                } else {
                    vstd::arithmetic::div_mod::lemma_small_mod((i + 1) as nat, n as nat);
                }
            }
        }
        self.search_index = next;
    }

    /// Moves to the previous search result, before the first to the last.
    pub fn prev_search_result(&mut self)
        ensures
            old(self).search_results@.len() == 0 ==> final(self).search_index
                == old(self).search_index,
            old(self).search_results@.len() > 0 ==> final(self).search_index == if old(
                self,
            ).search_index == 0 {
                old(self).search_results@.len() - 1
            } else {
                old(self).search_index - 1
            },
            final(self).search_results@ == old(self).search_results@,
            final(self).lines@ == old(self).lines@,
            same_inputs(*final(self), *old(self)),
            same_hex(*final(self), *old(self)),
    {
        let n = self.search_results.len();
        if n == 0 {
            return;
        }
        self.search_index = if self.search_index == 0 {
            n - 1
        } else {
            self.search_index - 1
        };
    }

    /// The line of the current search result, if there is one.
    pub fn current_search_position(&self) -> (r: Option<usize>)
        ensures
            r == if self.search_index < self.search_results@.len() {
                Some(self.search_results@[self.search_index as int])
            } else {
                None
            },
    {
        if self.search_index < self.search_results.len() {
            Some(self.search_results[self.search_index])
        } else {
            None
        }
    }

    /// Switches between ASCII and hexadecimal input; the hexadecimal entry
    /// starts over.
    pub fn toggle_input_mode(&mut self)
        ensures
            final(self).input_mode == if old(self).input_mode == InputMode::Ascii {
                InputMode::Hex
            } else {
                InputMode::Ascii
            },
            final(self).hex_bytes@.len() == 0,
            final(self).hex_input_buffer@.len() == 0,
            final(self).hex_error is None,
            same_lines(*final(self), *old(self)),
            same_inputs(*final(self), *old(self)),
    {
        self.input_mode = match self.input_mode {
            InputMode::Ascii => InputMode::Hex,
            InputMode::Hex => InputMode::Ascii,
        };
        self.hex_bytes.clear();
        self.hex_input_buffer = String::new();
        self.hex_error = None;
    }

    /// Types one character into the hexadecimal entry; anything but a
    /// hexadecimal digit is ignored.
    pub fn add_hex_char(&mut self, c: char)
        ensures
            hex_view(final(self).hex_bytes@) == after_hex_char(hex_view(old(self).hex_bytes@), c),
            final(self).hex_error == if hex_value(c) is Some {
                None
            } else {
                old(self).hex_error
            },
            final(self).input_mode == old(self).input_mode,
            final(self).hex_input_buffer == old(self).hex_input_buffer,
            same_lines(*final(self), *old(self)),
            same_inputs(*final(self), *old(self)),
    {
        if !(('0' <= c && c <= '9') || ('a' <= c && c <= 'f') || ('A' <= c && c <= 'F')) {
            return;
        }
        let u = if 'a' <= c && c <= 'z' {
            ((c as u32 - 32) as u8) as char
        } else {
            c
        };
        let n = self.hex_bytes.len();
        let ghost hb = hex_view(self.hex_bytes@);
        if n > 0 && self.hex_bytes[n - 1].high.is_none() {
            let low = self.hex_bytes[n - 1].low;
            self.hex_bytes.set(n - 1, HexByte { high: Some(u), low });
        } else if n > 0 && self.hex_bytes[n - 1].low.is_none() {
            let high = self.hex_bytes[n - 1].high;
            self.hex_bytes.set(n - 1, HexByte { high, low: Some(u) });
        } else {
            self.hex_bytes.push(HexByte { high: Some(u), low: None });
        }
        assert(hex_view(self.hex_bytes@) =~= after_hex_char(hb, c));
        self.hex_error = None;
    }

    /// Removes the last digit typed, or the last entry when it is empty.
    pub fn backspace_hex(&mut self)
        ensures
            hex_view(final(self).hex_bytes@) == after_backspace(hex_view(old(self).hex_bytes@)),
            final(self).hex_error == old(self).hex_error,
            final(self).input_mode == old(self).input_mode,
            final(self).hex_input_buffer == old(self).hex_input_buffer,
            same_lines(*final(self), *old(self)),
            same_inputs(*final(self), *old(self)),
    {
        let n = self.hex_bytes.len();
        if n == 0 {
            return;
        }
        let ghost hb = hex_view(self.hex_bytes@);
        let high = self.hex_bytes[n - 1].high;
        let low = self.hex_bytes[n - 1].low;
        if low.is_some() {
            self.hex_bytes.set(n - 1, HexByte { high, low: None });
        } else if high.is_some() {
            self.hex_bytes.set(n - 1, HexByte { high: None, low });
        } else {
            let _ = self.hex_bytes.pop();
        }
        assert(hex_view(self.hex_bytes@) =~= after_backspace(hb));
    }

    /// Empties the hexadecimal entry.
    pub fn clear_hex(&mut self)
        ensures
            final(self).hex_bytes@.len() == 0,
            final(self).hex_input_buffer@.len() == 0,
            final(self).hex_error is None,
            final(self).input_mode == old(self).input_mode,
            same_lines(*final(self), *old(self)),
            same_inputs(*final(self), *old(self)),
    {
        self.hex_bytes.clear();
        self.hex_input_buffer = String::new();
        self.hex_error = None;
    }

    /// The bytes of the complete entries, in order.
    pub fn get_hex_bytes(&self) -> (r: Vec<u8>)
        ensures
            r@ == complete_bytes(hex_view(self.hex_bytes@)),
    {
        let mut r: Vec<u8> = Vec::new();
        let mut i: usize = 0;
        while i < self.hex_bytes.len()
            invariant
                i <= self.hex_bytes@.len(),
                r@ == complete_bytes(hex_view(self.hex_bytes@).subrange(0, i as int)),
            decreases self.hex_bytes.len() - i,
        {
            let ghost hb = hex_view(self.hex_bytes@);
            assert(hb.subrange(0, i + 1).drop_last() =~= hb.subrange(0, i as int));
            if let Some(b) = self.hex_bytes[i].to_byte() {
                r.push(b);
            }
            i += 1;
        }
        assert(hex_view(self.hex_bytes@).subrange(0, i as int) =~= hex_view(self.hex_bytes@));
        r
    }

    /// Reads bytes from the hexadecimal digits of `s`, ignoring every other
    /// character. No digits give no bytes; an odd number of digits is an error,
    /// recorded in `hex_error`; on success `hex_error` is cleared.
    pub fn parse_hex_string(&mut self, s: &str) -> (r: Option<Vec<u8>>)
        ensures
            hex_digits_of(s@).len() == 0 ==> (r matches Some(v) && v@.len() == 0)
                && final(self).hex_error == old(self).hex_error,
            hex_digits_of(s@).len() > 0 && hex_digits_of(s@).len() % 2 == 1 ==> r is None
                && opt_view(final(self).hex_error) == Some(odd_digits_text()),
            hex_digits_of(s@).len() > 0 && hex_digits_of(s@).len() % 2 == 0 ==> (r matches Some(v)
                && v@ == bytes_of_digits(hex_digits_of(s@))) && final(self).hex_error is None,
            final(self).hex_bytes@ == old(self).hex_bytes@,
            final(self).input_mode == old(self).input_mode,
            final(self).hex_input_buffer == old(self).hex_input_buffer,
            same_lines(*final(self), *old(self)),
            same_inputs(*final(self), *old(self)),
    {
        let chars = chars_of(s);
        let mut clean: Vec<char> = Vec::new();
        let mut i: usize = 0;
        while i < chars.len()
            invariant
                i <= chars@.len(),
                chars@ == s@,
                clean@ == hex_digits_of(s@.subrange(0, i as int)),
            decreases chars.len() - i,
        {
            let c = chars[i];
            assert(s@.subrange(0, i + 1).drop_last() =~= s@.subrange(0, i as int));
            if ('0' <= c && c <= '9') || ('a' <= c && c <= 'f') || ('A' <= c && c <= 'F') {
                clean.push(c);
            }
            i += 1;
        }
        assert(s@.subrange(0, i as int) =~= s@);
        proof {
            lemma_hex_digits_are_hex(s@);
        }
        if clean.len() == 0 {
            return Some(Vec::new());
        }
        if clean.len() % 2 != 0 {
            self.hex_error = Some(owned("Odd number of hex digits"));
            return None;
        }
        let mut bytes: Vec<u8> = Vec::new();
        let mut k: usize = 0;
        while k + 1 < clean.len()
            invariant
                k % 2 == 0,
                k <= clean@.len(),
                clean@.len() % 2 == 0,
                bytes@ == bytes_of_digits(clean@.subrange(0, k as int)),
                forall|j: int| 0 <= j < clean@.len() ==> #[trigger] hex_value(clean@[j]) is Some,
            decreases clean.len() - k,
        {
            let high = hex_digit_value(clean[k]);
            let low = hex_digit_value(clean[k + 1]);
            bytes.push(high * 16 + low);
            let ghost d = clean@.subrange(0, k + 2);
            assert(d.subrange(0, d.len() - 2) =~= clean@.subrange(0, k as int));
            k += 2;
        }
        assert(clean@.subrange(0, k as int) =~= clean@);
        self.hex_error = None;
        Some(bytes)
    }
}

impl TerminalView {
    /// Takes what the user entered for sending: the typed line and a newline
    /// in ASCII mode, the complete hexadecimal entries in hex mode. Nothing
    /// entered gives `None` and changes nothing. Otherwise the entry is shown
    /// as sent, then emptied, and the bytes to write are returned, framed for
    /// the chosen link when multiplexing is on.
    pub fn send_command(&mut self, timestamp: Option<String>) -> (r: Option<Vec<u8>>)
        ensures
            old(self).input_mode == InputMode::Ascii ==> {
                let text = old(self).input_buffer@.push('\n');
                if old(self).input_buffer@.len() == 0 {
                    r is None && *final(self) == *old(self)
                } else {
                    &&& r matches Some(b) && b@ == outgoing(*old(self), utf8_of(text))
                    &&& lines_view(final(self).lines@) == bounded_push_all(
                        lines_view(old(self).lines@),
                        text_lines(text).map_values(
                            |l: Seq<char>| (l, opt_view(timestamp), true),
                        ),
                    )
                    &&& final(self).input_buffer@.len() == 0
                    &&& same_hex(*final(self), *old(self))
                }
            },
            old(self).input_mode == InputMode::Hex ==> {
                let bytes = complete_bytes(hex_view(old(self).hex_bytes@));
                if bytes.len() == 0 {
                    r is None && *final(self) == *old(self)
                } else {
                    &&& r matches Some(b) && b@ == outgoing(*old(self), bytes)
                    &&& lines_view(final(self).lines@) == bounded_push(
                        lines_view(old(self).lines@),
                        (hex_line_text(bytes), opt_view(timestamp), true),
                    )
                    &&& final(self).hex_bytes@.len() == 0
                    &&& final(self).hex_input_buffer@.len() == 0
                    &&& final(self).hex_error is None
                    &&& final(self).input_mode == InputMode::Hex
                    &&& final(self).input_buffer == old(self).input_buffer
                }
            },
            final(self).search_index == old(self).search_index,
            final(self).search_results@ == old(self).search_results@,
            final(self).search_buffer == old(self).search_buffer,
            final(self).mux_mode == old(self).mux_mode,
            final(self).mux_link_id == old(self).mux_link_id,
    {
        match self.input_mode {
            InputMode::Ascii => {
                if self.input_buffer.as_str().is_empty() {
                    return None;
                }
                let mut text = self.input_buffer.clone();
                push_char(&mut text, '\n');
                let data = into_bytes(text.clone());
                let out = if self.mux_mode {
                    encode_mux_frame(data.as_slice(), self.mux_link_id)
                } else {
                    data
                };
                self.add_sent_data(text.as_str(), timestamp);
                self.input_buffer = String::new();
                Some(out)
            },
            InputMode::Hex => {
                let bytes = self.get_hex_bytes();
                if bytes.len() == 0 {
                    return None;
                }
                let out = if self.mux_mode {
                    encode_mux_frame(bytes.as_slice(), self.mux_link_id)
                } else {
                    vstd::slice::slice_to_vec(bytes.as_slice())
                };
                self.add_sent_bytes(bytes.as_slice(), timestamp);
                self.clear_hex();
                Some(out)
            },
        }
    }
}

proof fn lemma_hex_digits_are_hex(s: Seq<char>)
    ensures
        forall|j: int| 0 <= j < hex_digits_of(s).len() ==> #[trigger] hex_value(hex_digits_of(s)[j]) is Some,
    decreases s.len(),
{
    if s.len() > 0 {
        lemma_hex_digits_are_hex(s.drop_last());
    }
}

fn hex_digit_value(c: char) -> (r: u8)
    requires
        hex_value(c) is Some,
    ensures
        r == hex_value(c).unwrap(),
        r < 16,
{
    if '0' <= c && c <= '9' {
        (c as u32 - 48) as u8
    } else if 'a' <= c && c <= 'f' {
        (c as u32 - 87) as u8
    } else {
        (c as u32 - 55) as u8
    }
}


} // verus!
