//! Rendering of raw bytes for display: a mixed view where printable ASCII
//! stands as itself and everything else as an escape, split into runs of one
//! kind, and a colored variant that follows ANSI SGR color sequences.
use vstd::prelude::*;
use crate::text::{hex_digit, hex_digit_exec, push_char};

verus! {

#[derive(Debug, Clone, Copy, PartialEq, Eq, Structural)]
pub enum SegmentKind {
    Plain,
    Escape,
}

#[derive(Debug, Clone, Copy, PartialEq, Eq, Structural)]
pub enum AnsiColor {
    Reset,
    Black,
    Red,
    Green,
    Yellow,
    Blue,
    Magenta,
    Cyan,
    White,
    DarkGray,
    LightGreen,
}

/// A run of rendered text of one kind.
#[derive(Debug, Clone, PartialEq, Eq)]
pub struct Segment {
    pub text: String,
    pub kind: SegmentKind,
}

/// A run of rendered text of one kind, with the color it is shown in.
#[derive(Debug, Clone, PartialEq, Eq)]
pub struct StyledSegment {
    pub text: String,
    pub kind: SegmentKind,
    pub color: AnsiColor,
}

impl View for Segment {
    type V = (Seq<char>, SegmentKind);

    open spec fn view(&self) -> (Seq<char>, SegmentKind) {
        (self.text@, self.kind)
    }
}

impl View for StyledSegment {
    type V = (Seq<char>, SegmentKind, AnsiColor);

    open spec fn view(&self) -> (Seq<char>, SegmentKind, AnsiColor) {
        (self.text@, self.kind, self.color)
    }
}

pub open spec fn segments_view(v: Seq<Segment>) -> Seq<(Seq<char>, SegmentKind)> {
    v.map_values(|s: Segment| s@)
}

pub open spec fn styled_view(v: Seq<StyledSegment>) -> Seq<(Seq<char>, SegmentKind, AnsiColor)> {
    v.map_values(|s: StyledSegment| s@)
}

/// Printable ASCII, shown as itself.
pub open spec fn is_printable(b: u8) -> bool {
    0x20 <= b <= 0x7e
}

pub open spec fn kind_of(b: u8) -> SegmentKind {
    if is_printable(b) {
        SegmentKind::Plain
    } else {
        SegmentKind::Escape
    }
}

/// How one byte is shown: itself if printable, `\n` and `\r` for newline and
/// carriage return, `\xHH` with lowercase hex digits otherwise.
pub open spec fn render_byte(b: u8) -> Seq<char> {
    if is_printable(b) {
        seq![b as char]
    } else if b == 0x0a {
        seq!['\\', 'n']
    } else if b == 0x0d {
        seq!['\\', 'r']
    } else {
        seq!['\\', 'x', hex_digit(b / 16), hex_digit(b % 16)]
    }
}

/// The rendering of a byte sequence: each byte rendered on its own, in order.
pub open spec fn render(bytes: Seq<u8>) -> Seq<char>
    decreases bytes.len(),
{
    if bytes.len() == 0 {
        Seq::empty()
    } else {
        render(bytes.drop_last()) + render_byte(bytes.last())
    }
}

/// The segments of a byte sequence: maximal runs of bytes of one kind, each
/// holding the rendering of its bytes.
pub open spec fn segments_of(bytes: Seq<u8>) -> Seq<(Seq<char>, SegmentKind)>
    decreases bytes.len(),
{
    if bytes.len() == 0 {
        Seq::empty()
    } else {
        let prev = segments_of(bytes.drop_last());
        let b = bytes.last();
        if prev.len() > 0 && prev.last().1 == kind_of(b) {
            prev.update(prev.len() - 1, (prev.last().0 + render_byte(b), kind_of(b)))
        } else {
            prev.push((render_byte(b), kind_of(b)))
        }
    }
}

/// The texts of a list of segments, joined.
pub open spec fn joined(segs: Seq<(Seq<char>, SegmentKind)>) -> Seq<char>
    decreases segs.len(),
{
    if segs.len() == 0 {
        Seq::empty()
    } else {
        joined(segs.drop_last()) + segs.last().0
    }
}

/// Every segment holds text, and no two neighbours share a kind.
pub open spec fn alternating(segs: Seq<(Seq<char>, SegmentKind)>) -> bool {
    &&& forall|i: int| 0 <= i < segs.len() ==> #[trigger] segs[i].0.len() > 0
    &&& forall|i: int| 0 <= i < segs.len() - 1 ==> #[trigger] segs[i].1 != segs[i + 1].1
}

/// Joining the segments of a byte sequence gives its rendering.
pub proof fn lemma_segments_join_to_render(bytes: Seq<u8>)
    ensures
        joined(segments_of(bytes)) == render(bytes),
    decreases bytes.len(),
{
    if bytes.len() > 0 {
        let pre = bytes.drop_last();
        lemma_segments_join_to_render(pre);
        let prev = segments_of(pre);
        let b = bytes.last();
        if prev.len() > 0 && prev.last().1 == kind_of(b) {
            let next = segments_of(bytes);
            assert(next.drop_last() =~= prev.drop_last());
            assert(joined(prev) == joined(prev.drop_last()) + prev.last().0);
            assert(joined(next) =~= joined(prev) + render_byte(b));
        } else {
            assert(segments_of(bytes).drop_last() =~= prev);
        }
    }
}

/// Segments are never empty and alternate in kind.
pub proof fn lemma_segments_alternate(bytes: Seq<u8>)
    ensures
        alternating(segments_of(bytes)),
        bytes.len() > 0 ==> segments_of(bytes).len() > 0 && segments_of(bytes).last().1
            == kind_of(bytes.last()),
        bytes.len() == 0 ==> segments_of(bytes).len() == 0,
    decreases bytes.len(),
{
    if bytes.len() > 0 {
        lemma_segments_alternate(bytes.drop_last());
        let next = segments_of(bytes);
        assert forall|i: int| 0 <= i < next.len() implies #[trigger] next[i].0.len() > 0 by {
        }
        assert forall|i: int| 0 <= i < next.len() - 1 implies #[trigger] next[i].1 != next[i
            + 1].1 by {
        }
    }
}

/// Appends the rendering of one byte.
pub(crate) fn push_rendered(buf: &mut String, b: u8)
    ensures
        final(buf)@ == old(buf)@ + render_byte(b),
{
    if 0x20 <= b && b <= 0x7e {
        push_char(buf, b as char);
        assert(final(buf)@ =~= old(buf)@ + render_byte(b));
    } else if b == 0x0a {
        push_char(buf, '\\');
        push_char(buf, 'n');
        assert(final(buf)@ =~= old(buf)@ + render_byte(b));
    } else if b == 0x0d {
        push_char(buf, '\\');
        push_char(buf, 'r');
        assert(final(buf)@ =~= old(buf)@ + render_byte(b));
    } else {
        push_char(buf, '\\');
        push_char(buf, 'x');
        let hi = hex_digit_exec(b / 16);
        let lo = hex_digit_exec(b % 16);
        push_char(buf, hi);
        push_char(buf, lo);
        assert(final(buf)@ =~= old(buf)@ + render_byte(b));
    }
}

/// Splits bytes into segments: maximal runs of printable bytes (`Plain`) and
/// of escaped bytes (`Escape`), each holding the rendering of its run.
pub fn bytes_to_mixed_segments(bytes: &[u8]) -> (out: Vec<Segment>)
    ensures
        segments_view(out@) == segments_of(bytes@),
{
    let mut out: Vec<Segment> = Vec::new();
    let mut buf = String::new();
    let mut kind = SegmentKind::Plain;
    let mut i: usize = 0;
    while i < bytes.len()
        invariant
            i <= bytes.len(),
            i == 0 ==> out@.len() == 0 && buf@.len() == 0,
            i > 0 ==> buf@.len() > 0,
            i > 0 ==> segments_view(out@).push((buf@, kind)) == segments_of(bytes@.subrange(0, i as int)),
        decreases bytes.len() - i,
    {
        let b = bytes[i];
        let k = if 0x20 <= b && b <= 0x7e {
            SegmentKind::Plain
        } else {
            SegmentKind::Escape
        };
        let ghost pre = bytes@.subrange(0, i as int);
        let ghost cur = bytes@.subrange(0, i + 1);
        assert(cur.drop_last() =~= pre);
        proof {
            lemma_segments_alternate(pre);
        }
        if k != kind {
            if !buf.as_str().is_empty() {
                out.push(Segment { text: buf, kind });
                buf = String::new();
            }
            kind = k;
        }
        push_rendered(&mut buf, b);
        assert(segments_view(out@).push((buf@, kind)) =~= segments_of(cur));
        i += 1;
    }
    if !buf.as_str().is_empty() {
        out.push(Segment { text: buf, kind });
    }
    assert(bytes@.subrange(0, bytes@.len() as int) =~= bytes@);
    assert(segments_view(out@) =~= segments_of(bytes@));
    out
}

/// Renders bytes as one string: printable ASCII as itself, newline and
/// carriage return as `\n` and `\r`, every other byte as `\xHH`.
pub fn bytes_to_mixed_ascii(bytes: &[u8]) -> (r: String)
    ensures
        r@ == render(bytes@),
{
    let segs = bytes_to_mixed_segments(bytes);
    let mut r = String::new();
    let mut i: usize = 0;
    while i < segs.len()
        invariant
            i <= segs@.len(),
            segments_view(segs@) == segments_of(bytes@),
            r@ == joined(segments_view(segs@).subrange(0, i as int)),
        decreases segs.len() - i,
    {
        let ghost before = segments_view(segs@).subrange(0, i as int);
        let ghost after = segments_view(segs@).subrange(0, i + 1);
        assert(after.drop_last() =~= before);
        r.append(segs[i].text.as_str());
        i += 1;
    }
    proof {
        assert(segments_view(segs@).subrange(0, segs@.len() as int) =~= segments_view(segs@));
        lemma_segments_join_to_render(bytes@);
    }
    r
}

/// `needle` occurs in `haystack` at position `k`.
pub open spec fn occurs_at(haystack: Seq<u8>, needle: Seq<u8>, k: int) -> bool {
    0 <= k && k + needle.len() <= haystack.len() && haystack.subrange(k, k + needle.len())
        == needle
}

pub open spec fn occurs(haystack: Seq<u8>, needle: Seq<u8>) -> bool {
    exists|k: int| occurs_at(haystack, needle, k)
}

fn matches_at(haystack: &[u8], needle: &[u8], k: usize) -> (r: bool)
    requires
        k + needle@.len() <= haystack@.len(),
    ensures
        r == occurs_at(haystack@, needle@, k as int),
{
    let mut j: usize = 0;
    while j < needle.len()
        invariant
            j <= needle@.len(),
            k + needle@.len() <= haystack@.len(),
            haystack@.len() == haystack.len(),
            forall|t: int| 0 <= t < j ==> haystack@[k + t] == needle@[t],
        decreases needle.len() - j,
    {
        if haystack[k + j] != needle[j] {
            assert(haystack@.subrange(k as int, k + needle@.len())[j as int] != needle@[j as int]);
            return false;
        }
        j += 1;
    }
    assert(haystack@.subrange(k as int, k + needle@.len()) =~= needle@);
    true
}

/// Whether `needle` occurs somewhere in `haystack`.
pub fn contains(haystack: &[u8], needle: &[u8]) -> (r: bool)
    requires
        needle@.len() > 0,
    ensures
        r == occurs(haystack@, needle@),
{
    if needle.len() > haystack.len() {
        return false;
    }
    let last = haystack.len() - needle.len();
    let mut k: usize = 0;
    while k <= last
        invariant
            needle@.len() <= haystack@.len(),
            last == haystack@.len() - needle@.len(),
            haystack@.len() == haystack.len(),
            needle@.len() > 0,
            k <= last + 1,
            forall|t: int| 0 <= t < k ==> !occurs_at(haystack@, needle@, t),
        decreases haystack.len() - k,
    {
        if matches_at(haystack, needle, k) {
            return true;
        }
        k += 1;
    }
    false
}

/// `haystack` with each occurrence of `needle`, found from the left without
/// overlap, replaced by `replacement`.
pub open spec fn replaced(haystack: Seq<u8>, needle: Seq<u8>, replacement: Seq<u8>) -> Seq<u8>
    recommends
        needle.len() > 0,
    decreases haystack.len(),
{
    if needle.len() == 0 || haystack.len() < needle.len() {
        haystack
    } else if haystack.subrange(0, needle.len() as int) == needle {
        replacement + replaced(haystack.subrange(needle.len() as int, haystack.len() as int), needle, replacement)
    } else {
        seq![haystack[0]] + replaced(haystack.subrange(1, haystack.len() as int), needle, replacement)
    }
}

/// Replaces each occurrence of `needle`, scanning from the left without
/// overlap, by `replacement`.
pub fn replace_all(haystack: &[u8], needle: &[u8], replacement: &[u8]) -> (r: Vec<u8>)
    requires
        needle@.len() > 0,
    ensures
        r@ == replaced(haystack@, needle@, replacement@),
{
    let mut result: Vec<u8> = Vec::new();
    let mut i: usize = 0;
    assert(haystack@.subrange(0, haystack@.len() as int) =~= haystack@);
    assert(result@ + haystack@ =~= haystack@);
    while i <= haystack.len() && needle.len() <= haystack.len() - i
        invariant
            needle@.len() > 0,
            i <= haystack@.len(),
            result@ + replaced(haystack@.subrange(i as int, haystack@.len() as int), needle@, replacement@)
                == replaced(haystack@, needle@, replacement@),
        decreases haystack.len() - i,
    {
        let ghost rest = haystack@.subrange(i as int, haystack@.len() as int);
        let n = needle.len();
        if matches_at(haystack, needle, i) {
            assert(rest.subrange(0, n as int) =~= haystack@.subrange(i as int, i + n));
            assert(rest.subrange(n as int, rest.len() as int) =~= haystack@.subrange(i + n, haystack@.len() as int));
            let mut j: usize = 0;
            let ghost start = result@;
            while j < replacement.len()
                invariant
                    j <= replacement@.len(),
                    result@ == start + replacement@.subrange(0, j as int),
                decreases replacement.len() - j,
            {
                result.push(replacement[j]);
                j += 1;
                assert(result@ =~= start + replacement@.subrange(0, j as int));
            }
            assert(replacement@.subrange(0, replacement@.len() as int) =~= replacement@);
            assert(result@ + replaced(haystack@.subrange(i + n, haystack@.len() as int), needle@, replacement@)
                =~= start + replaced(rest, needle@, replacement@));
            i += n;
        } else {
            assert(rest.subrange(0, n as int) =~= haystack@.subrange(i as int, i + n));
            assert(rest.subrange(1, rest.len() as int) =~= haystack@.subrange(i + 1, haystack@.len() as int));
            let ghost start = result@;
            result.push(haystack[i]);
            assert(result@ + replaced(haystack@.subrange(i + 1, haystack@.len() as int), needle@, replacement@)
                =~= start + replaced(rest, needle@, replacement@));
            i += 1;
        }
    }
    let ghost i0 = i as int;
    let ghost start = result@;
    assert(replaced(haystack@.subrange(i0, haystack@.len() as int), needle@, replacement@)
        == haystack@.subrange(i0, haystack@.len() as int));
    while i < haystack.len()
        invariant
            0 <= i0 <= i <= haystack@.len(),
            result@ == start + haystack@.subrange(i0, i as int),
        decreases haystack.len() - i,
    {
        result.push(haystack[i]);
        i += 1;
        assert(result@ =~= start + haystack@.subrange(i0, i as int));
    }
    assert(haystack@.subrange(i0, i as int) =~= haystack@.subrange(i0, haystack@.len() as int));
    result
}

/// The color that escaped bytes take within a run of the given color, so that
/// they stay distinct from the text around them.
pub open spec fn accent_of(color: AnsiColor) -> AnsiColor {
    if color == AnsiColor::Yellow {
        AnsiColor::DarkGray
    } else {
        AnsiColor::Yellow
    }
}

pub open spec fn styled(seg: (Seq<char>, SegmentKind), color: AnsiColor) -> (
    Seq<char>,
    SegmentKind,
    AnsiColor,
) {
    (seg.0, seg.1, if seg.1 == SegmentKind::Plain { color } else { accent_of(color) })
}

/// The segments of `bytes`, plain runs in `color` and escaped runs in its accent.
pub open spec fn styled_segments_of(bytes: Seq<u8>, color: AnsiColor) -> Seq<
    (Seq<char>, SegmentKind, AnsiColor),
> {
    segments_of(bytes).map_values(|s: (Seq<char>, SegmentKind)| styled(s, color))
}

/// Splits bytes into segments as `bytes_to_mixed_segments` does and colors
/// them: plain runs in `color`, escaped runs in its accent color.
pub fn bytes_to_string_segments(msg: &[u8], color: AnsiColor) -> (out: Vec<StyledSegment>)
    ensures
        styled_view(out@) == styled_segments_of(msg@, color),
{
    let accent = if color == AnsiColor::Yellow {
        AnsiColor::DarkGray
    } else {
        AnsiColor::Yellow
    };
    let segs = bytes_to_mixed_segments(msg);
    let mut out: Vec<StyledSegment> = Vec::new();
    let mut i: usize = 0;
    while i < segs.len()
        invariant
            i <= segs@.len(),
            accent == accent_of(color),
            segments_view(segs@) == segments_of(msg@),
            styled_view(out@) == styled_segments_of(msg@, color).subrange(0, i as int),
        decreases segs.len() - i,
    {
        let kind = segs[i].kind;
        let seg_color = if kind == SegmentKind::Plain {
            color
        } else {
            accent
        };
        let text = segs[i].text.clone();
        proof {
            assert(segments_view(segs@)[i as int] == segs@[i as int]@);
            assert(styled_segments_of(msg@, color)[i as int] == styled(segments_of(msg@)[i as int], color));
        }
        let ghost before = out@;
        out.push(StyledSegment { text, kind, color: seg_color });
        assert(styled_view(out@) =~= styled_view(before).push((text@, kind, seg_color)));
        i += 1;
        assert(styled_view(out@) =~= styled_segments_of(msg@, color).subrange(0, i as int));
    }
    assert(styled_segments_of(msg@, color).subrange(0, i as int) =~= styled_segments_of(msg@, color));
    out
}

/// The recognized SGR color sequences, in the order they are tried.
pub open spec fn sgr_pattern(k: int) -> Seq<u8> {
    if k == 0 {
        seq![0x1bu8, 0x5b, 0x30, 0x6d]
    } else if k == 1 {
        seq![0x1bu8, 0x5b, 0x33, 0x30, 0x6d]
    } else if k == 2 {
        seq![0x1bu8, 0x5b, 0x33, 0x31, 0x6d]
    } else if k == 3 {
        seq![0x1bu8, 0x5b, 0x31, 0x3b, 0x33, 0x31, 0x6d]
    } else if k == 4 {
        seq![0x1bu8, 0x5b, 0x33, 0x32, 0x6d]
    } else if k == 5 {
        seq![0x1bu8, 0x5b, 0x31, 0x3b, 0x33, 0x32, 0x6d]
    } else if k == 6 {
        seq![0x1bu8, 0x5b, 0x33, 0x33, 0x6d]
    } else if k == 7 {
        seq![0x1bu8, 0x5b, 0x31, 0x3b, 0x33, 0x33, 0x6d]
    } else if k == 8 {
        seq![0x1bu8, 0x5b, 0x33, 0x34, 0x6d]
    } else if k == 9 {
        seq![0x1bu8, 0x5b, 0x33, 0x35, 0x6d]
    } else if k == 10 {
        seq![0x1bu8, 0x5b, 0x33, 0x36, 0x6d]
    } else {
        seq![0x1bu8, 0x5b, 0x33, 0x37, 0x6d]
    }
}

/// The color that each recognized SGR sequence selects.
pub open spec fn sgr_color(k: int) -> AnsiColor {
    if k == 0 {
        AnsiColor::Reset
    } else if k == 1 {
        AnsiColor::Black
    } else if k == 2 || k == 3 {
        AnsiColor::Red
    } else if k == 4 || k == 5 {
        AnsiColor::Green
    } else if k == 6 || k == 7 {
        AnsiColor::Yellow
    } else if k == 8 {
        AnsiColor::Blue
    } else if k == 9 {
        AnsiColor::Magenta
    } else if k == 10 {
        AnsiColor::Cyan
    } else {
        AnsiColor::White
    }
}

pub const SGR_COUNT: usize = 12;

fn sgr_entry(k: usize) -> (r: (Vec<u8>, AnsiColor))
    requires
        k < SGR_COUNT,
    ensures
        r.0@ == sgr_pattern(k as int),
        r.1 == sgr_color(k as int),
{
    if k == 0 {
        (vec![0x1b, 0x5b, 0x30, 0x6d], AnsiColor::Reset)
    } else if k == 1 {
        (vec![0x1b, 0x5b, 0x33, 0x30, 0x6d], AnsiColor::Black)
    } else if k == 2 {
        (vec![0x1b, 0x5b, 0x33, 0x31, 0x6d], AnsiColor::Red)
    } else if k == 3 {
        (vec![0x1b, 0x5b, 0x31, 0x3b, 0x33, 0x31, 0x6d], AnsiColor::Red)
    } else if k == 4 {
        (vec![0x1b, 0x5b, 0x33, 0x32, 0x6d], AnsiColor::Green)
    } else if k == 5 {
        (vec![0x1b, 0x5b, 0x31, 0x3b, 0x33, 0x32, 0x6d], AnsiColor::Green)
    } else if k == 6 {
        (vec![0x1b, 0x5b, 0x33, 0x33, 0x6d], AnsiColor::Yellow)
    } else if k == 7 {
        (vec![0x1b, 0x5b, 0x31, 0x3b, 0x33, 0x33, 0x6d], AnsiColor::Yellow)
    } else if k == 8 {
        (vec![0x1b, 0x5b, 0x33, 0x34, 0x6d], AnsiColor::Blue)
    } else if k == 9 {
        (vec![0x1b, 0x5b, 0x33, 0x35, 0x6d], AnsiColor::Magenta)
    } else if k == 10 {
        (vec![0x1b, 0x5b, 0x33, 0x36, 0x6d], AnsiColor::Cyan)
    } else {
        (vec![0x1b, 0x5b, 0x33, 0x37, 0x6d], AnsiColor::White)
    }
}

/// The first recognized sequence, from position `k` of the table on, that
/// occurs in `buf`.
pub open spec fn first_sgr_match(buf: Seq<u8>, k: int) -> Option<int>
    decreases SGR_COUNT - k,
{
    if k < 0 || k >= SGR_COUNT {
        None
    } else if occurs(buf, sgr_pattern(k)) {
        Some(k)
    } else {
        first_sgr_match(buf, k + 1)
    }
}

/// The cursor and erase sequences that are dropped before colors are read:
/// `ESC [ m`, `ESC [ 8 D` and `ESC [ J`.
pub open spec fn without_controls(bytes: Seq<u8>) -> Seq<u8> {
    let a = replaced(bytes, seq![0x1bu8, 0x5b, 0x6d], Seq::empty());
    let b = replaced(a, seq![0x1bu8, 0x5b, 0x38, 0x44], Seq::empty());
    replaced(b, seq![0x1bu8, 0x5b, 0x4a], Seq::empty())
}

/// State of the color scan after a prefix of the input: the segments emitted so
/// far, the bytes not yet emitted, and the active color.
pub open spec fn ansi_scan(msg: Seq<u8>) -> (
    Seq<(Seq<char>, SegmentKind, AnsiColor)>,
    Seq<u8>,
    AnsiColor,
)
    decreases msg.len(),
{
    if msg.len() == 0 {
        (Seq::empty(), Seq::empty(), AnsiColor::Reset)
    } else {
        let prev = ansi_scan(msg.drop_last());
        let b = msg.last();
        let buf = prev.1.push(b);
        if b != 0x6d {
            (prev.0, buf, prev.2)
        } else {
            match first_sgr_match(buf, 0) {
                Some(k) => (
                    prev.0 + styled_segments_of(replaced(buf, sgr_pattern(k), Seq::empty()), prev.2),
                    Seq::empty(),
                    sgr_color(k),
                ),
                None => (prev.0, buf, prev.2),
            }
        }
    }
}

/// The colored segments of a byte stream: control sequences dropped, then each
/// run that ends in a recognized color sequence emitted in the color active
/// before it (without the sequence), and what is left at the end emitted in
/// the last active color.
pub open spec fn ansi_segments_of(bytes: Seq<u8>) -> Seq<(Seq<char>, SegmentKind, AnsiColor)> {
    let st = ansi_scan(without_controls(bytes));
    if st.1.len() > 0 {
        st.0 + styled_segments_of(st.1, st.2)
    } else {
        st.0
    }
}

/// The position in the table of the first recognized sequence that occurs in
/// `buf`.
fn find_sgr(buf: &[u8]) -> (r: Option<usize>)
    ensures
        r matches Some(k) ==> k < SGR_COUNT && first_sgr_match(buf@, 0) == Some(k as int),
        r is None ==> first_sgr_match(buf@, 0) is None,
{
    let mut k: usize = 0;
    while k < SGR_COUNT
        invariant
            k <= SGR_COUNT,
            first_sgr_match(buf@, 0) == first_sgr_match(buf@, k as int),
        decreases SGR_COUNT - k,
    {
        let (pattern, _color) = sgr_entry(k);
        if contains(buf, pattern.as_slice()) {
            return Some(k);
        }
        k += 1;
    }
    None
}

fn append_styled(output: &mut Vec<StyledSegment>, msg: &[u8], color: AnsiColor)
    ensures
        styled_view(final(output)@) == styled_view(old(output)@) + styled_segments_of(msg@, color),
{
    let mut segs = bytes_to_string_segments(msg, color);
    let ghost before = output@;
    let ghost added = segs@;
    output.append(&mut segs);
    assert(styled_view(output@) =~= styled_view(before) + styled_view(added));
}

/// Splits a byte stream into colored segments, following the ANSI SGR color
/// sequences in it.
pub fn bytes_to_ansi_segments(bytes: &[u8]) -> (out: Vec<StyledSegment>)
    ensures
        styled_view(out@) == ansi_segments_of(bytes@),
{
    let esc_m: Vec<u8> = vec![0x1b, 0x5b, 0x6d];
    let esc_8d: Vec<u8> = vec![0x1b, 0x5b, 0x38, 0x44];
    let esc_j: Vec<u8> = vec![0x1b, 0x5b, 0x4a];
    let empty: Vec<u8> = Vec::new();
    let msg = replace_all(bytes, esc_m.as_slice(), empty.as_slice());
    let msg = replace_all(msg.as_slice(), esc_8d.as_slice(), empty.as_slice());
    let msg = replace_all(msg.as_slice(), esc_j.as_slice(), empty.as_slice());
    assert(msg@ == without_controls(bytes@));

    let mut output: Vec<StyledSegment> = Vec::new();
    let mut buffer: Vec<u8> = Vec::new();
    let mut color = AnsiColor::Reset;
    let mut i: usize = 0;
    while i < msg.len()
        invariant
            i <= msg@.len(),
            empty@ == Seq::<u8>::empty(),
            (styled_view(output@), buffer@, color) == ansi_scan(msg@.subrange(0, i as int)),
        decreases msg.len() - i,
    {
        let byte = msg[i];
        let ghost cur = msg@.subrange(0, i + 1);
        assert(cur.drop_last() =~= msg@.subrange(0, i as int));
        assert(cur.last() == byte);
        let ghost st = ansi_scan(cur);
        let ghost prev = ansi_scan(msg@.subrange(0, i as int));
        assert(prev == ansi_scan(cur.drop_last()));
        buffer.push(byte);
        assert(buffer@ == prev.1.push(byte));
        i += 1;
        if byte == 0x6d {
            if let Some(k) = find_sgr(buffer.as_slice()) {
                let (pattern, new_color) = sgr_entry(k);
                let cleaned = replace_all(buffer.as_slice(), pattern.as_slice(), empty.as_slice());
                assert(cleaned@ == replaced(prev.1.push(byte), sgr_pattern(k as int), Seq::empty()));
                assert(first_sgr_match(prev.1.push(byte), 0) == Some(k as int));
                append_styled(&mut output, cleaned.as_slice(), color);
                buffer.clear();
                color = new_color;
                assert(buffer@ =~= Seq::<u8>::empty());
            }
        }
        assert((styled_view(output@), buffer@, color) == st);
    }
    assert(msg@.subrange(0, msg@.len() as int) =~= msg@);
    if buffer.len() > 0 {
        append_styled(&mut output, buffer.as_slice(), color);
    }
    output
}

} // verus!
