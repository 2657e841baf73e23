use vstd::prelude::*;
use vstd::string::StringSliceAdditionalSpecFns;
use vstd::utf8::{decode_utf8, encode_utf8_decode_utf8, is_char_boundary};

use crate::editor::markdown::{commonmark_spans, markdown_spans, MdEvent, MdSpan, MdTag};
use crate::editor::style::{Color, Style, BOLD, ITALIC, UNDERLINED, plain_style, with_modifier};

verus! {

/// A styled span within a single logical line.
#[derive(Debug, Clone, Copy, PartialEq, Eq, Structural)]
pub struct StyledRange {
    /// Start character column within the logical line.
    pub start_col: usize,
    /// End character column (exclusive).
    pub end_col: usize,
    pub style: Style,
}

/// Color theme for Markdown syntax highlighting.
#[derive(Debug, Clone, Copy, PartialEq, Eq, Structural)]
pub struct MarkdownTheme {
    pub heading: Style,
    pub bold: Style,
    pub italic: Style,
    pub code: Style,
    pub link: Style,
    pub blockquote: Style,
    pub list_marker: Style,
    pub hr: Style,
}

/// The default theme: yellow bold headings, bold and italic emphasis, green
/// code, blue underlined links, dark grey quotes and rules, cyan list
/// markers.
pub open spec fn default_theme() -> MarkdownTheme {
    MarkdownTheme {
        heading: with_modifier(Style { fg: Some(Color::Yellow), ..plain_style() }, BOLD),
        bold: with_modifier(plain_style(), BOLD),
        italic: with_modifier(plain_style(), ITALIC),
        code: Style { fg: Some(Color::Green), ..plain_style() },
        link: with_modifier(Style { fg: Some(Color::Blue), ..plain_style() }, UNDERLINED),
        blockquote: Style { fg: Some(Color::DarkGray), ..plain_style() },
        list_marker: Style { fg: Some(Color::Cyan), ..plain_style() },
        hr: Style { fg: Some(Color::DarkGray), ..plain_style() },
    }
}

impl Default for MarkdownTheme {
    fn default() -> (t: Self)
        ensures
            t == default_theme(),
    {
        MarkdownTheme {
            heading: Style::new().fg(Color::Yellow).add_modifier(BOLD),
            bold: Style::new().add_modifier(BOLD),
            italic: Style::new().add_modifier(ITALIC),
            code: Style::new().fg(Color::Green),
            link: Style::new().fg(Color::Blue).add_modifier(UNDERLINED),
            blockquote: Style::new().fg(Color::DarkGray),
            list_marker: Style::new().fg(Color::Cyan),
            hr: Style::new().fg(Color::DarkGray),
        }
    }
}

/// The byte offsets at which the lines of the first `k` bytes of `b`
/// begin: 0, and one past each LF.
pub open spec fn newline_offsets(b: Seq<u8>, k: int) -> Seq<int>
    decreases k,
{
    if k <= 0 {
        seq![0int]
    } else if b[k - 1] == 10u8 {
        newline_offsets(b, k - 1).push(k)
    } else {
        newline_offsets(b, k - 1)
    }
}

/// The byte offsets at which the lines of `b` begin.
pub open spec fn line_offsets(b: Seq<u8>) -> Seq<int> {
    newline_offsets(b, b.len() as int)
}

/// The number of lines std's `str::lines` yields for the text encoded by
/// `b`: one per LF, plus one for a last line that does not end in LF.
pub open spec fn text_line_count(b: Seq<u8>) -> int {
    (line_offsets(b).len() - 1) + if b.len() > 0 && b.last() != 10u8 {
        1int
    } else {
        0
    }
}

/// The number of per-line span lists: one per line, and at least one.
pub open spec fn span_list_count(b: Seq<u8>) -> int {
    if text_line_count(b) == 0 {
        1
    } else {
        text_line_count(b)
    }
}

/// The index of the first of `offs[from..]` above `byte` (or the length):
/// for increasing offsets, the number of them at or before `byte`.
pub open spec fn first_above(offs: Seq<int>, byte: int, from: int) -> int
    decreases offs.len() - from,
{
    if from >= offs.len() || from < 0 {
        offs.len() as int
    } else if offs[from] > byte {
        from
    } else {
        first_above(offs, byte, from + 1)
    }
}

/// The line on which byte `byte` stands.
pub open spec fn byte_line(offs: Seq<int>, byte: int) -> int {
    let c = first_above(offs, byte, 0);
    if c == 0 {
        0
    } else {
        c - 1
    }
}

/// The number of characters before byte `o` of the UTF-8 text `b`, where
/// `o` falls on a character boundary.
pub open spec fn char_index(b: Seq<u8>, o: int) -> Option<int> {
    if is_char_boundary(b, o) {
        Some(decode_utf8(b.subrange(0, o)).len() as int)
    } else {
        None
    }
}

/// The character column of byte `o` on the line that starts at byte
/// `start`: the characters between them, where both fall on character
/// boundaries.
pub open spec fn char_col(b: Seq<u8>, start: int, o: int) -> Option<int> {
    match (char_index(b, start), char_index(b, o)) {
        (Some(a), Some(c)) => if a <= c {
            Some(c - a)
        } else {
            None
        },
        _ => None,
    }
}

/// The byte length of line `k` as `str::lines` yields it (without its LF,
/// and without a CR just before that LF), or `None` past the last line.
pub open spec fn text_line_len(b: Seq<u8>, k: int) -> Option<int> {
    let offs = line_offsets(b);
    if 0 <= k < text_line_count(b) {
        let s = offs[k];
        let has_lf = k + 1 < offs.len();
        let e = if has_lf {
            offs[k + 1] - 1
        } else {
            b.len() as int
        };
        if has_lf && e > s && b[e - 1] == 13u8 {
            Some(e - 1 - s)
        } else {
            Some(e - s)
        }
    } else {
        None
    }
}

/// The highlighting state: the span lists so far and the style in force.
pub struct HighlightState {
    pub spans: Seq<Seq<StyledRange>>,
    pub active: Option<Style>,
}

/// `spans` with `r` added to the list of line `line`.
pub open spec fn add_range(spans: Seq<Seq<StyledRange>>, line: int, r: StyledRange) -> Seq<
    Seq<StyledRange>,
> {
    spans.update(line, spans[line].push(r))
}

/// What one event does: headings, strong and emphasis text, and block
/// quotes set the style for the text inside them (an end tag clears it);
/// inline code on a single line is marked with the code style; text and
/// soft breaks get the style in force, up to the end of their first line.
/// Columns count characters; a range whose ends do not fall on character
/// boundaries is left out.
pub open spec fn highlight_step(
    b: Seq<u8>,
    theme: MarkdownTheme,
    st: HighlightState,
    ev: MdSpan,
) -> HighlightState {
    let offs = line_offsets(b);
    let sl = byte_line(offs, ev.start as int);
    let el = byte_line(offs, ev.end as int);
    let start = offs[sl];
    let sc = char_col(b, start, ev.start as int);
    let ec = char_col(b, start, ev.end as int);
    match ev.event {
        MdEvent::Start(MdTag::Heading(_)) => HighlightState { active: Some(theme.heading), ..st },
        MdEvent::Start(MdTag::Strong) => HighlightState { active: Some(theme.bold), ..st },
        MdEvent::Start(MdTag::Emphasis) => HighlightState { active: Some(theme.italic), ..st },
        MdEvent::Start(MdTag::BlockQuote) => HighlightState {
            active: Some(theme.blockquote),
            ..st
        },
        MdEvent::End(MdTag::Heading(_)) | MdEvent::End(MdTag::Strong) | MdEvent::End(
            MdTag::Emphasis,
        ) | MdEvent::End(MdTag::BlockQuote) => HighlightState { active: None, ..st },
        MdEvent::Code(_) => match (sc, ec) {
            (Some(a), Some(c)) => if sl == el && sl < st.spans.len() {
                HighlightState {
                    spans: add_range(
                        st.spans,
                        sl,
                        StyledRange { start_col: a as usize, end_col: c as usize, style: theme.code },
                    ),
                    ..st
                }
            } else {
                st
            },
            _ => st,
        },
        MdEvent::Text(_) | MdEvent::SoftBreak => match st.active {
            Some(style) => if sl < st.spans.len() {
                let end = if sl == el {
                    ec
                } else {
                    match text_line_len(b, sl) {
                        Some(l) => char_col(b, start, start + l),
                        None => ec,
                    }
                };
                match (sc, end) {
                    (Some(a), Some(c)) => HighlightState {
                        spans: add_range(
                            st.spans,
                            sl,
                            StyledRange { start_col: a as usize, end_col: c as usize, style },
                        ),
                        ..st
                    },
                    _ => st,
                }
            } else {
                st
            },
            None => st,
        },
        _ => st,
    }
}

/// The state after the first `k` events.
pub open spec fn highlight_run(
    b: Seq<u8>,
    theme: MarkdownTheme,
    events: Seq<MdSpan>,
    k: int,
) -> HighlightState
    decreases k,
{
    if k <= 0 {
        HighlightState {
            spans: Seq::new(span_list_count(b) as nat, |i: int| Seq::<StyledRange>::empty()),
            active: None,
        }
    } else {
        highlight_step(b, theme, highlight_run(b, theme, events, k - 1), events[k - 1])
    }
}

/// The styled ranges of each line of the text encoded by `b`, given its
/// Markdown events (with byte ranges).
pub open spec fn highlight_spec(b: Seq<u8>, theme: MarkdownTheme, events: Seq<MdSpan>) -> Seq<
    Seq<StyledRange>,
> {
    highlight_run(b, theme, events, events.len() as int).spans
}

/// Highlighting keeps one span list per line: after any number of events
/// there are `span_list_count` lists, as at the start.
pub proof fn lemma_highlight_run_len(b: Seq<u8>, theme: MarkdownTheme, events: Seq<MdSpan>, k: int)
    requires
        0 <= k <= events.len(),
    ensures
        highlight_run(b, theme, events, k).spans.len() == span_list_count(b),
    decreases k,
{
    lemma_newline_offsets(b, b.len() as int);
    if k > 0 {
        lemma_highlight_run_len(b, theme, events, k - 1);
        lemma_first_above(line_offsets(b), events[k - 1].start as int, 0);
    }
}

/// Highlighting gives one list of styled ranges per line of the text (and
/// one for an empty text), whatever Markdown events the text has.
pub proof fn law_one_span_list_per_line(b: Seq<u8>, theme: MarkdownTheme, events: Seq<MdSpan>)
    ensures
        highlight_spec(b, theme, events).len() == span_list_count(b),
        span_list_count(b) >= 1,
{
    lemma_highlight_run_len(b, theme, events, events.len() as int);
    lemma_newline_offsets(b, b.len() as int);
}

/// An event that opens an element whose text is highlighted: a heading,
/// strong or emphasised text, or a block quote.
pub open spec fn opens_styled(e: MdEvent) -> bool {
    e matches MdEvent::Start(t) && (t is Heading || t is Strong || t is Emphasis || t is BlockQuote)
}

/// An event that closes a heading, strong or emphasised text, or a block
/// quote.
pub open spec fn closes_styled(e: MdEvent) -> bool {
    e matches MdEvent::End(t) && (t is Heading || t is Strong || t is Emphasis || t is BlockQuote)
}

/// A text run or a soft break.
pub open spec fn is_text_event(e: MdEvent) -> bool {
    e is Text || e is SoftBreak
}

/// The style in force after `k` events: none before any element opens and
/// after one closes (with no element opened since), the bold style just
/// inside strong text.
proof fn lemma_active_since(
    b: Seq<u8>,
    theme: MarkdownTheme,
    events: Seq<MdSpan>,
    j: int,
    k: int,
)
    requires
        0 <= j <= k <= events.len(),
    ensures
        (j == 0 && forall|m: int| 0 <= m < k ==> !opens_styled(#[trigger] events[m].event))
            ==> highlight_run(b, theme, events, k).active is None,
        (j < k && closes_styled(events[j].event) && forall|m: int|
            j < m < k ==> !opens_styled(#[trigger] events[m].event)) ==> highlight_run(
            b,
            theme,
            events,
            k,
        ).active is None,
        (j < k && events[j].event == MdEvent::Start(MdTag::Strong) && forall|m: int|
            j < m < k ==> !opens_styled(#[trigger] events[m].event) && !closes_styled(
                events[m].event,
            )) ==> highlight_run(b, theme, events, k).active == Some(theme.bold),
    decreases k,
{
    if k > 0 {
        if j < k - 1 || (j == 0 && k - 1 == 0) {
            lemma_active_since(b, theme, events, j, k - 1);
        }
        if j == k - 1 && j > 0 {
            lemma_active_since(b, theme, events, 0, 0);
        }
    }
}

/// Text outside the highlighted elements is not highlighted: a text run or
/// soft break before any heading, strong or emphasised text or block quote
/// opens, or after one closes with none opened since, adds no styled range
/// to any line.
pub proof fn law_text_outside_elements_is_plain(
    b: Seq<u8>,
    theme: MarkdownTheme,
    events: Seq<MdSpan>,
    j: int,
    k: int,
)
    requires
        0 <= j <= k < events.len(),
        is_text_event(events[k].event),
        (j == 0 && forall|m: int| 0 <= m < k ==> !opens_styled(#[trigger] events[m].event)) || (j < k
            && closes_styled(events[j].event) && forall|m: int|
            j < m < k ==> !opens_styled(#[trigger] events[m].event)),
    ensures
        highlight_run(b, theme, events, k + 1).spans == highlight_run(b, theme, events, k).spans,
{
    lemma_active_since(b, theme, events, j, k);
}

/// Text just inside strong text is highlighted bold: a text run or soft
/// break after strong text opens, with no element opened or closed since,
/// adds at most one range, at the end of one line's list, in the bold
/// style.
pub proof fn law_text_inside_strong_is_bold(
    b: Seq<u8>,
    theme: MarkdownTheme,
    events: Seq<MdSpan>,
    j: int,
    k: int,
)
    requires
        0 <= j < k < events.len(),
        is_text_event(events[k].event),
        events[j].event == MdEvent::Start(MdTag::Strong),
        forall|m: int|
            j < m < k ==> !opens_styled(#[trigger] events[m].event) && !closes_styled(
                events[m].event,
            ),
    ensures
        ({
            let before = highlight_run(b, theme, events, k).spans;
            let after = highlight_run(b, theme, events, k + 1).spans;
            &&& after.len() == before.len()
            &&& forall|l: int|
                0 <= l < before.len() ==> #[trigger] after[l] == before[l] || (after[l].len() > 0
                    && after[l].drop_last() == before[l] && after[l].last().style == theme.bold)
        }),
{
    lemma_active_since(b, theme, events, j, k);
    let st = highlight_run(b, theme, events, k);
    let before = st.spans;
    let after = highlight_run(b, theme, events, k + 1).spans;
    let ev = events[k];
    assert(highlight_run(b, theme, events, k + 1) == highlight_step(b, theme, st, ev));
    let offs = line_offsets(b);
    lemma_newline_offsets(b, b.len() as int);
    lemma_first_above(offs, ev.start as int, 0);
    let sl = byte_line(offs, ev.start as int);
    assert(0 <= sl);
    let el = byte_line(offs, ev.end as int);
    let start = offs[sl];
    let sc = char_col(b, start, ev.start as int);
    let ec = char_col(b, start, ev.end as int);
    let end = if sl == el {
        ec
    } else {
        match text_line_len(b, sl) {
            Some(l) => char_col(b, start, start + l),
            None => ec,
        }
    };
    if sl < before.len() {
        match (sc, end) {
            (Some(x), Some(y)) => {
                let r = StyledRange { start_col: x as usize, end_col: y as usize, style: theme.bold };
                assert(after == add_range(before, sl, r));
                assert forall|l: int| 0 <= l < before.len() implies #[trigger] after[l] == before[l]
                    || (after[l].len() > 0 && after[l].drop_last() == before[l] && after[l].last().style
                    == theme.bold) by {
                    if l == sl {
                        assert(after[l].drop_last() =~= before[l]);
                    }
                }
            },
            _ => {
                assert(after == before);
            },
        }
    } else {
        assert(after == before);
    }
}

/// Line offsets start at 0, increase strictly, and stay within the bytes
/// read.
pub proof fn lemma_newline_offsets(b: Seq<u8>, k: int)
    requires
        0 <= k <= b.len(),
    ensures
        newline_offsets(b, k).len() >= 1,
        newline_offsets(b, k)[0] == 0,
        newline_offsets(b, k).len() <= k + 1,
        forall|j: int| 0 <= j < newline_offsets(b, k).len() ==> 0 <= #[trigger] newline_offsets(b, k)[j] <= k,
        forall|i: int, j: int|
            0 <= i < j < newline_offsets(b, k).len() ==> newline_offsets(b, k)[i] < newline_offsets(
                b,
                k,
            )[j],
        forall|j: int|
            1 <= j < newline_offsets(b, k).len() ==> b[#[trigger] newline_offsets(b, k)[j] - 1] == 10u8,
    decreases k,
{
    if k > 0 {
        lemma_newline_offsets(b, k - 1);
    }
}

/// Every offset before the first one above `byte` is at most `byte`.
pub proof fn lemma_first_above(offs: Seq<int>, byte: int, from: int)
    requires
        0 <= from <= offs.len(),
    ensures
        from <= first_above(offs, byte, from) <= offs.len(),
        forall|j: int| from <= j < first_above(offs, byte, from) ==> offs[j] <= byte,
    decreases offs.len() - from,
{
    if from < offs.len() && offs[from] <= byte {
        lemma_first_above(offs, byte, from + 1);
    }
}

/// The line of a byte, found in the line offsets.
fn locate(offsets: &Vec<usize>, byte: usize) -> (r: usize)
    requires
        offsets.len() >= 1,
        offsets@[0] == 0,
    ensures
        r == byte_line(offsets@.map_values(|o: usize| o as int), byte as int),
        r < offsets.len(),
{
    let ghost offs = offsets@.map_values(|o: usize| o as int);
    let mut j: usize = 0;
    proof {
        lemma_first_above(offs, byte as int, 0);
    }
    while j < offsets.len() && offsets[j] <= byte
        invariant
            j <= offsets.len(),
            offs == offsets@.map_values(|o: usize| o as int),
            first_above(offs, byte as int, j as int) == first_above(offs, byte as int, 0),
        decreases offsets.len() - j,
    {
        j = j + 1;
    }
    proof {
        lemma_first_above(offs, byte as int, 0);
    }
    if j == 0 {
        0
    } else {
        j - 1
    }
}

/// The number of characters before byte `o` of `text`, where `o` falls on
/// a character boundary.
fn char_offset(text: &str, o: usize) -> (r: Option<usize>)
    ensures
        match r {
            Some(c) => char_index(text.spec_bytes(), o as int) == Some(c as int),
            None => char_index(text.spec_bytes(), o as int) is None,
        },
{
    if text.is_char_boundary(o) {
        let (head, _) = text.split_at(o);
        proof {
            encode_utf8_decode_utf8(head@);
        }
        Some(head.unicode_len())
    } else {
        None
    }
}

/// The character column of byte `o` of `text` on the line that starts at
/// byte `start`.
fn char_col_of(text: &str, start: usize, o: usize) -> (r: Option<usize>)
    ensures
        match r {
            Some(c) => char_col(text.spec_bytes(), start as int, o as int) == Some(c as int),
            None => char_col(text.spec_bytes(), start as int, o as int) is None,
        },
{
    match (char_offset(text, start), char_offset(text, o)) {
        (Some(a), Some(c)) => if a <= c {
            Some(c - a)
        } else {
            None
        },
        _ => None,
    }
}

/// The span lists as sequences.
pub open spec fn span_lists_view(v: Vec<Vec<StyledRange>>) -> Seq<Seq<StyledRange>> {
    v@.map_values(|l: Vec<StyledRange>| l@)
}

/// Compute syntax-highlighted spans for every line of `text`, given its
/// Markdown events with their byte ranges.
///
/// Returns one entry per line (at least one); each is the list of styled
/// ranges to apply on top of the default text style.  Columns count
/// characters.
pub fn highlight_events(text: &str, events: &Vec<MdSpan>, theme: &MarkdownTheme) -> (r: Vec<
    Vec<StyledRange>,
>)
    ensures
        span_lists_view(r) == highlight_spec(text.spec_bytes(), *theme, events@),
{
    let bytes = text.as_bytes();
    let ghost b = text.spec_bytes();
    let n = bytes.len();
    let mut offsets: Vec<usize> = Vec::new();
    offsets.push(0);
    let mut i: usize = 0;
    while i < n
        invariant
            bytes@ == b,
            n == b.len(),
            i <= n,
            offsets@.map_values(|o: usize| o as int) == newline_offsets(b, i as int),
        decreases n - i,
    {
        if bytes[i] == 10u8 {
            offsets.push(i + 1);
        }
        assert(offsets@.map_values(|o: usize| o as int) =~= newline_offsets(b, i + 1));
        i = i + 1;
    }
    proof {
        lemma_newline_offsets(b, n as int);
    }
    let ghost offs = offsets@.map_values(|o: usize| o as int);
    let text_lines = (offsets.len() - 1) + if n > 0 && bytes[n - 1] != 10u8 {
        1
    } else {
        0
    };
    let count = if text_lines == 0 {
        1
    } else {
        text_lines
    };
    let mut spans: Vec<Vec<StyledRange>> = Vec::new();
    let mut k: usize = 0;
    while k < count
        invariant
            k <= count,
            spans.len() == k,
            forall|i: int| 0 <= i < k ==> (#[trigger] spans@[i])@ == Seq::<StyledRange>::empty(),
        decreases count - k,
    {
        let empty: Vec<StyledRange> = Vec::new();
        assert(empty@ == Seq::<StyledRange>::empty());
        spans.push(empty);
        k = k + 1;
    }
    let mut active: Option<Style> = None;
    let mut e: usize = 0;
    assert(count == span_list_count(b));
    assert(span_lists_view(spans) =~= Seq::new(count as nat, |i: int| Seq::<StyledRange>::empty()));
    assert(span_lists_view(spans) =~= highlight_run(b, *theme, events@, 0).spans);
    while e < events.len()
        invariant
            bytes@ == b,
            b == text.spec_bytes(),
            n == b.len(),
            offs == offsets@.map_values(|o: usize| o as int),
            offs == line_offsets(b),
            offsets.len() >= 1,
            offsets@[0] == 0,
            forall|j: int| 0 <= j < offs.len() ==> 0 <= #[trigger] offs[j] <= n,
            forall|i: int, j: int| 0 <= i < j < offs.len() ==> offs[i] < offs[j],
            text_lines == text_line_count(b),
            e <= events.len(),
            span_lists_view(spans) == highlight_run(b, *theme, events@, e as int).spans,
            active == highlight_run(b, *theme, events@, e as int).active,
        decreases events.len() - e,
    {
        let ev = &events[e];
        let sl = locate(&offsets, ev.start);
        let el = locate(&offsets, ev.end);
        let start = offsets[sl];
        let sc = char_col_of(text, start, ev.start);
        let ec = char_col_of(text, start, ev.end);
        let ghost before = span_lists_view(spans);
        match &ev.event {
            MdEvent::Start(MdTag::Heading(_)) => {
                active = Some(theme.heading);
            },
            MdEvent::Start(MdTag::Strong) => {
                active = Some(theme.bold);
            },
            MdEvent::Start(MdTag::Emphasis) => {
                active = Some(theme.italic);
            },
            MdEvent::Start(MdTag::BlockQuote) => {
                active = Some(theme.blockquote);
            },
            MdEvent::End(MdTag::Heading(_)) | MdEvent::End(MdTag::Strong) | MdEvent::End(
                MdTag::Emphasis,
            ) | MdEvent::End(MdTag::BlockQuote) => {
                active = None;
            },
            MdEvent::Code(_) => {
                match (sc, ec) {
                    (Some(a), Some(c)) => {
                        if sl == el && sl < spans.len() {
                            let range = StyledRange { start_col: a, end_col: c, style: theme.code };
                            spans[sl].push(range);
                            assert(span_lists_view(spans) =~= add_range(before, sl as int, range));
                        }
                    },
                    _ => {},
                }
            },
            MdEvent::Text(_) | MdEvent::SoftBreak => {
                match active {
                    Some(style) => {
                        if sl < spans.len() {
                            let end = if sl == el {
                                ec
                            } else if sl < text_lines {
                                let has_lf = sl + 1 < offsets.len();
                                proof {
                                    if has_lf {
                                        assert(offs[sl + 1] > offs[0]);
                                        assert(offs[sl + 1] <= n);
                                        assert(offs[sl + 1] > offs[sl as int]);
                                    }
                                    assert(offs[sl as int] <= n);
                                }
                                let e0 = if has_lf {
                                    offsets[sl + 1] - 1
                                } else {
                                    n
                                };
                                let len = if has_lf && e0 > start && bytes[e0 - 1] == 13u8 {
                                    e0 - 1 - start
                                } else {
                                    e0 - start
                                };
                                char_col_of(text, start, start + len)
                            } else {
                                ec
                            };
                            match (sc, end) {
                                (Some(a), Some(c)) => {
                                    let range = StyledRange { start_col: a, end_col: c, style };
                                    spans[sl].push(range);
                                    assert(span_lists_view(spans) =~= add_range(
                                        before,
                                        sl as int,
                                        range,
                                    ));
                                },
                                _ => {},
                            }
                        }
                    },
                    None => {},
                }
            },
            _ => {},
        }
        e = e + 1;
    }
    assert(events@.len() == events.len());
    spans
}

/// Compute syntax-highlighted spans for every line of `text`: the text is
/// parsed as CommonMark and its events highlighted as `highlight_events`
/// says.
///
/// Returns a `Vec` with one entry per logical line (at least one).  Each
/// entry is a list of `StyledRange` values that should be applied on top of
/// the default text style.
pub fn highlight_buffer(text: &str, theme: &MarkdownTheme) -> (r: Vec<Vec<StyledRange>>)
    ensures
        span_lists_view(r) == highlight_spec(text.spec_bytes(), *theme, commonmark_spans(text@)),
        r.len() == span_list_count(text.spec_bytes()),
{
    let events = markdown_spans(text);
    let r = highlight_events(text, &events, theme);
    proof {
        law_one_span_list_per_line(text.spec_bytes(), *theme, events@);
    }
    r
}

} // verus!
