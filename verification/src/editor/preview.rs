use vstd::prelude::*;

use crate::editor::markdown::{commonmark_events, markdown_events, MdEvent, MdTag};
use crate::editor::style::{spans_view, Color, SpanView, Style, StyledSpan, BOLD, ITALIC, plain_style, with_modifier, without_modifier};

verus! {

/// A line of the rendered preview: its spans, and a style applied under
/// them.
#[derive(Debug, Clone)]
pub struct PreviewLine {
    pub spans: Vec<StyledSpan>,
    pub style: Style,
}

/// The content of a line.
pub struct LineView {
    pub spans: Seq<SpanView>,
    pub style: Style,
}

pub open spec fn line_view(l: PreviewLine) -> LineView {
    LineView { spans: spans_view(l.spans@), style: l.style }
}

pub open spec fn lines_view(v: Seq<PreviewLine>) -> Seq<LineView> {
    v.map_values(|l: PreviewLine| line_view(l))
}

/// The character of decimal digit `d`.
pub open spec fn digit_char(d: int) -> char {
    (d + 48) as char
}

/// The decimal representation of `n`, without leading zeros.
pub open spec fn decimal(n: nat) -> Seq<char>
    decreases n,
{
    if n < 10 {
        seq![digit_char(n as int)]
    } else {
        decimal(n / 10).push(digit_char((n % 10) as int))
    }
}

/// `k` copies of `s`, one after the other.
pub open spec fn repeated(s: Seq<char>, k: nat) -> Seq<char>
    decreases k,
{
    if k == 0 {
        Seq::empty()
    } else {
        repeated(s, (k - 1) as nat) + s
    }
}

/// The style of a heading of the given level.
pub open spec fn heading_style(level: u8) -> Style {
    if level == 1 {
        with_modifier(Style { fg: Some(Color::Yellow), ..plain_style() }, BOLD)
    } else if level == 2 {
        with_modifier(Style { fg: Some(Color::Cyan), ..plain_style() }, BOLD)
    } else {
        with_modifier(plain_style(), BOLD)
    }
}

/// A style with only a foreground colour.
pub open spec fn colored(c: Color) -> Style {
    Style { fg: Some(c), ..plain_style() }
}

/// The state of the preview rendering: finished lines, the spans of the
/// line being built, the style in force, the list nesting depth, the next
/// number of each open list (`None` for a bulleted one), and whether no counter
/// has overflowed.
pub struct PreviewState {
    pub lines: Seq<LineView>,
    pub cur: Seq<SpanView>,
    pub style: Style,
    pub depth: int,
    pub counters: Seq<Option<u64>>,
    pub ok: bool,
}

/// The empty line.
pub open spec fn blank_line() -> LineView {
    LineView { spans: Seq::empty(), style: plain_style() }
}

/// `st` with the spans being built closed into a line.
pub open spec fn close_line(st: PreviewState) -> PreviewState {
    PreviewState {
        lines: st.lines.push(LineView { spans: st.cur, style: plain_style() }),
        cur: Seq::empty(),
        ..st
    }
}

/// The marker of a list item at the given depth: a bullet in a bulleted
/// list, the item's number in an ordered one.
pub open spec fn item_marker(depth: int, counter: Option<u64>) -> Seq<char> {
    let indent = repeated(seq![' ', ' '], (if depth >= 1 { depth - 1 } else { 0 }) as nat);
    match counter {
        None => indent + seq!['•', ' '],
        Some(c) => indent + decimal(c as nat) + seq!['.', ' '],
    }
}

/// What one event does to the preview.
pub open spec fn preview_step(st: PreviewState, ev: MdEvent) -> PreviewState {
    match ev {
        MdEvent::Start(MdTag::Heading(level)) => PreviewState { style: heading_style(level), ..st },
        MdEvent::End(MdTag::Heading(_)) => {
            let c = close_line(st);
            PreviewState { lines: c.lines.push(blank_line()), style: plain_style(), ..c }
        },
        MdEvent::Start(MdTag::Paragraph) => PreviewState { style: plain_style(), ..st },
        MdEvent::End(MdTag::Paragraph) => {
            let c = close_line(st);
            PreviewState { lines: c.lines.push(blank_line()), ..c }
        },
        MdEvent::Start(MdTag::Strong) => PreviewState { style: with_modifier(st.style, BOLD), ..st },
        MdEvent::End(MdTag::Strong) => PreviewState {
            style: without_modifier(st.style, BOLD),
            ..st
        },
        MdEvent::Start(MdTag::Emphasis) => PreviewState {
            style: with_modifier(st.style, ITALIC),
            ..st
        },
        MdEvent::End(MdTag::Emphasis) => PreviewState {
            style: without_modifier(st.style, ITALIC),
            ..st
        },
        MdEvent::Start(MdTag::List(start)) => PreviewState {
            depth: st.depth + 1,
            counters: st.counters.push(start),
            ok: st.ok && st.depth < usize::MAX,
            ..st
        },
        MdEvent::End(MdTag::List(_)) => PreviewState {
            depth: if st.depth >= 1 {
                st.depth - 1
            } else {
                0
            },
            counters: if st.counters.len() > 0 {
                st.counters.drop_last()
            } else {
                st.counters
            },
            ..st
        },
        MdEvent::Start(MdTag::Item) => {
            let counter = if st.counters.len() > 0 {
                st.counters.last()
            } else {
                None
            };
            let marker = SpanView { content: item_marker(st.depth, counter), style: colored(Color::Cyan) };
            match counter {
                None => PreviewState { cur: st.cur.push(marker), ..st },
                Some(c) => PreviewState {
                    cur: st.cur.push(marker),
                    counters: st.counters.update(st.counters.len() - 1, Some((c + 1) as u64)),
                    ok: st.ok && c < u64::MAX,
                    ..st
                },
            }
        },
        MdEvent::End(MdTag::Item) => close_line(st),
        MdEvent::Code(t) => PreviewState {
            cur: st.cur.push(SpanView { content: t@, style: colored(Color::Green) }),
            ..st
        },
        MdEvent::Start(MdTag::CodeBlock) => PreviewState { style: colored(Color::Green), ..st },
        MdEvent::End(MdTag::CodeBlock) => {
            let c = close_line(st);
            PreviewState { lines: c.lines.push(blank_line()), style: plain_style(), ..c }
        },
        MdEvent::Start(MdTag::BlockQuote) => PreviewState {
            style: colored(Color::DarkGray),
            cur: st.cur.push(SpanView { content: seq!['┃', ' '], style: colored(Color::DarkGray) }),
            ..st
        },
        MdEvent::End(MdTag::BlockQuote) => {
            let c = close_line(st);
            PreviewState { lines: c.lines.push(blank_line()), style: plain_style(), ..c }
        },
        MdEvent::Rule => PreviewState {
            lines: st.lines.push(
                LineView {
                    spans: seq![SpanView { content: repeated(seq!['─'], 40), style: plain_style() }],
                    style: colored(Color::DarkGray),
                },
            ).push(blank_line()),
            ..st
        },
        MdEvent::SoftBreak => PreviewState {
            cur: st.cur.push(SpanView { content: seq![' '], style: plain_style() }),
            ..st
        },
        MdEvent::HardBreak => close_line(st),
        MdEvent::Text(t) => PreviewState {
            cur: st.cur.push(SpanView { content: t@, style: st.style }),
            ..st
        },
        _ => st,
    }
}

/// The state after the first `k` events.
pub open spec fn preview_run(events: Seq<MdEvent>, k: int) -> PreviewState
    decreases k,
{
    if k <= 0 {
        PreviewState {
            lines: Seq::empty(),
            cur: Seq::empty(),
            style: plain_style(),
            depth: 0,
            counters: Seq::empty(),
            ok: true,
        }
    } else {
        preview_step(preview_run(events, k - 1), events[k - 1])
    }
}

/// The preview of a document with the given Markdown events: the finished
/// lines, and a last line for spans left open.
pub open spec fn preview_spec(events: Seq<MdEvent>) -> Seq<LineView> {
    let st = preview_run(events, events.len() as int);
    if st.cur.len() > 0 {
        st.lines.push(LineView { spans: st.cur, style: plain_style() })
    } else {
        st.lines
    }
}

/// The events never nest lists beyond the machine's counter range nor
/// number an item past the largest list number.
pub open spec fn preview_defined(events: Seq<MdEvent>) -> bool {
    preview_run(events, events.len() as int).ok
}

/// Whether a style turns bold text on.
pub open spec fn turns_bold_on(s: Style) -> bool {
    s.add_modifier & BOLD == BOLD
}

/// An event that makes the text after it bold: strong text or a heading
/// opens.
pub open spec fn starts_bold(e: MdEvent) -> bool {
    e == MdEvent::Start(MdTag::Strong) || e matches MdEvent::Start(MdTag::Heading(_))
}

/// An event after which the text is not bold: strong text, a heading, a
/// code block or a block quote closes, or a paragraph, a code block or a
/// block quote opens.
pub open spec fn ends_bold(e: MdEvent) -> bool {
    ||| e == MdEvent::End(MdTag::Strong)
    ||| e matches MdEvent::End(MdTag::Heading(_))
    ||| e == MdEvent::Start(MdTag::Paragraph)
    ||| e == MdEvent::Start(MdTag::CodeBlock)
    ||| e == MdEvent::End(MdTag::CodeBlock)
    ||| e == MdEvent::Start(MdTag::BlockQuote)
    ||| e == MdEvent::End(MdTag::BlockQuote)
}

/// One event turns bold on, turns it off, or leaves it as it was.
proof fn lemma_bold_step(st: PreviewState, e: MdEvent)
    ensures
        starts_bold(e) ==> turns_bold_on(preview_step(st, e).style),
        ends_bold(e) ==> !turns_bold_on(preview_step(st, e).style),
        !starts_bold(e) && !ends_bold(e) ==> turns_bold_on(preview_step(st, e).style)
            == turns_bold_on(st.style),
{
    let a = st.style.add_modifier;
    assert((a | 1u16) & 1u16 == 1u16) by (bit_vector);
    assert((a & !1u16) & 1u16 == 0u16) by (bit_vector);
    assert((a | 4u16) & 1u16 == a & 1u16) by (bit_vector);
    assert((a & !4u16) & 1u16 == a & 1u16) by (bit_vector);
    assert((0u16 | 1u16) & 1u16 == 1u16) by (bit_vector);
    assert(0u16 & 1u16 == 0u16) by (bit_vector);
}

/// Whether the style after `k` events is bold follows the last event before
/// it that starts or ends bold text.
proof fn lemma_bold_since(events: Seq<MdEvent>, j: int, k: int)
    requires
        0 <= j < k <= events.len(),
    ensures
        (ends_bold(events[j]) && forall|m: int| j < m < k ==> !starts_bold(#[trigger] events[m]))
            ==> !turns_bold_on(preview_run(events, k).style),
        (starts_bold(events[j]) && forall|m: int| j < m < k ==> !ends_bold(#[trigger] events[m]))
            ==> turns_bold_on(preview_run(events, k).style),
    decreases k,
{
    lemma_bold_step(preview_run(events, k - 1), events[k - 1]);
    if j < k - 1 {
        lemma_bold_since(events, j, k - 1);
    }
}

/// Text after strong text closes is not bold: a text run after an end of
/// strong text (or of a heading, a code block or a block quote, or the
/// start of a paragraph, a code block or a block quote), with no strong
/// text or heading opened since, adds one span of its text whose style
/// does not turn bold on.
pub proof fn law_text_after_strong_is_not_bold(events: Seq<MdEvent>, j: int, k: int)
    requires
        0 <= j < k < events.len(),
        ends_bold(events[j]),
        forall|m: int| j < m < k ==> !starts_bold(#[trigger] events[m]),
        events[k] is Text,
    ensures
        preview_run(events, k + 1).cur.len() == preview_run(events, k).cur.len() + 1,
        preview_run(events, k + 1).cur.drop_last() == preview_run(events, k).cur,
        preview_run(events, k + 1).cur.last().content == events[k]->Text_0@,
        !turns_bold_on(preview_run(events, k + 1).cur.last().style),
{
    lemma_bold_since(events, j, k);
    assert(preview_run(events, k + 1).cur.drop_last() =~= preview_run(events, k).cur);
}

/// Text inside strong text is bold: a text run after strong text (or a
/// heading) opens, with nothing since that ends bold text, adds one span
/// of its text whose style turns bold on.
pub proof fn law_text_inside_strong_is_bold(events: Seq<MdEvent>, j: int, k: int)
    requires
        0 <= j < k < events.len(),
        starts_bold(events[j]),
        forall|m: int| j < m < k ==> !ends_bold(#[trigger] events[m]),
        events[k] is Text,
    ensures
        preview_run(events, k + 1).cur.len() == preview_run(events, k).cur.len() + 1,
        preview_run(events, k + 1).cur.drop_last() == preview_run(events, k).cur,
        preview_run(events, k + 1).cur.last().content == events[k]->Text_0@,
        turns_bold_on(preview_run(events, k + 1).cur.last().style),
{
    lemma_bold_since(events, j, k);
    assert(preview_run(events, k + 1).cur.drop_last() =~= preview_run(events, k).cur);
}

/// Once a counter has overflowed, the rendering stays undefined.
pub proof fn lemma_preview_ok_prefix(events: Seq<MdEvent>, j: int, k: int)
    requires
        0 <= j <= k <= events.len(),
        preview_run(events, k).ok,
    ensures
        preview_run(events, j).ok,
    decreases k - j,
{
    if j < k {
        lemma_preview_ok_prefix(events, j, k - 1);
    }
}

/// The one-digit string of `d`.
fn digit_str(d: u64) -> (s: &'static str)
    requires
        d < 10,
    ensures
        s@ == seq![digit_char(d as int)],
{
    proof {
        reveal_strlit("0");
        reveal_strlit("1");
        reveal_strlit("2");
        reveal_strlit("3");
        reveal_strlit("4");
        reveal_strlit("5");
        reveal_strlit("6");
        reveal_strlit("7");
        reveal_strlit("8");
        reveal_strlit("9");
    }
    if d == 0 {
        "0"
    } else if d == 1 {
        "1"
    } else if d == 2 {
        "2"
    } else if d == 3 {
        "3"
    } else if d == 4 {
        "4"
    } else if d == 5 {
        "5"
    } else if d == 6 {
        "6"
    } else if d == 7 {
        "7"
    } else if d == 8 {
        "8"
    } else {
        "9"
    }
}

/// The decimal representation of `n`.
pub fn decimal_string(n: u64) -> (s: String)
    ensures
        s@ == decimal(n as nat),
    decreases n,
{
    if n < 10 {
        String::from_str(digit_str(n))
    } else {
        let head = decimal_string(n / 10);
        head.concat(digit_str(n % 10))
    }
}

/// `k` copies of `s`, one after the other.
pub fn repeat_str(s: &str, k: usize) -> (r: String)
    ensures
        r@ == repeated(s@, k as nat),
{
    let mut r = String::new();
    let mut i: usize = 0;
    while i < k
        invariant
            i <= k,
            r@ == repeated(s@, i as nat),
        decreases k - i,
    {
        r.append(s);
        i = i + 1;
    }
    r
}

fn close_line_exec(lines: &mut Vec<PreviewLine>, cur: &mut Vec<StyledSpan>)
    ensures
        lines_view(final(lines)@) == lines_view(old(lines)@).push(
            LineView { spans: spans_view(old(cur)@), style: plain_style() },
        ),
        final(cur)@.len() == 0,
{
    let mut taken: Vec<StyledSpan> = Vec::new();
    std::mem::swap(&mut taken, cur);
    lines.push(PreviewLine { spans: taken, style: Style::new() });
    assert(lines_view(lines@) =~= lines_view(old(lines)@).push(
        LineView { spans: spans_view(old(cur)@), style: plain_style() },
    ));
}

fn push_blank(lines: &mut Vec<PreviewLine>)
    ensures
        lines_view(final(lines)@) == lines_view(old(lines)@).push(blank_line()),
{
    let empty: Vec<StyledSpan> = Vec::new();
    lines.push(PreviewLine { spans: empty, style: Style::new() });
    assert(spans_view(empty@) =~= Seq::<SpanView>::empty());
    assert(lines_view(lines@) =~= lines_view(old(lines)@).push(blank_line()));
}

fn push_span(cur: &mut Vec<StyledSpan>, content: String, style: Style)
    ensures
        spans_view(final(cur)@) == spans_view(old(cur)@).push(SpanView { content: content@, style }),
{
    cur.push(StyledSpan { content, style });
    assert(spans_view(cur@) =~= spans_view(old(cur)@).push(SpanView { content: content@, style }));
}

/// Render a document, given its Markdown events, to styled lines for the
/// preview pane.
pub fn preview_lines(events: &Vec<MdEvent>) -> (r: Vec<PreviewLine>)
    requires
        preview_defined(events@),
    ensures
        lines_view(r@) == preview_spec(events@),
{
    let mut lines: Vec<PreviewLine> = Vec::new();
    let mut cur: Vec<StyledSpan> = Vec::new();
    let mut style = Style::new();
    let mut depth: usize = 0;
    let mut counters: Vec<Option<u64>> = Vec::new();
    let mut e: usize = 0;
    proof {
        assert(lines_view(lines@) =~= Seq::<LineView>::empty());
        assert(spans_view(cur@) =~= Seq::<SpanView>::empty());
    }
    while e < events.len()
        invariant
            e <= events.len(),
            preview_defined(events@),
            lines_view(lines@) == preview_run(events@, e as int).lines,
            spans_view(cur@) == preview_run(events@, e as int).cur,
            style == preview_run(events@, e as int).style,
            depth == preview_run(events@, e as int).depth,
            counters@ == preview_run(events@, e as int).counters,
            preview_run(events@, e as int).ok,
        decreases events.len() - e,
    {
        proof {
            lemma_preview_ok_prefix(events@, e + 1, events@.len() as int);
        }
        match &events[e] {
            MdEvent::Start(MdTag::Heading(level)) => {
                style = if *level == 1 {
                    Style::new().fg(Color::Yellow).add_modifier(BOLD)
                } else if *level == 2 {
                    Style::new().fg(Color::Cyan).add_modifier(BOLD)
                } else {
                    Style::new().add_modifier(BOLD)
                };
            },
            MdEvent::End(MdTag::Heading(_)) => {
                close_line_exec(&mut lines, &mut cur);
                push_blank(&mut lines);
                style = Style::new();
            },
            MdEvent::Start(MdTag::Paragraph) => {
                style = Style::new();
            },
            MdEvent::End(MdTag::Paragraph) => {
                close_line_exec(&mut lines, &mut cur);
                push_blank(&mut lines);
            },
            MdEvent::Start(MdTag::Strong) => {
                style = style.add_modifier(BOLD);
            },
            MdEvent::End(MdTag::Strong) => {
                style = style.remove_modifier(BOLD);
            },
            MdEvent::Start(MdTag::Emphasis) => {
                style = style.add_modifier(ITALIC);
            },
            MdEvent::End(MdTag::Emphasis) => {
                style = style.remove_modifier(ITALIC);
            },
            MdEvent::Start(MdTag::List(start)) => {
                depth = depth + 1;
                counters.push(*start);
            },
            MdEvent::End(MdTag::List(_)) => {
                depth = depth.saturating_sub(1);
                counters.pop();
            },
            MdEvent::Start(MdTag::Item) => {
                let indent = repeat_str("  ", depth.saturating_sub(1));
                let n = counters.len();
                let counter = if n > 0 {
                    counters[n - 1]
                } else {
                    None
                };
                proof {
                    reveal_strlit("  ");
                    assert("  "@ =~= seq![' ', ' ']);
                    reveal_strlit("• ");
                    assert("• "@ =~= seq!['•', ' ']);
                    reveal_strlit(". ");
                    assert(". "@ =~= seq!['.', ' ']);
                }
                assert(indent@ == repeated(seq![' ', ' '], (if depth >= 1 { depth - 1 } else { 0 }) as nat));
                let marker = match counter {
                    None => {
                        let m = indent.concat("• ");
                        assert(m@ == item_marker(depth as int, counter));
                        m
                    },
                    Some(c) => {
                        let number = decimal_string(c);
                        let label = indent.concat(number.as_str()).concat(". ");
                        counters.set(n - 1, Some(c + 1));
                        label
                    },
                };
                assert(marker@ == item_marker(depth as int, counter));
                push_span(&mut cur, marker, Style::new().fg(Color::Cyan));
            },
            MdEvent::End(MdTag::Item) => {
                close_line_exec(&mut lines, &mut cur);
            },
            MdEvent::Code(text) => {
                push_span(&mut cur, text.clone(), Style::new().fg(Color::Green));
            },
            MdEvent::Start(MdTag::CodeBlock) => {
                style = Style::new().fg(Color::Green);
            },
            MdEvent::End(MdTag::CodeBlock) => {
                close_line_exec(&mut lines, &mut cur);
                push_blank(&mut lines);
                style = Style::new();
            },
            MdEvent::Start(MdTag::BlockQuote) => {
                style = Style::new().fg(Color::DarkGray);
                proof {
                    reveal_strlit("┃ ");
                    assert("┃ "@ =~= seq!['┃', ' ']);
                }
                push_span(&mut cur, String::from_str("┃ "), Style::new().fg(Color::DarkGray));
            },
            MdEvent::End(MdTag::BlockQuote) => {
                close_line_exec(&mut lines, &mut cur);
                push_blank(&mut lines);
                style = Style::new();
            },
            MdEvent::Rule => {
                proof {
                    reveal_strlit("─");
                    assert("─"@ =~= seq!['─']);
                }
                let ghost before = lines_view(lines@);
                let mut rule: Vec<StyledSpan> = Vec::new();
                assert(spans_view(rule@) =~= Seq::<SpanView>::empty());
                let bar = repeat_str("─", 40);
                push_span(&mut rule, bar, Style::new());
                assert(spans_view(rule@) =~= seq![SpanView { content: repeated(seq!['─'], 40), style: plain_style() }]);
                lines.push(PreviewLine { spans: rule, style: Style::new().fg(Color::DarkGray) });
                assert(lines_view(lines@) =~= before.push(
                    LineView {
                        spans: seq![SpanView { content: repeated(seq!['─'], 40), style: plain_style() }],
                        style: colored(Color::DarkGray),
                    },
                ));
                push_blank(&mut lines);
            },
            MdEvent::SoftBreak => {
                proof {
                    reveal_strlit(" ");
                    assert(" "@ =~= seq![' ']);
                }
                push_span(&mut cur, String::from_str(" "), Style::new());
            },
            MdEvent::HardBreak => {
                close_line_exec(&mut lines, &mut cur);
            },
            MdEvent::Text(text) => {
                push_span(&mut cur, text.clone(), style);
            },
            _ => {},
        }
        e = e + 1;
    }
    if cur.len() > 0 {
        close_line_exec(&mut lines, &mut cur);
    }
    lines
}

/// Render a Markdown document to styled lines suitable for display in the
/// preview pane: the text is parsed as CommonMark and its events rendered
/// as `preview_lines` says.  `None` where a list would nest deeper than
/// `usize` counts or number an item past `u64::MAX`.
pub fn render_preview(markdown: &str) -> (r: Option<Vec<PreviewLine>>)
    ensures
        match r {
            Some(v) => preview_defined(commonmark_events(markdown@)) && lines_view(v@)
                == preview_spec(commonmark_events(markdown@)),
            None => !preview_defined(commonmark_events(markdown@)),
        },
{
    let events = markdown_events(markdown);
    if preview_ok(&events) {
        Some(preview_lines(&events))
    } else {
        None
    }
}

/// Whether rendering the events keeps every counter in range.
pub fn preview_ok(events: &Vec<MdEvent>) -> (r: bool)
    ensures
        r == preview_defined(events@),
{
    let mut depth: usize = 0;
    let mut counters: Vec<Option<u64>> = Vec::new();
    let mut e: usize = 0;
    while e < events.len()
        invariant
            e <= events.len(),
            depth == preview_run(events@, e as int).depth,
            counters@ == preview_run(events@, e as int).counters,
            preview_run(events@, e as int).ok,
        decreases events.len() - e,
    {
        match &events[e] {
            MdEvent::Start(MdTag::List(start)) => {
                if depth == usize::MAX {
                    proof {
                        lemma_preview_not_ok_stays(events@, e + 1, events@.len() as int);
                    }
                    return false;
                }
                depth = depth + 1;
                counters.push(*start);
            },
            MdEvent::End(MdTag::List(_)) => {
                depth = depth.saturating_sub(1);
                counters.pop();
            },
            MdEvent::Start(MdTag::Item) => {
                let n = counters.len();
                if n > 0 {
                    match counters[n - 1] {
                        Some(c) => {
                            if c == u64::MAX {
                                proof {
                                    lemma_preview_not_ok_stays(events@, e + 1, events@.len() as int);
                                }
                                return false;
                            }
                            counters.set(n - 1, Some(c + 1));
                        },
                        None => {},
                    }
                }
            },
            _ => {},
        }
        e = e + 1;
    }
    true
}

/// Once a counter has overflowed, the rendering stays undefined.
pub proof fn lemma_preview_not_ok_stays(events: Seq<MdEvent>, j: int, k: int)
    requires
        0 <= j <= k <= events.len(),
        !preview_run(events, j).ok,
    ensures
        !preview_run(events, k).ok,
    decreases k - j,
{
    if j < k {
        lemma_preview_not_ok_stays(events, j, k - 1);
    }
}

} // verus!
