use vstd::prelude::*;

use unicode_width::UnicodeWidthChar;

use crate::text::{lemma_trim_newlines, trim_newlines};

verus! {

/// A single visual (wrapped) line derived from a logical buffer line.
#[derive(Debug, Clone, Copy, PartialEq, Eq, Structural)]
pub struct VisualLine {
    /// Index of the logical (unwrapped) buffer line.
    pub logical_line: usize,
    /// Character index of the first character of this visual line within the
    /// logical line.
    pub start_col: usize,
    /// Character index one past the last character of this visual line within
    /// the logical line.
    pub end_col: usize,
    /// `true` for the first visual line of a logical line.
    pub is_first: bool,
}

/// The display width of a character as unicode-width's
/// `UnicodeWidthChar::width` gives it (`None` for control characters).
pub uninterp spec fn char_width(c: char) -> Option<usize>;

/// `UnicodeWidthChar::width` (unicode-width 0.2): the result is named
/// `char_width`.  Its source gives printable ASCII one column, C0 and C1
/// control characters no width, and every other character a width of at
/// most three columns.
#[verifier::external_body]
fn unicode_char_width(c: char) -> (r: Option<usize>)
    ensures
        r == char_width(c),
        ('\u{20}' <= c && c < '\u{7f}') ==> r == Some(1usize),
        (c < '\u{20}' || ('\u{7f}' <= c && c < '\u{a0}')) ==> r is None,
        c >= '\u{a0}' ==> r is Some,
        r matches Some(w) ==> w <= 3,
{
    c.width()
}

/// The columns a character takes when wrapping: its width, or one for a
/// control character.
pub open spec fn wrap_width(c: char) -> int {
    match char_width(c) {
        Some(w) => w as int,
        None => 1,
    }
}

/// A space or a tab: where a line may be broken.
pub open spec fn is_blank(c: char) -> bool {
    c == ' ' || c == '\t'
}

/// The state of the greedy wrapping scan.
pub struct WrapState {
    /// The next character to place.
    pub i: int,
    /// The first character of the visual line being filled.
    pub line_start: int,
    /// The columns taken so far on that line.
    pub width: int,
    /// The last blank seen on that line.
    pub last_space: Option<int>,
    /// Whether that line is the first one.
    pub first: bool,
    /// The visual lines finished so far.
    pub lines: Seq<VisualLine>,
}

/// Where the scan goes on after a character that does not fit on a line
/// already holding something: the end of the line being closed and the
/// start of the next one.  With a blank after the line's start, the line
/// breaks there and the blank is dropped (unless the blank is the character
/// that did not fit, which then starts the next line); with none, the line
/// breaks before the character.
pub open spec fn break_point(s: WrapState, ls: Option<int>) -> (int, int) {
    let break_at = match ls {
        Some(b) => b,
        None => s.i,
    };
    if break_at == s.line_start || break_at == s.i {
        (s.i, s.i)
    } else {
        (break_at, break_at + 1)
    }
}

/// The greedy scan from state `s` over `chars` (whose wrap widths are
/// `widths`) with `max` columns: characters are placed while they fit; when
/// one does not, the line is closed and a new one started as `break_point`
/// says, except that a character wider than a whole line, met at the start
/// of one, is placed there alone.  `None` only for a state the scan never
/// reaches.
pub open spec fn wrap_from(
    logical_line: usize,
    chars: Seq<char>,
    widths: Seq<usize>,
    max: int,
    s: WrapState,
) -> Option<Seq<VisualLine>>
    decreases chars.len() - s.line_start, chars.len() - s.i,
{
    let n = chars.len() as int;
    if !(0 <= s.line_start <= s.i <= n) || widths.len() != n {
        None
    } else if s.i == n {
        Some(
            s.lines.push(
                VisualLine {
                    logical_line,
                    start_col: s.line_start as usize,
                    end_col: n as usize,
                    is_first: s.first,
                },
            ),
        )
    } else {
        let w = widths[s.i] as int;
        let ls = if is_blank(chars[s.i]) {
            Some(s.i)
        } else {
            s.last_space
        };
        if s.width + w > max && s.i != s.line_start {
            let (end, next) = break_point(s, ls);
            if next <= s.line_start || next > n {
                None
            } else {
                wrap_from(
                    logical_line,
                    chars,
                    widths,
                    max,
                    WrapState {
                        i: next,
                        line_start: next,
                        width: 0,
                        last_space: None,
                        first: false,
                        lines: s.lines.push(
                            VisualLine {
                                logical_line,
                                start_col: s.line_start as usize,
                                end_col: end as usize,
                                is_first: s.first,
                            },
                        ),
                    },
                )
            }
        } else {
            wrap_from(
                logical_line,
                chars,
                widths,
                max,
                WrapState { i: s.i + 1, width: s.width + w, last_space: ls, ..s },
            )
        }
    }
}

/// The scan's starting state.
pub open spec fn wrap_start() -> WrapState {
    WrapState { i: 0, line_start: 0, width: 0, last_space: None, first: true, lines: Seq::empty() }
}

/// The visual lines of a non-empty run of characters with `max > 0`
/// columns.
pub open spec fn wrap_chars_spec(
    logical_line: usize,
    chars: Seq<char>,
    widths: Seq<usize>,
    max: int,
) -> Option<Seq<VisualLine>> {
    wrap_from(logical_line, chars, widths, max, wrap_start())
}

/// Wrap `chars`, whose wrap widths are `widths`, into visual lines of at
/// most `max_width` columns (a character wider than that alone on its
/// line); `None` only where the two lengths differ.
pub fn wrap_chars(
    logical_line: usize,
    chars: &Vec<char>,
    widths: &Vec<usize>,
    max_width: usize,
) -> (r: Option<Vec<VisualLine>>)
    ensures
        match r {
            Some(v) => wrap_chars_spec(logical_line, chars@, widths@, max_width as int) == Some(v@),
            None => wrap_chars_spec(logical_line, chars@, widths@, max_width as int) is None,
        },
{
    if chars.len() != widths.len() {
        return None;
    }
    let n = chars.len();
    let mut lines: Vec<VisualLine> = Vec::new();
    let mut line_start: usize = 0;
    let mut current_width: usize = 0;
    let mut last_space: Option<usize> = None;
    let mut is_first = true;
    let mut i: usize = 0;
    let ghost target = wrap_chars_spec(logical_line, chars@, widths@, max_width as int);
    loop
        invariant
            n == chars@.len(),
            n == widths@.len(),
            line_start <= i <= n,
            last_space matches Some(b) ==> b < i,
            current_width <= max_width || i == line_start + 1,
            i == line_start ==> current_width == 0,
            target == wrap_chars_spec(logical_line, chars@, widths@, max_width as int),
            wrap_from(
                logical_line,
                chars@,
                widths@,
                max_width as int,
                WrapState {
                    i: i as int,
                    line_start: line_start as int,
                    width: current_width as int,
                    last_space: match last_space {
                        Some(b) => Some(b as int),
                        None => None,
                    },
                    first: is_first,
                    lines: lines@,
                },
            ) == target,
        decreases n - line_start, n - i,
    {
        if i >= n {
            lines.push(
                VisualLine { logical_line, start_col: line_start, end_col: n, is_first },
            );
            return Some(lines);
        }
        let ch = chars[i];
        let w = widths[i];
        if ch == ' ' || ch == '\t' {
            last_space = Some(i);
        }
        let fits = current_width <= max_width && w <= max_width - current_width;
        if !fits && i != line_start {
            let break_at = match last_space {
                Some(b) => b,
                None => i,
            };
            let (end_col, next) = if break_at == line_start || break_at == i {
                (i, i)
            } else {
                (break_at, break_at + 1)
            };
            if next <= line_start || next > n {
                return None;
            }
            lines.push(VisualLine { logical_line, start_col: line_start, end_col, is_first });
            line_start = next;
            i = next;
            current_width = 0;
            last_space = None;
            is_first = false;
        } else {
            current_width = current_width + w;
            i = i + 1;
        }
    }
}

/// The wrap widths of a run of characters.
pub open spec fn wrap_widths(chars: Seq<char>) -> Seq<usize> {
    chars.map_values(|c: char| wrap_width(c) as usize)
}

/// The visual lines of logical line `logical_line` whose text is `text`,
/// for `max_width` display columns (`Some` for every text whose length fits
/// a `usize`: see `law_wrap_line_layout`).
/// With no columns at all, the whole text (trailing line break included)
/// is one visual line; an empty line (once trailing LFs are dropped) is one
/// empty visual line.
pub open spec fn wrap_line_spec(logical_line: usize, text: Seq<char>, max_width: usize) -> Option<
    Seq<VisualLine>,
> {
    let chars = trim_newlines(text);
    if max_width == 0 {
        Some(
            seq![VisualLine { logical_line, start_col: 0, end_col: text.len() as usize, is_first: true }],
        )
    } else if chars.len() == 0 {
        Some(seq![VisualLine { logical_line, start_col: 0, end_col: 0, is_first: true }])
    } else {
        wrap_chars_spec(logical_line, chars, wrap_widths(chars), max_width as int)
    }
}

/// Compute the visual (word-wrapped) lines for a single logical line of
/// text.
///
/// `max_width` is the number of display columns available.  The function
/// splits the line at word boundaries so that each visual line fits within
/// `max_width` columns.
pub fn wrap_line(logical_line: usize, text: &str, max_width: usize) -> (r: Vec<VisualLine>)
    ensures
        wrap_line_spec(logical_line, text@, max_width) == Some(r@),
        r@.len() >= 1,
{
    let len = text.unicode_len();
    proof {
        if max_width > 0 {
            law_wrap_line_layout(logical_line, text@, max_width);
        }
    }
    if max_width == 0 {
        let mut v: Vec<VisualLine> = Vec::new();
        v.push(VisualLine { logical_line, start_col: 0, end_col: len, is_first: true });
        proof {
            assert(v@ == seq![VisualLine { logical_line, start_col: 0, end_col: len, is_first: true }]);
        }
        return v;
    }
    let n = crate::text::trimmed_len(text);
    proof {
        lemma_trim_newlines(text@);
    }
    if n == 0 {
        let mut v: Vec<VisualLine> = Vec::new();
        v.push(VisualLine { logical_line, start_col: 0, end_col: 0, is_first: true });
        proof {
            assert(v@ == seq![VisualLine { logical_line, start_col: 0, end_col: 0, is_first: true }]);
        }
        return v;
    }
    let all = crate::text::chars_of(text);
    let mut chars: Vec<char> = Vec::new();
    let mut widths: Vec<usize> = Vec::new();
    let mut i: usize = 0;
    while i < n
        invariant
            all@ == text@,
            n <= text@.len(),
            trim_newlines(text@) == text@.take(n as int),
            i <= n,
            chars@ == text@.take(i as int),
            widths@ == wrap_widths(text@.take(i as int)),
        decreases n - i,
    {
        let c = all[i];
        let w = match unicode_char_width(c) {
            Some(w) => w,
            None => 1,
        };
        chars.push(c);
        widths.push(w);
        proof {
            assert(text@.take(i + 1) == text@.take(i as int).push(c));
            assert(widths@ =~= wrap_widths(text@.take(i + 1)));
        }
        i = i + 1;
    }
    match wrap_chars(logical_line, &chars, &widths, max_width) {
        Some(v) => v,
        None => Vec::new(),
    }
}

/// Wrapping with at least one column always gives visual lines: they are
/// laid out in order (see `lines_ok`) within the width, the first starts at
/// column 0 and the last ends at the end of the line's text without its
/// trailing LFs, so that no character but a blank at a break is left out.
pub proof fn law_wrap_line_layout(logical_line: usize, text: Seq<char>, max_width: usize)
    requires
        max_width > 0,
        text.len() <= usize::MAX,
    ensures
        wrap_line_spec(logical_line, text, max_width) is Some,
        wrap_line_spec(logical_line, text, max_width) matches Some(out) ==> {
            &&& out.len() > 0
            &&& lines_ok(
                out,
                logical_line,
                trim_newlines(text),
                wrap_widths(trim_newlines(text)),
                max_width as int,
            )
            &&& out.last().end_col == trim_newlines(text).len()
        },
{
    let chars = trim_newlines(text);
    lemma_trim_newlines(text);
    if chars.len() > 0 {
        let widths = wrap_widths(chars);
        assert(wrap_inv(logical_line, chars, widths, max_width as int, wrap_start()));
        lemma_wrap_from_ok(logical_line, chars, widths, max_width as int, wrap_start());
    } else {
        let out = seq![VisualLine { logical_line, start_col: 0, end_col: 0, is_first: true }];
        assert(lines_ok(out, logical_line, chars, wrap_widths(chars), max_width as int));
    }
}

/// Wrapping is greedy: every visual line but the last takes as much as
/// fits.  The characters from its start to the end of the text would not
/// fit in `max_width` columns, nor would those up to any blank after its
/// end; so it breaks at the last blank before the first character that
/// does not fit (or just before that character when there is none), and a
/// line that ends without dropping a blank could not have taken its next
/// character.
pub proof fn law_wrap_line_breaks_at_last_fitting_blank(
    logical_line: usize,
    text: Seq<char>,
    max_width: usize,
)
    requires
        max_width > 0,
        text.len() <= usize::MAX,
    ensures
        wrap_line_spec(logical_line, text, max_width) matches Some(out) ==> lines_full(
            out,
            trim_newlines(text),
            wrap_widths(trim_newlines(text)),
            max_width as int,
        ),
{
    let chars = trim_newlines(text);
    lemma_trim_newlines(text);
    if chars.len() > 0 {
        let widths = wrap_widths(chars);
        assert(wrap_inv(logical_line, chars, widths, max_width as int, wrap_start()));
        lemma_wrap_from_ok(logical_line, chars, widths, max_width as int, wrap_start());
    }
}

/// The total wrap width of `widths[a..b]`.
pub open spec fn width_sum(widths: Seq<usize>, a: int, b: int) -> int
    decreases b - a,
{
    if b <= a {
        0
    } else {
        width_sum(widths, a, b - 1) + widths[b - 1]
    }
}

/// Sums of non-negative widths grow with their range.
pub proof fn lemma_width_sum_mono(widths: Seq<usize>, a: int, b: int, c: int)
    requires
        a <= b <= c,
    ensures
        0 <= width_sum(widths, a, b) <= width_sum(widths, a, c),
    decreases c - b,
{
    if b < c {
        lemma_width_sum_mono(widths, a, b, c - 1);
    } else {
        lemma_width_sum_nonneg(widths, a, b);
    }
}

proof fn lemma_width_sum_nonneg(widths: Seq<usize>, a: int, b: int)
    ensures
        0 <= width_sum(widths, a, b),
    decreases b - a,
{
    if b > a {
        lemma_width_sum_nonneg(widths, a, b - 1);
    }
}

/// The visual lines of one logical line are laid out in order: the first
/// starts at column 0 and is the only one marked first, each runs forward
/// and takes at most `max` columns (or is a single character wider than
/// that), and each starts where the previous ended, or one column later
/// when the character there is a blank dropped at the break.
pub open spec fn lines_ok(
    lines: Seq<VisualLine>,
    logical_line: usize,
    chars: Seq<char>,
    widths: Seq<usize>,
    max: int,
) -> bool {
    &&& lines.len() > 0 ==> lines[0].start_col == 0
    &&& forall|j: int|
        0 <= j < lines.len() ==> {
            &&& (#[trigger] lines[j]).logical_line == logical_line
            &&& lines[j].start_col <= lines[j].end_col
            &&& (width_sum(widths, lines[j].start_col as int, lines[j].end_col as int) <= max
                || lines[j].end_col == lines[j].start_col + 1)
            &&& lines[j].is_first == (j == 0)
        }
    &&& forall|j: int|
        0 <= j < lines.len() - 1 ==> follows(chars, #[trigger] lines[j], lines[j + 1])
}

/// A visual line `l`, followed by one that starts at `next`, could take
/// nothing more: the rest of the characters from its start would not fit
/// in `max` columns, nor would its characters up to any later blank; and
/// when no blank was dropped at the break, not even the next character
/// would have fit.  So it breaks at the last blank before the first
/// character that does not fit, or just before that character.
pub open spec fn full_line(
    chars: Seq<char>,
    widths: Seq<usize>,
    max: int,
    l: VisualLine,
    next: int,
) -> bool {
    &&& width_sum(widths, l.start_col as int, chars.len() as int) > max
    &&& forall|b: int|
        l.end_col < b < chars.len() && is_blank(#[trigger] chars[b]) ==> width_sum(
            widths,
            l.start_col as int,
            b,
        ) > max
    &&& next == l.end_col ==> width_sum(widths, l.start_col as int, l.end_col + 1) > max
}

/// Every visual line but the last is full (see `full_line`).
pub open spec fn lines_full(
    lines: Seq<VisualLine>,
    chars: Seq<char>,
    widths: Seq<usize>,
    max: int,
) -> bool {
    forall|j: int|
        0 <= j < lines.len() - 1 ==> full_line(
            chars,
            widths,
            max,
            #[trigger] lines[j],
            lines[j + 1].start_col as int,
        )
}

/// Line `b` starts where line `a` ends, or just after a blank there.
pub open spec fn follows(chars: Seq<char>, a: VisualLine, b: VisualLine) -> bool {
    ||| b.start_col == a.end_col
    ||| (b.start_col == a.end_col + 1 && a.end_col < chars.len() && is_blank(chars[a.end_col as int]))
}

/// What holds of every state the scan reaches.
pub open spec fn wrap_inv(
    logical_line: usize,
    chars: Seq<char>,
    widths: Seq<usize>,
    max: int,
    s: WrapState,
) -> bool {
    &&& 0 <= s.line_start <= s.i <= chars.len()
    &&& chars.len() <= usize::MAX
    &&& widths.len() == chars.len()
    &&& s.width == width_sum(widths, s.line_start, s.i)
    &&& max >= 0
    &&& (s.width <= max || s.i == s.line_start + 1)
    &&& s.last_space matches Some(b) ==> s.line_start <= b < s.i && is_blank(chars[b])
    &&& (match s.last_space {
        Some(b) => forall|k: int| b < k < s.i ==> !is_blank(#[trigger] chars[k]),
        None => forall|k: int| s.line_start <= k < s.i ==> !is_blank(#[trigger] chars[k]),
    })
    &&& lines_full(s.lines, chars, widths, max)
    &&& s.lines.len() > 0 ==> full_line(chars, widths, max, s.lines.last(), s.line_start)
    &&& s.first == (s.lines.len() == 0)
    &&& s.lines.len() == 0 ==> s.line_start == 0
    &&& s.lines.len() > 0 ==> follows(
        chars,
        s.lines.last(),
        VisualLine { logical_line, start_col: s.line_start as usize, end_col: 0, is_first: false },
    )
    &&& lines_ok(s.lines, logical_line, chars, widths, max)
}

/// The line closed at a break is full: the character at the break did not
/// fit after the line's start, and no blank lies between the break and it.
proof fn lemma_break_full(
    logical_line: usize,
    chars: Seq<char>,
    widths: Seq<usize>,
    max: int,
    s: WrapState,
)
    requires
        wrap_inv(logical_line, chars, widths, max, s),
        s.i < chars.len(),
        s.width + widths[s.i] > max,
        s.i != s.line_start,
    ensures
        ({
            let ls = if is_blank(chars[s.i]) {
                Some(s.i)
            } else {
                s.last_space
            };
            let (end, next) = break_point(s, ls);
            full_line(
                chars,
                widths,
                max,
                VisualLine {
                    logical_line,
                    start_col: s.line_start as usize,
                    end_col: end as usize,
                    is_first: s.first,
                },
                next,
            )
        }),
{
    let ls = if is_blank(chars[s.i]) {
        Some(s.i)
    } else {
        s.last_space
    };
    let (end, next) = break_point(s, ls);
    let st = s.line_start;
    let n = chars.len() as int;
    assert(width_sum(widths, st, s.i + 1) > max);
    lemma_width_sum_mono(widths, st, s.i + 1, n);
    assert forall|b: int| end < b < n && is_blank(#[trigger] chars[b]) implies width_sum(
        widths,
        st,
        b,
    ) > max by {
        assert(b > s.i);
        lemma_width_sum_mono(widths, st, s.i + 1, b);
    }
}

/// One break of the scan: the line closed there is laid out as `lines_ok`
/// says, the scan moves forward, and the invariant holds again.
proof fn lemma_wrap_break(
    logical_line: usize,
    chars: Seq<char>,
    widths: Seq<usize>,
    max: int,
    s: WrapState,
)
    requires
        wrap_inv(logical_line, chars, widths, max, s),
        s.i < chars.len(),
        s.width + widths[s.i] > max,
        s.i != s.line_start,
    ensures
        ({
            let ls = if is_blank(chars[s.i]) {
                Some(s.i)
            } else {
                s.last_space
            };
            let (end, next) = break_point(s, ls);
            let lines2 = s.lines.push(
                VisualLine {
                    logical_line,
                    start_col: s.line_start as usize,
                    end_col: end as usize,
                    is_first: s.first,
                },
            );
            &&& s.line_start < next <= chars.len()
            &&& wrap_inv(
                logical_line,
                chars,
                widths,
                max,
                WrapState {
                    i: next,
                    line_start: next,
                    width: 0,
                    last_space: None,
                    first: false,
                    lines: lines2,
                },
            )
        }),
{
    let ls = if is_blank(chars[s.i]) {
        Some(s.i)
    } else {
        s.last_space
    };
    let (end, next) = break_point(s, ls);
    let vl = VisualLine {
        logical_line,
        start_col: s.line_start as usize,
        end_col: end as usize,
        is_first: s.first,
    };
    let lines2 = s.lines.push(vl);
    lemma_width_sum_mono(widths, s.line_start, end, s.i);
    assert(lines_ok(lines2, logical_line, chars, widths, max)) by {
        assert forall|j: int| 0 <= j < lines2.len() implies {
            &&& (#[trigger] lines2[j]).logical_line == logical_line
            &&& lines2[j].start_col <= lines2[j].end_col
            &&& (width_sum(widths, lines2[j].start_col as int, lines2[j].end_col as int) <= max
                || lines2[j].end_col == lines2[j].start_col + 1)
            &&& lines2[j].is_first == (j == 0)
        } by {
            if j < s.lines.len() {
                assert(lines2[j] == s.lines[j]);
            }
        }
        assert forall|j: int| 0 <= j < lines2.len() - 1 implies follows(
            chars,
            #[trigger] lines2[j],
            lines2[j + 1],
        ) by {
            if j + 1 < s.lines.len() {
                assert(lines2[j] == s.lines[j]);
                assert(lines2[j + 1] == s.lines[j + 1]);
            } else {
                assert(lines2[j] == s.lines.last());
                assert(lines2[j + 1] == vl);
            }
        }
    }
    assert(lines2.last() == vl);
    lemma_break_full(logical_line, chars, widths, max, s);
    assert forall|j: int| 0 <= j < lines2.len() - 1 implies full_line(
        chars,
        widths,
        max,
        #[trigger] lines2[j],
        lines2[j + 1].start_col as int,
    ) by {
        if j + 1 < s.lines.len() {
            assert(lines2[j] == s.lines[j]);
            assert(lines2[j + 1] == s.lines[j + 1]);
        } else {
            assert(lines2[j] == s.lines.last());
            assert(lines2[j + 1] == vl);
        }
    }
}

/// The scan's last line: the output is laid out as `lines_ok` says.
proof fn lemma_wrap_last(
    logical_line: usize,
    chars: Seq<char>,
    widths: Seq<usize>,
    max: int,
    s: WrapState,
)
    requires
        wrap_inv(logical_line, chars, widths, max, s),
        s.i == chars.len(),
    ensures
        ({
            let out = s.lines.push(
                VisualLine {
                    logical_line,
                    start_col: s.line_start as usize,
                    end_col: chars.len() as usize,
                    is_first: s.first,
                },
            );
            lines_ok(out, logical_line, chars, widths, max) && lines_full(out, chars, widths, max)
        }),
{
    let n = chars.len() as int;
    let vl = VisualLine {
        logical_line,
        start_col: s.line_start as usize,
        end_col: n as usize,
        is_first: s.first,
    };
    let out = s.lines.push(vl);
    assert forall|j: int| 0 <= j < out.len() implies {
        &&& (#[trigger] out[j]).logical_line == logical_line
        &&& out[j].start_col <= out[j].end_col
        &&& (width_sum(widths, out[j].start_col as int, out[j].end_col as int) <= max
            || out[j].end_col == out[j].start_col + 1)
        &&& out[j].is_first == (j == 0)
    } by {
        if j < s.lines.len() {
            assert(out[j] == s.lines[j]);
        }
    }
    assert forall|j: int| 0 <= j < out.len() - 1 implies follows(
        chars,
        #[trigger] out[j],
        out[j + 1],
    ) by {
        if j + 1 < s.lines.len() {
            assert(out[j] == s.lines[j]);
            assert(out[j + 1] == s.lines[j + 1]);
        } else {
            assert(out[j] == s.lines.last());
            assert(out[j + 1] == vl);
        }
    }
    assert forall|j: int| 0 <= j < out.len() - 1 implies full_line(
        chars,
        widths,
        max,
        #[trigger] out[j],
        out[j + 1].start_col as int,
    ) by {
        if j + 1 < s.lines.len() {
            assert(out[j] == s.lines[j]);
            assert(out[j + 1] == s.lines[j + 1]);
        } else {
            assert(out[j] == s.lines.last());
            assert(out[j + 1] == vl);
        }
    }
}

/// The scan's output is laid out as `lines_ok` says, and its last line ends
/// at the end of the characters.
pub proof fn lemma_wrap_from_ok(
    logical_line: usize,
    chars: Seq<char>,
    widths: Seq<usize>,
    max: int,
    s: WrapState,
)
    requires
        wrap_inv(logical_line, chars, widths, max, s),
    ensures
        wrap_from(logical_line, chars, widths, max, s) matches Some(out) ==> {
            &&& out.len() > 0
            &&& lines_ok(out, logical_line, chars, widths, max)
            &&& lines_full(out, chars, widths, max)
            &&& out.last().end_col == chars.len()
        },
        wrap_from(logical_line, chars, widths, max, s) is Some,
    decreases chars.len() - s.line_start, chars.len() - s.i,
{
    let n = chars.len() as int;
    if s.i == n {
        lemma_wrap_last(logical_line, chars, widths, max, s);
    } else {
        let w = widths[s.i] as int;
        let ls = if is_blank(chars[s.i]) {
            Some(s.i)
        } else {
            s.last_space
        };
        if s.width + w > max && s.i != s.line_start {
            lemma_wrap_break(logical_line, chars, widths, max, s);
            let (end, next) = break_point(s, ls);
            let s2 = WrapState {
                i: next,
                line_start: next,
                width: 0,
                last_space: None,
                first: false,
                lines: s.lines.push(
                    VisualLine {
                        logical_line,
                        start_col: s.line_start as usize,
                        end_col: end as usize,
                        is_first: s.first,
                    },
                ),
            };
            lemma_wrap_from_ok(logical_line, chars, widths, max, s2);
        } else {
            let s2 = WrapState { i: s.i + 1, width: s.width + w, last_space: ls, ..s };
            assert(wrap_inv(logical_line, chars, widths, max, s2));
            lemma_wrap_from_ok(logical_line, chars, widths, max, s2);
        }
    }
}

} // verus!
