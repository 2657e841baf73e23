use vstd::prelude::*;

use crate::editor::buffer::Buffer;
use crate::editor::cursor::Cursor;
use crate::editor::highlight::{default_theme, MarkdownTheme, StyledRange};
use crate::editor::history::History;
use crate::editor::overlay::OverlayManager;
use crate::editor::viewport::{scrolled_to, Viewport};
use crate::editor::highlight::{highlight_buffer, highlight_spec, span_lists_view};
use crate::editor::markdown::{commonmark_events, commonmark_spans};
use crate::editor::preview::{decimal, decimal_string, lines_view, preview_defined, preview_spec, render_preview, PreviewLine};
use crate::editor::style::{spans_view, StyledSpan};
use crate::editor::view::{cursor_cell, cursor_spec, rows_spec, rows_view, visible_rows, Rect, ScreenRow};
use crate::text::{file_name_of, line_count, path_file_name, split_lines, std_lines};
use crate::ui::help_bar::{help_spans_spec, HelpBar};
use crate::ui::status_bar::{parts_fit, status_spans, StatusBar};
use ratatui::layout::{Constraint, Direction, Layout, Rect as TuiRect};
use vstd::string::StringSliceAdditionalSpecFns;

verus! {

/// Runtime configuration for the editor.
#[derive(Debug, Clone, Copy, PartialEq, Eq, Structural)]
pub struct EditorConfig {
    /// Number of spaces per tab stop.
    pub tab_width: usize,
    /// Show the bottom status bar.
    pub show_status_bar: bool,
    /// Show the top/bottom help hints bar.
    pub show_help_hints: bool,
    /// Show line numbers in the gutter.
    pub show_line_numbers: bool,
    /// Show the Markdown preview pane.
    pub show_preview: bool,
    /// Syntax highlight theme.
    pub theme: MarkdownTheme,
}

/// The default configuration: tab stops of four, status bar and help hints
/// shown, no line numbers, no preview, the default theme.
pub open spec fn default_config() -> EditorConfig {
    EditorConfig {
        tab_width: 4,
        show_status_bar: true,
        show_help_hints: true,
        show_line_numbers: false,
        show_preview: false,
        theme: default_theme(),
    }
}

impl Default for EditorConfig {
    fn default() -> (c: Self)
        ensures
            c == default_config(),
    {
        EditorConfig {
            tab_width: 4,
            show_status_bar: true,
            show_help_hints: true,
            show_line_numbers: false,
            show_preview: false,
            theme: MarkdownTheme::default(),
        }
    }
}

/// The full state managed by the host application and passed to the widget.
pub struct MarkdownEditorState {
    pub buffer: Buffer,
    pub cursor: Cursor,
    pub history: History,
    pub viewport: Viewport,
    pub highlight_cache: Vec<Vec<StyledRange>>,
    pub overlay: OverlayManager,
    pub config: EditorConfig,
}

/// A rectangle within `area` and as wide as it: what ratatui's vertical
/// `Layout` gives each of its rows.
pub open spec fn row_within(area: Rect, r: Rect) -> bool {
    &&& r.x == area.x
    &&& r.width == area.width
    &&& area.y <= r.y
    &&& r.y + r.height <= area.y + area.height
}

/// Three rows within `area` (see `row_within`).
pub open spec fn rows_within(area: Rect, rows: (Rect, Rect, Rect)) -> bool {
    row_within(area, rows.0) && row_within(area, rows.1) && row_within(area, rows.2)
}

/// The two halves, side by side, that ratatui's `Layout` gives an area.
pub uninterp spec fn halves_layout(area: Rect) -> (Rect, Rect);

/// The rows `top` high at the top of `area`, `bottom` high at its bottom,
/// and the rest between them, each as wide as the area.
pub open spec fn exact_rows(area: Rect, top: u16, bottom: u16) -> (Rect, Rect, Rect) {
    (
        Rect { x: area.x, y: area.y, width: area.width, height: top },
        Rect {
            x: area.x,
            y: (area.y + top) as u16,
            width: area.width,
            height: (area.height - top - bottom) as u16,
        },
        Rect {
            x: area.x,
            y: (area.y + area.height - bottom) as u16,
            width: area.width,
            height: bottom,
        },
    )
}

/// Whether `area` has room for rows `top` and `bottom` high with at least
/// one row between them, and ends within the `u16` coordinates.
pub open spec fn rows_fit(area: Rect, top: u16, bottom: u16) -> bool {
    area.height >= top + bottom + 1 && area.y + area.height <= u16::MAX
}

/// ratatui's `Layout` (vertical; lengths `top` and `bottom` around a
/// middle of at least one row) split of `area`.  Its solver keeps every row
/// within the area and as wide as it.  Where the area has room for both
/// lengths and a middle row, the solver's optimum is unique (the lengths
/// and the middle's lower bound outweigh the middle's wish to fill, which
/// outweighs the trailing spacer's), and the rows are `exact_rows`.  Where
/// it has not, how the heights are shared is left unstated: which optimum
/// the solver reaches then depends on hash-map order, which differs between
/// processes.
#[verifier::external_body]
fn split_rows(area: Rect, top: u16, bottom: u16) -> (r: (Rect, Rect, Rect))
    ensures
        rows_within(area, r),
        rows_fit(area, top, bottom) ==> r == exact_rows(area, top, bottom),
{
    let parts = Layout::default().direction(Direction::Vertical).constraints(
        [Constraint::Length(top), Constraint::Min(1), Constraint::Length(bottom)],
    ).split(TuiRect { x: area.x, y: area.y, width: area.width, height: area.height });
    let (a, b, c) = (parts[0], parts[1], parts[2]);
    (
        Rect { x: a.x, y: a.y, width: a.width, height: a.height },
        Rect { x: b.x, y: b.y, width: b.width, height: b.height },
        Rect { x: c.x, y: c.y, width: c.width, height: c.height },
    )
}

/// ratatui's `Layout` (horizontal; two halves of 50%) split of `area`: the
/// result is named `halves_layout`.
#[verifier::external_body]
fn split_halves(area: Rect) -> (r: (Rect, Rect))
    ensures
        r == halves_layout(area),
{
    let parts = Layout::default().direction(Direction::Horizontal).constraints(
        [Constraint::Percentage(50), Constraint::Percentage(50)],
    ).split(TuiRect { x: area.x, y: area.y, width: area.width, height: area.height });
    let (a, b) = (parts[0], parts[1]);
    (
        Rect { x: a.x, y: a.y, width: a.width, height: a.height },
        Rect { x: b.x, y: b.y, width: b.width, height: b.height },
    )
}

/// Everything the editor widget draws, computed before drawing: the help
/// row, the status row, the editing area with its gutter and rows, the
/// cursor cell, and the preview pane.
pub struct RenderPlan {
    pub help: Option<(Rect, Vec<StyledSpan>)>,
    pub status: Option<(Rect, Vec<StyledSpan>)>,
    pub edit_area: Rect,
    pub gutter_width: u16,
    pub text_x: u16,
    pub rows: Vec<ScreenRow>,
    pub cursor: Option<(u16, u16)>,
    pub preview: Option<(Rect, Vec<PreviewLine>)>,
}

/// Ten to the power `k`.
pub open spec fn pow10(k: nat) -> nat
    decreases k,
{
    if k == 0 {
        1
    } else {
        10 * pow10((k - 1) as nat)
    }
}

/// A number below `10^k` (for `k >= 1`) has at most `k` digits.
pub proof fn lemma_decimal_len_bound(n: nat, k: nat)
    requires
        k >= 1,
        n < pow10(k),
    ensures
        decimal(n).len() <= k,
    decreases k,
{
    if n >= 10 {
        assert(k >= 2) by {
            if k == 1 {
                assert(pow10(1) == 10) by {
                    assert(pow10(0) == 1);
                }
            }
        }
        assert(n / 10 < pow10((k - 1) as nat)) by (nonlinear_arith)
            requires
                n < pow10(k),
                pow10(k) == 10 * pow10((k - 1) as nat),
        ;
        lemma_decimal_len_bound(n / 10, (k - 1) as nat);
    }
}

/// A 64-bit number has at most 20 digits.
pub proof fn lemma_decimal_len(n: nat)
    requires
        n <= u64::MAX,
    ensures
        1 <= decimal(n).len() <= 20,
{
    assert(pow10(20) == 100000000000000000000) by {
        reveal_with_fuel(pow10, 21);
    }
    lemma_decimal_len_bound(n, 20);
}

/// The gutter width for `total` lines: its number of digits and a space,
/// when line numbers are shown.
pub open spec fn gutter_width_spec(total: nat, show: bool) -> int {
    if show {
        decimal(total).len() + 1int
    } else {
        0
    }
}

/// The editing area and the preview area (when shown) of the middle rows.
pub open spec fn panes(middle: Rect, show_preview: bool) -> (Rect, Option<Rect>) {
    if show_preview {
        (halves_layout(middle).0, Some(halves_layout(middle).1))
    } else {
        (middle, None)
    }
}

/// The name the status bar shows for a buffer: its file's name, or
/// `[No Name]` when it has no path or the path has no file name.
pub open spec fn shown_file_name(path: Option<Seq<char>>) -> Seq<char> {
    match path {
        Some(p) => match file_name_of(p) {
            Some(n) => n,
            None => "[No Name]"@,
        },
        None => "[No Name]"@,
    }
}

/// The width left for text in an editing area `width` cells wide with a
/// gutter `gw` wide.
pub open spec fn text_width_spec(width: u16, gw: int) -> usize {
    (if width >= gw {
        width - gw
    } else {
        0
    }) as usize
}

/// What the editor widget draws cannot be worked out: the status bar
/// (when shown) would count past `usize::MAX` or not fit its row; scrolling
/// to the cursor's line, placing the text after the gutter, laying out the
/// rows or placing the cursor would overflow; or
/// the preview (when shown) would nest or number its lists past what its
/// counters hold.
pub open spec fn plan_blocked(s: MarkdownEditorState, layout: (Rect, Rect, Rect)) -> bool {
    let cfg = s.config;
    let edit = panes(layout.1, cfg.show_preview).0;
    let text = s.buffer@;
    let p = s.cursor.pos;
    let gw = gutter_width_spec(line_count(text), cfg.show_line_numbers);
    let top = scrolled_to(s.viewport.scroll_top, edit.height as usize, p.line);
    let tw = text_width_spec(edit.width, gw);
    ||| cfg.show_status_bar && (p.line == usize::MAX || p.col == usize::MAX || !parts_fit(
        shown_file_name(s.buffer.spec_path()),
        s.buffer.spec_dirty(),
        (p.line + 1) as usize,
        (p.col + 1) as usize,
        layout.2.width,
    ))
    ||| !(p.line < s.viewport.scroll_top || edit.height == 0 || s.viewport.scroll_top
        + edit.height <= usize::MAX)
    ||| edit.x + gw > u16::MAX
    ||| rows_spec(
        std_lines(text),
        top as int,
        0,
        edit.height as int,
        tw,
        cfg.show_line_numbers,
        gw,
        edit.y as int,
    ) is None
    ||| cursor_spec(std_lines(text), p.line, p.col, top, edit.height as usize, tw, (edit.x + gw) as u16, edit) is None
    ||| cfg.show_preview && !preview_defined(commonmark_events(text))
}

/// What working out the plan from `before`, with the rows `layout` of the
/// area, gives: `r`, and the state `after`.  `None`, with the state
/// unchanged, exactly where the plan cannot be worked out (see
/// `plan_blocked`).
pub open spec fn plan_outcome(
    before: MarkdownEditorState,
    after: MarkdownEditorState,
    layout: (Rect, Rect, Rect),
    r: Option<RenderPlan>,
) -> bool {
    &&& (r is None <==> plan_blocked(before, layout))
    &&& (r is None ==> after == before)
    &&& after.buffer == before.buffer
    &&& after.cursor == before.cursor
    &&& after.history == before.history
    &&& after.overlay == before.overlay
    &&& after.config == before.config
    &&& (r matches Some(plan) ==> {
            let cfg = before.config;
            let (edit, preview_area) = panes(layout.1, cfg.show_preview);
            let text = before.buffer@;
            let p = before.cursor.pos;
            let top = scrolled_to(before.viewport.scroll_top, edit.height as usize, p.line);
            let gw = gutter_width_spec(line_count(text), cfg.show_line_numbers);
            let tw = text_width_spec(edit.width, gw);
            &&& plan.edit_area == edit
            &&& after.viewport == (Viewport {
                scroll_top: top,
                height: edit.height as usize,
                width: edit.width as usize,
            })
            &&& (edit.height > 0 ==> top <= p.line < top + edit.height)
            &&& (before.highlight_cache.len() == line_count(text) ==> after.highlight_cache
                == before.highlight_cache)
            &&& (before.highlight_cache.len() != line_count(text) ==> span_lists_view(
                after.highlight_cache,
            ) == highlight_spec(vstd::utf8::encode_utf8(text), cfg.theme, commonmark_spans(text)))
            &&& plan.gutter_width == gw
            &&& plan.text_x == edit.x + gw
            &&& match plan.help {
                Some((a, spans)) => cfg.show_help_hints && a == layout.0 && spans_view(spans@)
                    == help_spans_spec(9),
                None => !cfg.show_help_hints,
            }
            &&& match plan.status {
                Some((a, spans)) => cfg.show_status_bar && a == layout.2 && spans_view(spans@)
                    == status_spans(
                    shown_file_name(before.buffer.spec_path()),
                    before.buffer.spec_dirty(),
                    (p.line + 1) as usize,
                    (p.col + 1) as usize,
                    a.width,
                ),
                None => !cfg.show_status_bar,
            }
            &&& rows_spec(
                std_lines(text),
                top as int,
                0,
                edit.height as int,
                tw,
                cfg.show_line_numbers,
                gw,
                edit.y as int,
            ) == Some(rows_view(plan.rows@))
            &&& cursor_spec(std_lines(text), p.line, p.col, top, edit.height as usize, tw, (edit.x + gw) as u16, edit)
                == Some(plan.cursor)
            &&& match plan.preview {
                Some((a, lines)) => preview_area == Some(a) && lines_view(lines@) == preview_spec(
                    commonmark_events(text),
                ),
                None => preview_area is None,
            }
        })
}

/// With the help row and the status bar shown and no preview, a plan worked
/// out for an area with room for them and one editing row gives the
/// editing viewport every row of the area but those two, and the area's
/// full width, scrolled so that the cursor's line is in view; the document
/// and the cursor stay as they were.
pub proof fn law_editing_rows_between_help_and_status(
    before: MarkdownEditorState,
    after: MarkdownEditorState,
    area: Rect,
    r: Option<RenderPlan>,
)
    requires
        before.config.show_help_hints,
        before.config.show_status_bar,
        !before.config.show_preview,
        rows_fit(area, 1, 1),
        plan_outcome(before, after, exact_rows(area, 1, 1), r),
        r is Some,
    ensures
        after.viewport.height == area.height - 2,
        after.viewport.width == area.width,
        after.viewport.scroll_top <= before.cursor.pos.line < after.viewport.scroll_top
            + after.viewport.height,
        after.buffer == before.buffer,
        after.cursor == before.cursor,
{
}

/// Work out what the editor widget draws, given the help row, the middle
/// rows and the status row of its area, and update the viewport to the
/// editing area (scrolled to show the cursor's line) and the highlight
/// cache (rebuilt when its line count is stale); see `plan_outcome`.
pub fn render_plan_in(state: &mut MarkdownEditorState, layout: (Rect, Rect, Rect)) -> (r: Option<RenderPlan>)
    ensures
        plan_outcome(*old(state), *final(state), layout, r),
{
    let (help_area, editor_area, status_area) = layout;
    let help = if state.config.show_help_hints {
        Some((help_area, HelpBar.spans()))
    } else {
        None
    };
    let status = if state.config.show_status_bar {
        proof {
            reveal_strlit("[No Name]");
        }
        let file_name = match state.buffer.file_path() {
            Some(p) => match path_file_name(p) {
                Some(n) => n,
                None => String::from_str("[No Name]"),
            },
            None => String::from_str("[No Name]"),
        };
        if state.cursor.pos.line == usize::MAX || state.cursor.pos.col == usize::MAX {
            return None;
        }
        let bar = StatusBar {
            file_name,
            is_dirty: state.buffer.is_dirty(),
            line: state.cursor.pos.line + 1,
            col: state.cursor.pos.col + 1,
        };
        if !bar.fits(status_area.width) {
            return None;
        }
        Some((status_area, bar.spans(status_area.width)))
    } else {
        None
    };
    let (edit_area, preview_area) = if state.config.show_preview {
        let (a, b) = split_halves(editor_area);
        (a, Some(b))
    } else {
        (editor_area, None)
    };
    let line = state.cursor.pos.line;
    let mut viewport = Viewport {
        scroll_top: state.viewport.scroll_top,
        height: edit_area.height as usize,
        width: edit_area.width as usize,
    };
    if !(line < viewport.scroll_top || viewport.height == 0 || viewport.scroll_top
        <= usize::MAX - viewport.height) {
        return None;
    }
    viewport.ensure_visible(line);
    let text = state.buffer.get_text();
    let total = state.buffer.len_lines();
    let gutter_width: u16 = if state.config.show_line_numbers {
        let digits = decimal_string(total as u64).as_str().unicode_len();
        proof {
            lemma_decimal_len(total as nat);
        }
        digits as u16 + 1
    } else {
        0
    };
    if gutter_width > u16::MAX - edit_area.x {
        return None;
    }
    let text_x = edit_area.x + gutter_width;
    let text_width = edit_area.width.saturating_sub(gutter_width) as usize;
    let lines = split_lines(text.as_str());
    let rows = match visible_rows(
        &lines,
        viewport.scroll_top,
        edit_area.height as usize,
        text_width,
        state.config.show_line_numbers,
        gutter_width,
        edit_area.y,
    ) {
        Some(rows) => rows,
        None => {
            return None;
        },
    };
    let cursor = match cursor_cell(
        &lines,
        state.cursor.pos.line,
        state.cursor.pos.col,
        viewport.scroll_top,
        edit_area.height as usize,
        text_width,
        text_x,
        edit_area,
    ) {
        Some(c) => c,
        None => {
            return None;
        },
    };
    let preview = match preview_area {
        Some(pa) => match render_preview(text.as_str()) {
            Some(lines) => Some((pa, lines)),
            None => {
                return None;
            },
        },
        None => None,
    };
    state.viewport = viewport;
    if state.highlight_cache.len() != total {
        state.highlight_cache = highlight_buffer(text.as_str(), &state.config.theme);
    }
    Some(
        RenderPlan {
            help,
            status,
            edit_area,
            gutter_width,
            text_x,
            rows,
            cursor,
            preview,
        },
    )
}

/// The height of the help row: one when hints are shown.
pub open spec fn help_height(cfg: EditorConfig) -> u16 {
    if cfg.show_help_hints {
        1
    } else {
        0
    }
}

/// The height of the status row: one when the bar is shown.
pub open spec fn status_height(cfg: EditorConfig) -> u16 {
    if cfg.show_status_bar {
        1
    } else {
        0
    }
}

/// Work out what the editor widget draws in `area`: the area is split into
/// a help row (when hints are shown), the editing rows and a status row
/// (when the bar is shown) by ratatui's `Layout`, and the plan is worked out
/// for those rows (see `render_plan_in`).  Where the area has room for the
/// help row, the status row and one editing row, those are the rows at its
/// top and bottom and everything between them.
pub fn render_plan(state: &mut MarkdownEditorState, area: Rect) -> (r: Option<RenderPlan>)
    ensures
        exists|layout: (Rect, Rect, Rect)|
            #[trigger] rows_within(area, layout) && plan_outcome(*old(state), *final(state), layout, r),
        rows_fit(area, help_height(old(state).config), status_height(old(state).config))
            ==> plan_outcome(
            *old(state),
            *final(state),
            exact_rows(area, help_height(old(state).config), status_height(old(state).config)),
            r,
        ),
{
    let help_height: u16 = if state.config.show_help_hints {
        1
    } else {
        0
    };
    let status_height: u16 = if state.config.show_status_bar {
        1
    } else {
        0
    };
    let layout = split_rows(area, help_height, status_height);
    let r = render_plan_in(state, layout);
    assert(rows_within(area, layout));
    r
}

} // verus!
