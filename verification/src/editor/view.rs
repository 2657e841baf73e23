//! What the editor widget shows: the rows of text on screen with their
//! line numbers, and where the cursor cell is, computed from the document
//! and the screen area before anything is drawn.
use vstd::prelude::*;

use crate::editor::preview::{decimal, decimal_string, repeat_str, repeated};
use crate::editor::wrap::{wrap_line, wrap_line_spec, VisualLine};

verus! {

/// One screen row of the editor: its screen line, the line-number label in
/// the gutter (on the first row of a logical line, when numbers are shown),
/// and the text shown.
pub struct ScreenRow {
    pub y: u16,
    pub gutter: Option<String>,
    pub text: String,
}

/// The content of a screen row.
pub struct RowView {
    pub y: u16,
    pub gutter: Option<Seq<char>>,
    pub text: Seq<char>,
}

pub open spec fn row_view(r: ScreenRow) -> RowView {
    RowView {
        y: r.y,
        gutter: match r.gutter {
            Some(g) => Some(g@),
            None => None,
        },
        text: r.text@,
    }
}

pub open spec fn rows_view(v: Seq<ScreenRow>) -> Seq<RowView> {
    v.map_values(|r: ScreenRow| row_view(r))
}

/// The number `n` right-aligned in `width` columns, then a space.
pub open spec fn gutter_label(n: nat, width: int) -> Seq<char> {
    let d = decimal(n);
    repeated(" "@, (if width > d.len() { width - d.len() } else { 0 }) as nat) + d + " "@
}

/// The characters `[s, e)` of `line`, cut short at its end.
pub open spec fn segment(line: Seq<char>, s: int, e: int) -> Seq<char> {
    if s >= line.len() {
        Seq::empty()
    } else if e <= s {
        Seq::empty()
    } else if e >= line.len() {
        line.subrange(s, line.len() as int)
    } else {
        line.subrange(s, e)
    }
}

/// The screen rows of the visual lines `vls[j..]` of logical line `l`
/// (whose text is `line`), from screen row `row` until `height` rows are
/// filled, and the screen row after them.  A row shows its part of the
/// line and, when numbers are shown, the line number on the first visual
/// line.  `None` where a screen line would pass `u16::MAX`.
pub open spec fn line_rows(
    line: Seq<char>,
    l: int,
    vls: Seq<VisualLine>,
    j: int,
    row: int,
    height: int,
    show_numbers: bool,
    gutter_width: int,
    y0: int,
) -> Option<(Seq<RowView>, int)>
    decreases vls.len() - j,
{
    if j >= vls.len() || j < 0 || row >= height {
        Some((Seq::empty(), row))
    } else if y0 + row > u16::MAX {
        None
    } else {
        let vl = vls[j];
        let r = RowView {
            y: (y0 + row) as u16,
            gutter: if show_numbers && vl.is_first {
                Some(gutter_label((l + 1) as nat, gutter_width - 1))
            } else {
                None
            },
            text: segment(line, vl.start_col as int, vl.end_col as int),
        };
        match line_rows(line, l, vls, j + 1, row + 1, height, show_numbers, gutter_width, y0) {
            Some((rest, e)) => Some((seq![r] + rest, e)),
            None => None,
        }
    }
}

/// The number of columns lines are wrapped to: the text width, and at
/// least one.
pub open spec fn wrap_columns(text_width: usize) -> usize {
    if text_width == 0 {
        1
    } else {
        text_width
    }
}

/// The screen rows of logical lines `lines[l..]`, from screen row `row`
/// until `height` rows are filled: each line wrapped to `text_width`
/// columns (at least one) gives one row per visual line.  `None` where a
/// screen line would pass `u16::MAX` (wrapping a line always has a result:
/// see `law_wrap_line_layout`).
pub open spec fn rows_spec(
    lines: Seq<Seq<char>>,
    l: int,
    row: int,
    height: int,
    text_width: usize,
    show_numbers: bool,
    gutter_width: int,
    y0: int,
) -> Option<Seq<RowView>>
    decreases lines.len() - l,
{
    if row >= height || l >= lines.len() || l < 0 {
        Some(Seq::empty())
    } else {
        match wrap_line_spec(l as usize, lines[l], wrap_columns(text_width)) {
            None => None,
            Some(vls) => match line_rows(
                lines[l],
                l,
                vls,
                0,
                row,
                height,
                show_numbers,
                gutter_width,
                y0,
            ) {
                None => None,
                Some((rs, e)) => match rows_spec(
                    lines,
                    l + 1,
                    e,
                    height,
                    text_width,
                    show_numbers,
                    gutter_width,
                    y0,
                ) {
                    Some(rest) => Some(rs + rest),
                    None => None,
                },
            },
        }
    }
}

/// The line-number label of line `n`: right-aligned in `width` columns,
/// then a space.
pub fn gutter_label_string(n: usize, width: usize) -> (r: String)
    ensures
        r@ == gutter_label(n as nat, width as int),
{
    let d = decimal_string(n as u64);
    let len = d.unicode_len();
    let pad = if width > len {
        width - len
    } else {
        0
    };
    proof {
        reveal_strlit(" ");
    }
    repeat_str(" ", pad).concat(d.as_str()).concat(" ")
}

/// The characters `[s, e)` of `line`, cut short at its end.
pub fn segment_string(line: &str, s: usize, e: usize) -> (r: String)
    ensures
        r@ == segment(line@, s as int, e as int),
{
    let n = line.unicode_len();
    if s >= n || e <= s {
        String::new()
    } else if e >= n {
        String::from_str(line.substring_char(s, n))
    } else {
        String::from_str(line.substring_char(s, e))
    }
}

/// The screen rows of the editor: logical lines from `scroll_top`, each
/// wrapped to `text_width` columns (at least one), one screen row per
/// visual line from screen line `y0`, until `height` rows are filled;
/// line numbers in a gutter `gutter_width` wide when `show_numbers`.
/// `None` where a screen line would pass `u16::MAX`.
pub fn visible_rows(
    lines: &Vec<String>,
    scroll_top: usize,
    height: usize,
    text_width: usize,
    show_numbers: bool,
    gutter_width: u16,
    y0: u16,
) -> (r: Option<Vec<ScreenRow>>)
    requires
        show_numbers ==> gutter_width >= 1,
    ensures
        match r {
            Some(v) => rows_spec(
                lines@.map_values(|s: String| s@),
                scroll_top as int,
                0,
                height as int,
                text_width,
                show_numbers,
                gutter_width as int,
                y0 as int,
            ) == Some(rows_view(v@)),
            None => rows_spec(
                lines@.map_values(|s: String| s@),
                scroll_top as int,
                0,
                height as int,
                text_width,
                show_numbers,
                gutter_width as int,
                y0 as int,
            ) is None,
        },
{
    let ghost ls = lines@.map_values(|s: String| s@);
    let ghost target = rows_spec(
        ls,
        scroll_top as int,
        0,
        height as int,
        text_width,
        show_numbers,
        gutter_width as int,
        y0 as int,
    );
    let cols = if text_width == 0 {
        1
    } else {
        text_width
    };
    let mut rows: Vec<ScreenRow> = Vec::new();
    let mut screen_row: usize = 0;
    let mut l: usize = scroll_top;
    assert(rows_view(rows@) =~= Seq::<RowView>::empty());
    while screen_row < height && l < lines.len()
        invariant
            ls == lines@.map_values(|s: String| s@),
            target == rows_spec(
                ls,
                scroll_top as int,
                0,
                height as int,
                text_width,
                show_numbers,
                gutter_width as int,
                y0 as int,
            ),
            cols == wrap_columns(text_width),
            show_numbers ==> gutter_width >= 1,
            screen_row <= height,
            match rows_spec(
                ls,
                l as int,
                screen_row as int,
                height as int,
                text_width,
                show_numbers,
                gutter_width as int,
                y0 as int,
            ) {
                Some(rest) => target == Some(rows_view(rows@) + rest),
                None => target is None,
            },
        decreases lines.len() - l,
    {
        let vls = wrap_line(l, lines[l].as_str(), cols);
        let ghost row0 = screen_row as int;
        let ghost before = rows_view(rows@);
        let ghost line = ls[l as int];
        let ghost lr0 = line_rows(
            line,
            l as int,
            vls@,
            0,
            row0,
            height as int,
            show_numbers,
            gutter_width as int,
            y0 as int,
        );
        let mut j: usize = 0;
        while j < vls.len() && screen_row < height
            invariant
                ls == lines@.map_values(|s: String| s@),
                l < lines.len(),
                line == ls[l as int],
                wrap_line_spec(l, line, cols) == Some(vls@),
                show_numbers ==> gutter_width >= 1,
                j <= vls.len(),
                row0 <= screen_row <= height,
                row0 < height,
                before == rows_view(rows@).subrange(0, before.len() as int),
                target == rows_spec(
                    ls,
                    scroll_top as int,
                    0,
                    height as int,
                    text_width,
                    show_numbers,
                    gutter_width as int,
                    y0 as int,
                ),
                cols == wrap_columns(text_width),
                match rows_spec(
                    ls,
                    l as int,
                    row0,
                    height as int,
                    text_width,
                    show_numbers,
                    gutter_width as int,
                    y0 as int,
                ) {
                    Some(rest) => target == Some(before + rest),
                    None => target is None,
                },
                before.len() <= rows@.len(),
                rows_view(rows@).subrange(0, before.len() as int) == before,
                lr0 == line_rows(
                    line,
                    l as int,
                    vls@,
                    0,
                    row0,
                    height as int,
                    show_numbers,
                    gutter_width as int,
                    y0 as int,
                ),
                lr0 == match line_rows(
                    line,
                    l as int,
                    vls@,
                    j as int,
                    screen_row as int,
                    height as int,
                    show_numbers,
                    gutter_width as int,
                    y0 as int,
                ) {
                    Some((rest, e)) => Some(
                        (rows_view(rows@).subrange(before.len() as int, rows@.len() as int) + rest, e),
                    ),
                    None => None,
                },
            decreases vls.len() - j,
        {
            if screen_row > (u16::MAX - y0) as usize {
                proof {
                    assert(lr0 is None);
                    assert(rows_spec(
                        ls,
                        l as int,
                        row0,
                        height as int,
                        text_width,
                        show_numbers,
                        gutter_width as int,
                        y0 as int,
                    ) is None);
                }
                return None;
            }
            let vl = vls[j];
            let y = y0 + screen_row as u16;
            let gutter = if show_numbers && vl.is_first {
                Some(gutter_label_string(l + 1, gutter_width as usize - 1))
            } else {
                None
            };
            let text = segment_string(lines[l].as_str(), vl.start_col, vl.end_col);
            let ghost old_rows = rows_view(rows@);
            rows.push(ScreenRow { y, gutter, text });
            proof {
                let r = row_view(ScreenRow { y, gutter, text });
                assert(rows_view(rows@) =~= old_rows.push(r));
                assert(rows_view(rows@).subrange(0, before.len() as int) =~= before);
                let part_old = old_rows.subrange(before.len() as int, old_rows.len() as int);
                let part_new = rows_view(rows@).subrange(before.len() as int, rows@.len() as int);
                assert(part_new =~= part_old.push(r));
                match line_rows(
                    line,
                    l as int,
                    vls@,
                    j + 1,
                    screen_row + 1,
                    height as int,
                    show_numbers,
                    gutter_width as int,
                    y0 as int,
                ) {
                    Some((rest, e)) => {
                        assert(part_old + (seq![r] + rest) =~= part_new + rest);
                    },
                    None => {},
                }
            }
            screen_row = screen_row + 1;
            j = j + 1;
        }
        proof {
            let part = rows_view(rows@).subrange(before.len() as int, rows@.len() as int);
            assert(part + Seq::<RowView>::empty() =~= part);
            assert(lr0 == Some((part, screen_row as int)));
            assert(rows_view(rows@) =~= before + part);
            match rows_spec(
                ls,
                l + 1,
                screen_row as int,
                height as int,
                text_width,
                show_numbers,
                gutter_width as int,
                y0 as int,
            ) {
                Some(rest) => {
                    assert(before + (part + rest) =~= rows_view(rows@) + rest);
                },
                None => {},
            }
        }
        l = l + 1;
    }
    proof {
        assert(rows_view(rows@) + Seq::<RowView>::empty() =~= rows_view(rows@));
    }
    Some(rows)
}

/// A rectangle of terminal cells.
#[derive(Debug, Clone, Copy, PartialEq, Eq, Structural)]
pub struct Rect {
    pub x: u16,
    pub y: u16,
    pub width: u16,
    pub height: u16,
}

/// The cursor's column on screen within its line's visual lines: its
/// column from the start of the first of `vls[j..]` that holds it, or its
/// own column when none does.
pub open spec fn visual_col(vls: Seq<VisualLine>, col: int, j: int) -> int
    decreases vls.len() - j,
{
    if j >= vls.len() || j < 0 {
        col
    } else if vls[j].start_col <= col <= vls[j].end_col {
        col - vls[j].start_col
    } else {
        visual_col(vls, col, j + 1)
    }
}

/// Where the block cursor is drawn: `Some(Some(cell))` for a cell inside the
/// editing area, `Some(None)` when it is off screen, `None` where a screen
/// coordinate would pass `u16::MAX`.  The row is the cursor's line less the
/// first line shown (one row per logical line); the column comes from the
/// cursor's line wrapped to the text width, cut to 16 bits.
pub open spec fn cursor_spec(
    lines: Seq<Seq<char>>,
    line: usize,
    col: usize,
    scroll_top: usize,
    height: usize,
    text_width: usize,
    text_x: u16,
    area: Rect,
) -> Option<Option<(u16, u16)>> {
    let row = if line >= scroll_top {
        line - scroll_top
    } else {
        0
    };
    if row >= height {
        Some(None)
    } else {
        let text = if line < lines.len() {
            lines[line as int]
        } else {
            Seq::empty()
        };
        match wrap_line_spec(line, text, wrap_columns(text_width)) {
            None => None,
            Some(vls) => {
                let vc = visual_col(vls, col as int, 0);
                let cx = text_x + vc % 65536;
                let cy = area.y + row % 65536;
                if cx > u16::MAX || cy > u16::MAX || area.x + area.width > u16::MAX {
                    None
                } else if !(cx < area.x + area.width) {
                    Some(None)
                } else if area.y + area.height > u16::MAX {
                    None
                } else if cy < area.y + area.height {
                    Some(Some((cx as u16, cy as u16)))
                } else {
                    Some(None)
                }
            },
        }
    }
}

/// The cursor's column on screen within its line's visual lines.
fn find_visual_col(vls: &Vec<VisualLine>, col: usize) -> (r: usize)
    ensures
        r == visual_col(vls@, col as int, 0),
{
    let mut j: usize = 0;
    while j < vls.len()
        invariant
            j <= vls.len(),
            visual_col(vls@, col as int, j as int) == visual_col(vls@, col as int, 0),
        decreases vls.len() - j,
    {
        if col >= vls[j].start_col && col <= vls[j].end_col {
            return col - vls[j].start_col;
        }
        j = j + 1;
    }
    col
}

/// Where the block cursor is drawn (see `cursor_spec`).
pub fn cursor_cell(
    lines: &Vec<String>,
    line: usize,
    col: usize,
    scroll_top: usize,
    height: usize,
    text_width: usize,
    text_x: u16,
    area: Rect,
) -> (r: Option<Option<(u16, u16)>>)
    ensures
        r == cursor_spec(
            lines@.map_values(|s: String| s@),
            line,
            col,
            scroll_top,
            height,
            text_width,
            text_x,
            area,
        ),
{
    let row = line.saturating_sub(scroll_top);
    if row >= height {
        return Some(None);
    }
    let empty = String::new();
    let text: &String = if line < lines.len() {
        &lines[line]
    } else {
        &empty
    };
    let cols = if text_width == 0 {
        1
    } else {
        text_width
    };
    let vls = wrap_line(line, text.as_str(), cols);
    let vc = find_visual_col(&vls, col);
    let vc16 = (vc % 65536) as u16;
    let row16 = (row % 65536) as u16;
    if vc16 > u16::MAX - text_x || row16 > u16::MAX - area.y || area.width > u16::MAX - area.x {
        return None;
    }
    let cx = text_x + vc16;
    let cy = area.y + row16;
    if !(cx < area.x + area.width) {
        return Some(None);
    }
    if area.height > u16::MAX - area.y {
        return None;
    }
    if cy < area.y + area.height {
        Some(Some((cx, cy)))
    } else {
        Some(None)
    }
}

} // verus!
