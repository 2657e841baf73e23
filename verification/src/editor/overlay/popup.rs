//! What a popup shows: where it goes on screen and the text of its rows.
use vstd::prelude::*;

use crate::editor::preview::{repeat_str, repeated};
use crate::editor::view::Rect;

verus! {

/// One row of a popup: its text, and whether it is the highlighted entry.
pub struct PopupRow {
    pub text: String,
    pub highlighted: bool,
}

/// The content of a popup row.
pub struct PopupRowView {
    pub text: Seq<char>,
    pub highlighted: bool,
}

pub open spec fn popup_rows_view(v: Seq<PopupRow>) -> Seq<PopupRowView> {
    v.map_values(|r: PopupRow| PopupRowView { text: r.text@, highlighted: r.highlighted })
}

/// Where a popup listing `n` entries goes in `area`: at its top-left
/// corner, at most 36 cells wide, and as tall as its entries and its two
/// border rows (the count taken modulo 2^16), cut to the area.
pub open spec fn popup_area(area: Rect, n: nat) -> Rect {
    let h = n % 65536 + 2;
    Rect {
        x: area.x,
        y: area.y,
        width: if area.width < 36 {
            area.width
        } else {
            36
        },
        height: if h < area.height {
            h as u16
        } else {
            area.height
        },
    }
}

/// Where a popup listing `n` entries goes in `area` (see `popup_area`).
pub fn popup_rect(area: Rect, n: usize) -> (r: Rect)
    requires
        n % 65536 + 2 <= u16::MAX,
    ensures
        r == popup_area(area, n as nat),
{
    let count = (n % 65536) as u16;
    let h = count + 2;
    Rect {
        x: area.x,
        y: area.y,
        width: if area.width < 36 {
            area.width
        } else {
            36
        },
        height: if h < area.height {
            h
        } else {
            area.height
        },
    }
}

/// `s` padded with spaces on the right to `w` characters (unchanged when it
/// is that long already).
pub open spec fn padded(s: Seq<char>, w: nat) -> Seq<char> {
    if s.len() < w {
        s + repeated(" "@, (w - s.len()) as nat)
    } else {
        s
    }
}

/// `s` padded with spaces on the right to `w` characters (see `padded`).
pub fn pad_string(s: &str, w: usize) -> (r: String)
    ensures
        r@ == padded(s@, w as nat),
{
    let n = s.unicode_len();
    proof {
        reveal_strlit(" ");
    }
    if n < w {
        String::from_str(s).concat(repeat_str(" ", w - n).as_str())
    } else {
        String::from_str(s)
    }
}

} // verus!
