use vstd::prelude::*;
use vstd::string::StringSliceAdditionalSpecFns;

use crate::editor::preview::{decimal, decimal_string, repeat_str, repeated};
use crate::editor::style::{spans_view, Color, SpanView, Style, StyledSpan, plain_style};

verus! {

/// The bottom status bar showing filename, modified indicator, and cursor
/// position.
pub struct StatusBar {
    pub file_name: String,
    pub is_dirty: bool,
    pub line: usize,
    pub col: usize,
}

/// The left part: the file name, marked `[+]` when modified.
pub open spec fn status_left(file_name: Seq<char>, is_dirty: bool) -> Seq<char> {
    " "@ + file_name + if is_dirty {
        " [+]"@
    } else {
        Seq::empty()
    }
}

/// The right part: the cursor's line and column.
pub open spec fn status_right(line: usize, col: usize) -> Seq<char> {
    "Ln "@ + decimal(line as nat) + ", Col "@ + decimal(col as nat) + " "@
}

/// The byte length of a text in UTF-8, as `str::len` reports it.
pub open spec fn byte_len(s: Seq<char>) -> int {
    (vstd::utf8::encode_utf8(s).len() as usize) as int
}

pub open spec fn min_of(a: int, b: int) -> int {
    if a <= b {
        a
    } else {
        b
    }
}

/// A bar's parts fit the width: the left and right parts, each cut to the
/// width, take no more than the width together.
pub open spec fn parts_fit(file_name: Seq<char>, is_dirty: bool, line: usize, col: usize, width: u16) -> bool {
    min_of(byte_len(status_left(file_name, is_dirty)), width as int) + min_of(
        byte_len(status_right(line, col)),
        width as int,
    ) <= width
}

/// The bar's parts fit the width (see `parts_fit`).
pub open spec fn status_fits(bar: StatusBar, width: u16) -> bool {
    parts_fit(bar.file_name@, bar.is_dirty, bar.line, bar.col, width)
}

/// The styled text of a bar `width` cells wide: the left part, spaces
/// filling what the two parts leave of the width (counted in bytes), and
/// the right part, all white on dark grey.
pub open spec fn status_spans(file_name: Seq<char>, is_dirty: bool, line: usize, col: usize, width: u16) -> Seq<
    SpanView,
> {
    let left = status_left(file_name, is_dirty);
    let right = status_right(line, col);
    seq![
        SpanView { content: left, style: bar_style() },
        SpanView {
            content: repeated(
                " "@,
                (width - min_of(byte_len(left), width as int) - min_of(byte_len(right), width as int)) as nat,
            ),
            style: bar_style(),
        },
        SpanView { content: right, style: bar_style() },
    ]
}

/// The style of the whole bar: white on dark grey.
pub open spec fn bar_style() -> Style {
    Style { fg: Some(Color::White), bg: Some(Color::DarkGray), ..plain_style() }
}

impl StatusBar {
    /// Whether the bar's parts fit a row `width` cells wide (see
    /// `status_fits`).
    pub fn fits(&self, width: u16) -> (r: bool)
        ensures
            r == status_fits(*self, width),
    {
        let modified = if self.is_dirty {
            " [+]"
        } else {
            ""
        };
        proof {
            reveal_strlit("");
            assert(""@ =~= Seq::<char>::empty());
        }
        let left = String::from_str(" ").concat(self.file_name.as_str()).concat(modified);
        let line_str = decimal_string(self.line as u64);
        let col_str = decimal_string(self.col as u64);
        let right = String::from_str("Ln ").concat(line_str.as_str()).concat(", Col ").concat(
            col_str.as_str(),
        ).concat(" ");
        let w = width as usize;
        let left_len = left.as_str().len();
        let right_len = right.as_str().len();
        let l = if left_len < w {
            left_len
        } else {
            w
        };
        let rr = if right_len < w {
            right_len
        } else {
            w
        };
        assert(left@ == status_left(self.file_name@, self.is_dirty));
        assert(right@ == status_right(self.line, self.col));
        l + rr <= w
    }

    /// The styled text of the bar for a row `width` cells wide: the left
    /// part, spaces filling what the two parts leave of the width (counted
    /// in bytes), and the right part.
    pub fn spans(&self, width: u16) -> (r: Vec<StyledSpan>)
        requires
            status_fits(*self, width),
        ensures
            spans_view(r@) == status_spans(self.file_name@, self.is_dirty, self.line, self.col, width),
    {
        let modified = if self.is_dirty {
            " [+]"
        } else {
            ""
        };
        proof {
            reveal_strlit("");
            assert(""@ =~= Seq::<char>::empty());
        }
        let left = String::from_str(" ").concat(self.file_name.as_str()).concat(modified);
        let line_str = decimal_string(self.line as u64);
        let col_str = decimal_string(self.col as u64);
        let right = String::from_str("Ln ").concat(line_str.as_str()).concat(", Col ").concat(
            col_str.as_str(),
        ).concat(" ");
        let w = width as usize;
        let left_len = left.as_str().len();
        let right_len = right.as_str().len();
        let l = if left_len < w {
            left_len
        } else {
            w
        };
        let rr = if right_len < w {
            right_len
        } else {
            w
        };
        let padding = w - l - rr;
        let pad = if padding < w {
            padding
        } else {
            w
        };
        let middle = repeat_str(" ", pad);
        let style = Style::new().bg(Color::DarkGray).fg(Color::White);
        assert(left@ == status_left(self.file_name@, self.is_dirty));
        assert(right@ == status_right(self.line, self.col));
        assert(left_len == byte_len(left@));
        assert(middle@ == repeated(" "@, (width - min_of(byte_len(status_left(self.file_name@, self.is_dirty)), width as int)
                            - min_of(byte_len(status_right(self.line, self.col)), width as int)) as nat));
        assert(style == bar_style());
        let mut r: Vec<StyledSpan> = Vec::new();
        r.push(StyledSpan { content: left, style });
        r.push(StyledSpan { content: middle, style });
        r.push(StyledSpan { content: right, style });
        assert(spans_view(r@) =~= status_spans(self.file_name@, self.is_dirty, self.line, self.col, width));
        r
    }
}

} // verus!
