//! Text styles as plain values: a foreground and background colour and
//! the text modifiers added or removed, as the terminal drawing layer has
//! them.
use vstd::prelude::*;

verus! {

/// A terminal colour.
#[derive(Debug, Clone, Copy, PartialEq, Eq, Structural)]
pub enum Color {
    Reset,
    Black,
    Red,
    Green,
    Yellow,
    Blue,
    Magenta,
    Cyan,
    Gray,
    DarkGray,
    LightRed,
    LightGreen,
    LightYellow,
    LightBlue,
    LightMagenta,
    LightCyan,
    White,
    Rgb(u8, u8, u8),
    Indexed(u8),
}

/// Bold text.
pub const BOLD: u16 = 1;
/// Dimmed text.
pub const DIM: u16 = 2;
/// Italic text.
pub const ITALIC: u16 = 4;
/// Underlined text.
pub const UNDERLINED: u16 = 8;
/// Slowly blinking text.
pub const SLOW_BLINK: u16 = 16;
/// Rapidly blinking text.
pub const RAPID_BLINK: u16 = 32;
/// Text with foreground and background swapped.
pub const REVERSED: u16 = 64;
/// Hidden text.
pub const HIDDEN: u16 = 128;
/// Struck-through text.
pub const CROSSED_OUT: u16 = 256;

/// A style: colours (`None` leaves the underlying colour) and the
/// modifier bits it turns on and off.
#[derive(Debug, Clone, Copy, PartialEq, Eq, Structural)]
pub struct Style {
    pub fg: Option<Color>,
    pub bg: Option<Color>,
    pub add_modifier: u16,
    pub sub_modifier: u16,
}

impl Style {
    /// The style that changes nothing.
    pub fn new() -> (s: Style)
        ensures
            s == plain_style(),
    {
        Style { fg: None, bg: None, add_modifier: 0, sub_modifier: 0 }
    }

    /// This style with foreground colour `c`.
    pub fn fg(self, c: Color) -> (s: Style)
        ensures
            s == (Style { fg: Some(c), ..self }),
    {
        Style { fg: Some(c), ..self }
    }

    /// This style with background colour `c`.
    pub fn bg(self, c: Color) -> (s: Style)
        ensures
            s == (Style { bg: Some(c), ..self }),
    {
        Style { bg: Some(c), ..self }
    }

    /// This style with the modifiers `m` turned on (and no longer turned off).
    pub fn add_modifier(self, m: u16) -> (s: Style)
        ensures
            s == with_modifier(self, m),
    {
        Style { add_modifier: self.add_modifier | m, sub_modifier: self.sub_modifier & !m, ..self }
    }

    /// This style with the modifiers `m` turned off (and no longer turned on).
    pub fn remove_modifier(self, m: u16) -> (s: Style)
        ensures
            s == without_modifier(self, m),
    {
        Style { add_modifier: self.add_modifier & !m, sub_modifier: self.sub_modifier | m, ..self }
    }
}

impl Default for Style {
    fn default() -> (s: Style)
        ensures
            s == plain_style(),
    {
        Style::new()
    }
}

/// The style that changes nothing.
pub open spec fn plain_style() -> Style {
    Style { fg: None, bg: None, add_modifier: 0, sub_modifier: 0 }
}

/// `s` with the modifiers `m` turned on.
pub open spec fn with_modifier(s: Style, m: u16) -> Style {
    Style { add_modifier: s.add_modifier | m, sub_modifier: s.sub_modifier & !m, ..s }
}

/// `s` with the modifiers `m` turned off.
pub open spec fn without_modifier(s: Style, m: u16) -> Style {
    Style { add_modifier: s.add_modifier & !m, sub_modifier: s.sub_modifier | m, ..s }
}

/// Turning a modifier on and then off again leaves a style whose colours
/// are unchanged and that turns the modifier off, whatever it did before.
pub proof fn law_add_then_remove_modifier(s: Style, m: u16)
    ensures
        without_modifier(with_modifier(s, m), m).fg == s.fg,
        without_modifier(with_modifier(s, m), m).bg == s.bg,
        without_modifier(with_modifier(s, m), m).add_modifier & m == 0,
        without_modifier(with_modifier(s, m), m).sub_modifier & m == m,
{
    let a = s.add_modifier;
    let b = s.sub_modifier;
    assert(((a | m) & !m) & m == 0) by (bit_vector);
    assert(((b & !m) | m) & m == m) by (bit_vector);
}

/// A run of text in one style.
#[derive(Debug, Clone)]
pub struct StyledSpan {
    pub content: String,
    pub style: Style,
}

/// The content of a span.
pub struct SpanView {
    pub content: Seq<char>,
    pub style: Style,
}

/// The content of a span.
pub open spec fn span_view(s: StyledSpan) -> SpanView {
    SpanView { content: s.content@, style: s.style }
}

/// The contents of spans.
pub open spec fn spans_view(v: Seq<StyledSpan>) -> Seq<SpanView> {
    v.map_values(|s: StyledSpan| span_view(s))
}

} // verus!
