use vstd::prelude::*;

use crate::editor::style::{spans_view, Color, SpanView, Style, StyledSpan, BOLD, plain_style, with_modifier};

verus! {

/// The key hints shown, in order: a key and what it does.
pub open spec fn hints_spec() -> Seq<(Seq<char>, Seq<char>)> {
    seq![
        ("^S"@, "Save"@),
        ("^Q"@, "Quit"@),
        ("^B"@, "Bold"@),
        ("^I"@, "Italic"@),
        ("^`"@, "Code"@),
        ("^K"@, "Link"@),
        ("^P"@, "Preview"@),
        ("/"@, "Cmds"@),
        ("@"@, "Mention"@),
    ]
}

/// The key hints shown, in order.
pub fn hints() -> (r: Vec<(&'static str, &'static str)>)
    ensures
        r@.map_values(|h: (&str, &str)| (h.0@, h.1@)) == hints_spec(),
{
    let mut r: Vec<(&'static str, &'static str)> = Vec::new();
    r.push(("^S", "Save"));
    r.push(("^Q", "Quit"));
    r.push(("^B", "Bold"));
    r.push(("^I", "Italic"));
    r.push(("^`", "Code"));
    r.push(("^K", "Link"));
    r.push(("^P", "Preview"));
    r.push(("/", "Cmds"));
    r.push(("@", "Mention"));
    assert(r@.map_values(|h: (&str, &str)| (h.0@, h.1@)) =~= hints_spec());
    r
}

/// The style of a key: bold white on blue.
pub open spec fn key_style() -> Style {
    with_modifier(Style { fg: Some(Color::White), bg: Some(Color::Blue), ..plain_style() }, BOLD)
}

/// The style of a key's description: white on black.
pub open spec fn label_style() -> Style {
    Style { fg: Some(Color::White), bg: Some(Color::Black), ..plain_style() }
}

/// The spans of the bar for the first `k` hints: each key padded with a
/// space on both sides in the key style, then its description and a space
/// in the label style.
pub open spec fn help_spans_spec(k: int) -> Seq<SpanView>
    decreases k,
{
    if k <= 0 {
        Seq::empty()
    } else {
        let h = hints_spec()[k - 1];
        help_spans_spec(k - 1).push(SpanView { content: " "@ + h.0 + " "@, style: key_style() }).push(
            SpanView { content: h.1 + " "@, style: label_style() },
        )
    }
}

/// A single-row help hints bar showing common key bindings.
pub struct HelpBar;

impl HelpBar {
    /// The styled text of the bar.
    pub fn spans(&self) -> (r: Vec<StyledSpan>)
        ensures
            spans_view(r@) == help_spans_spec(9),
    {
        let key_st = Style::new().bg(Color::Blue).fg(Color::White).add_modifier(BOLD);
        let label_st = Style::new().bg(Color::Black).fg(Color::White);
        let list = hints();
        let mut spans: Vec<StyledSpan> = Vec::new();
        let mut i: usize = 0;
        assert(spans_view(spans@) =~= help_spans_spec(0));
        while i < list.len()
            invariant
                i <= list.len(),
                list@.map_values(|h: (&str, &str)| (h.0@, h.1@)) == hints_spec(),
                key_st == key_style(),
                label_st == label_style(),
                spans_view(spans@) == help_spans_spec(i as int),
            decreases list.len() - i,
        {
            let (key, label) = list[i];
            assert((key@, label@) == hints_spec()[i as int]);
            let ghost before = spans_view(spans@);
            spans.push(StyledSpan { content: String::from_str(" ").concat(key).concat(" "), style: key_st });
            spans.push(StyledSpan { content: String::from_str(label).concat(" "), style: label_st });
            assert(spans_view(spans@) =~= help_spans_spec(i + 1));
            i = i + 1;
        }
        assert(list@.map_values(|h: (&str, &str)| (h.0@, h.1@)).len() == 9);
        spans
    }
}

} // verus!
