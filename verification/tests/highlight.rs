use text_editor::editor::highlight::{highlight_buffer, MarkdownTheme};
use text_editor::editor::style::{Color, BOLD, ITALIC};

#[test]
fn heading_produces_styled_range() {
    let theme = MarkdownTheme::default();
    let spans = highlight_buffer("# Hello\n", &theme);
    // The heading line should have at least one styled range.
    assert!(
        !spans[0].is_empty(),
        "expected styled ranges for heading line"
    );
}

#[test]
fn heading_range_covers_heading_text() {
    let theme = MarkdownTheme::default();
    let spans = highlight_buffer("# Hello\n", &theme);
    assert_eq!(spans.len(), 1);
    assert_eq!(spans[0][0].start_col, 2);
    assert_eq!(spans[0][0].end_col, 7);
    assert_eq!(spans[0][0].style, theme.heading);
    assert_eq!(theme.heading.fg, Some(Color::Yellow));
    assert_eq!(theme.heading.add_modifier & BOLD, BOLD);
}

#[test]
fn emphasis_and_code_are_styled() {
    let theme = MarkdownTheme::default();
    let spans = highlight_buffer("a *b* `c`", &theme);
    assert_eq!(spans.len(), 1);
    let italic = spans[0].iter().find(|r| r.style == theme.italic).unwrap();
    assert_eq!((italic.start_col, italic.end_col), (3, 4));
    assert_eq!(theme.italic.add_modifier, ITALIC);
    let code = spans[0].iter().find(|r| r.style == theme.code).unwrap();
    assert_eq!((code.start_col, code.end_col), (6, 9));
}

#[test]
fn empty_document_has_one_line() {
    let theme = MarkdownTheme::default();
    let spans = highlight_buffer("", &theme);
    assert_eq!(spans.len(), 1);
    assert!(spans[0].is_empty());
}

#[test]
fn one_span_list_per_line() {
    let theme = MarkdownTheme::default();
    assert_eq!(highlight_buffer("a\nb\nc", &theme).len(), 3);
    assert_eq!(highlight_buffer("a\nb\n", &theme).len(), 2);
    assert_eq!(highlight_buffer("\n\n", &theme).len(), 2);
}

#[test]
fn bold_on_a_later_line() {
    let theme = MarkdownTheme::default();
    let spans = highlight_buffer("plain\n**bold**\n", &theme);
    assert_eq!(spans.len(), 2);
    assert!(spans[0].is_empty());
    assert_eq!(spans[1].len(), 1);
    assert_eq!((spans[1][0].start_col, spans[1][0].end_col), (2, 6));
    assert_eq!(spans[1][0].style, theme.bold);
}

#[test]
fn block_quote_text_is_dimmed() {
    let theme = MarkdownTheme::default();
    let spans = highlight_buffer("> quoted\n", &theme);
    assert_eq!(spans[0].len(), 1);
    assert_eq!((spans[0][0].start_col, spans[0][0].end_col), (2, 8));
    assert_eq!(spans[0][0].style, theme.blockquote);
    assert_eq!(theme.blockquote.fg, Some(Color::DarkGray));
}

#[test]
fn plain_paragraph_has_no_ranges() {
    let theme = MarkdownTheme::default();
    let spans = highlight_buffer("just words", &theme);
    assert!(spans[0].is_empty());
}

#[test]
fn columns_count_characters_not_bytes() {
    let theme = MarkdownTheme::default();
    // "é" takes two bytes but one column.
    let spans = highlight_buffer("# héllo", &theme);
    assert_eq!(spans.len(), 1);
    let heading = spans[0].iter().find(|r| r.style == theme.heading).unwrap();
    assert_eq!((heading.start_col, heading.end_col), (2, 7));
    assert!(spans[0].iter().all(|r| r.end_col <= 7));
    // Inline code after a multi-byte character.
    let spans = highlight_buffer("é `c`", &theme);
    let code = spans[0].iter().find(|r| r.style == theme.code).unwrap();
    assert_eq!((code.start_col, code.end_col), (2, 5));
}
