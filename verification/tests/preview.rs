use text_editor::editor::preview::{decimal_string, render_preview, repeat_str, PreviewLine};
use text_editor::editor::style::{Color, Style, BOLD, ITALIC};

fn texts(line: &PreviewLine) -> Vec<String> {
    line.spans.iter().map(|s| s.content.clone()).collect()
}

fn is_blank(line: &PreviewLine) -> bool {
    line.spans.is_empty() && line.style == Style::new()
}

#[test]
fn heading_is_styled_and_followed_by_a_blank_line() {
    let lines = render_preview("# Title\n").unwrap();
    assert_eq!(lines.len(), 2);
    assert_eq!(texts(&lines[0]), vec!["Title"]);
    assert_eq!(lines[0].spans[0].style, Style::new().fg(Color::Yellow).add_modifier(BOLD));
    assert!(is_blank(&lines[1]));
}

#[test]
fn second_and_third_level_headings() {
    let lines = render_preview("## Two\n\n### Three\n").unwrap();
    assert_eq!(lines.len(), 4);
    assert_eq!(lines[0].spans[0].style, Style::new().fg(Color::Cyan).add_modifier(BOLD));
    assert_eq!(lines[2].spans[0].style, Style::new().add_modifier(BOLD));
}

#[test]
fn bullet_list_items_get_markers() {
    let lines = render_preview("- a\n- b\n").unwrap();
    assert_eq!(lines.len(), 2);
    assert_eq!(texts(&lines[0]), vec!["• ", "a"]);
    assert_eq!(texts(&lines[1]), vec!["• ", "b"]);
    assert_eq!(lines[0].spans[0].style, Style::new().fg(Color::Cyan));
    assert_eq!(lines[0].spans[1].style, Style::new());
}

#[test]
fn ordered_list_items_are_numbered_from_the_start() {
    let lines = render_preview("3. x\n4. y\n").unwrap();
    assert_eq!(texts(&lines[0]), vec!["3. ", "x"]);
    assert_eq!(texts(&lines[1]), vec!["4. ", "y"]);
}

#[test]
fn nested_list_items_are_indented() {
    let lines = render_preview("- a\n  - b\n").unwrap();
    assert_eq!(texts(&lines[0]), vec!["• ", "a", "  • ", "b"]);
}

#[test]
fn rule_is_a_line_of_dashes() {
    let lines = render_preview("---\n").unwrap();
    assert_eq!(lines.len(), 2);
    assert_eq!(texts(&lines[0]), vec!["─".repeat(40)]);
    assert_eq!(lines[0].style, Style::new().fg(Color::DarkGray));
    assert!(is_blank(&lines[1]));
}

#[test]
fn inline_code_and_emphasis() {
    let lines = render_preview("`x` *a* b\n").unwrap();
    assert_eq!(lines.len(), 2);
    assert_eq!(texts(&lines[0]), vec!["x", " ", "a", " b"]);
    assert_eq!(lines[0].spans[0].style, Style::new().fg(Color::Green));
    assert_eq!(lines[0].spans[2].style, Style::new().add_modifier(ITALIC));
    assert_eq!(lines[0].spans[3].style, Style::new().add_modifier(ITALIC).remove_modifier(ITALIC));
}

#[test]
fn bold_text() {
    let lines = render_preview("**b**\n").unwrap();
    assert_eq!(texts(&lines[0]), vec!["b"]);
    assert_eq!(lines[0].spans[0].style, Style::new().add_modifier(BOLD));
}

#[test]
fn block_quote_is_marked() {
    let lines = render_preview("> q\n").unwrap();
    assert_eq!(texts(&lines[0]), vec!["┃ ", "q"]);
    assert_eq!(lines[0].spans[0].style, Style::new().fg(Color::DarkGray));
    assert!(is_blank(&lines[1]));
    assert_eq!(lines.len(), 4);
}

#[test]
fn soft_breaks_become_spaces() {
    let lines = render_preview("one\ntwo\n").unwrap();
    assert_eq!(texts(&lines[0]), vec!["one", " ", "two"]);
}

#[test]
fn empty_document_has_no_lines() {
    assert_eq!(render_preview("").unwrap().len(), 0);
}

#[test]
fn decimal_and_repeat() {
    assert_eq!(decimal_string(0), "0");
    assert_eq!(decimal_string(1234567890), "1234567890");
    assert_eq!(decimal_string(u64::MAX), "18446744073709551615");
    assert_eq!(repeat_str("ab", 3), "ababab");
    assert_eq!(repeat_str("x", 0), "");
}

#[test]
fn ordered_list_from_zero_is_numbered() {
    let lines = render_preview("0. a\n1. b\n").unwrap();
    assert_eq!(lines.len(), 2);
    assert_eq!(texts(&lines[0]), vec!["0. ", "a"]);
    assert_eq!(texts(&lines[1]), vec!["1. ", "b"]);
}
