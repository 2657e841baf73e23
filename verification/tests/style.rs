use text_editor::editor::style::{Color, Style, BOLD, ITALIC, UNDERLINED};

#[test]
fn builders_set_colours_and_modifiers() {
    let s = Style::new().fg(Color::Red).bg(Color::Rgb(1, 2, 3)).add_modifier(BOLD | ITALIC);
    assert_eq!(s.fg, Some(Color::Red));
    assert_eq!(s.bg, Some(Color::Rgb(1, 2, 3)));
    assert_eq!(s.add_modifier, BOLD | ITALIC);
    assert_eq!(s.sub_modifier, 0);
    assert_eq!(Style::default(), Style::new());
}

#[test]
fn add_then_remove_a_modifier() {
    let s = Style::new().fg(Color::Cyan).add_modifier(UNDERLINED | BOLD);
    let t = s.add_modifier(ITALIC).remove_modifier(ITALIC);
    assert_eq!(t.fg, Some(Color::Cyan));
    assert_eq!(t.add_modifier & ITALIC, 0);
    assert_eq!(t.sub_modifier & ITALIC, ITALIC);
    assert_eq!(t.add_modifier, UNDERLINED | BOLD);
}

#[test]
fn removing_then_adding_clears_the_removal() {
    let s = Style::new().remove_modifier(BOLD).add_modifier(BOLD);
    assert_eq!(s.add_modifier, BOLD);
    assert_eq!(s.sub_modifier, 0);
}
