use text_editor::editor::render::render_plan;
use text_editor::editor::style::{Color, Style, BOLD};
use text_editor::editor::view::{cursor_cell, gutter_label_string, segment_string, visible_rows, Rect};
use text_editor::editor::MarkdownEditor;
use text_editor::text::{split_lines, starts_with, trimmed_len};
use text_editor::ui::help_bar::HelpBar;
use text_editor::ui::status_bar::StatusBar;

fn lines(v: &[&str]) -> Vec<String> {
    v.iter().map(|s| s.to_string()).collect()
}

#[test]
fn split_lines_like_str_lines() {
    assert_eq!(split_lines("a\r\nb\n"), lines(&["a", "b"]));
    assert_eq!(split_lines("x\n\ny"), lines(&["x", "", "y"]));
    assert_eq!(split_lines(""), Vec::<String>::new());
    assert_eq!(split_lines("\n"), lines(&[""]));
    assert_eq!(split_lines("a\rb"), lines(&["a\rb"]));
}

#[test]
fn small_text_helpers() {
    assert_eq!(trimmed_len("ab\n\n"), 2);
    assert_eq!(trimmed_len("ab\r\n"), 3);
    assert!(starts_with("hello", "he"));
    assert!(!starts_with("he", "hello"));
    assert_eq!(segment_string("hello world", 6, 11), "world");
    assert_eq!(segment_string("hello", 3, 99), "lo");
    assert_eq!(segment_string("hello", 7, 9), "");
}

#[test]
fn gutter_labels_are_right_aligned() {
    assert_eq!(gutter_label_string(7, 3), "  7 ");
    assert_eq!(gutter_label_string(1234, 2), "1234 ");
}

#[test]
fn rows_wrap_and_number_lines() {
    let ls = lines(&["hello world", "x"]);
    let rows = visible_rows(&ls, 0, 10, 7, true, 2, 3).unwrap();
    assert_eq!(rows.len(), 3);
    assert_eq!(rows[0].text, "hello");
    assert_eq!(rows[0].gutter.as_deref(), Some("1 "));
    assert_eq!(rows[0].y, 3);
    assert_eq!(rows[1].text, "world");
    assert_eq!(rows[1].gutter, None);
    assert_eq!(rows[2].text, "x");
    assert_eq!(rows[2].gutter.as_deref(), Some("2 "));
    assert_eq!(rows[2].y, 5);
}

#[test]
fn rows_stop_at_the_height_and_start_at_the_scroll() {
    let ls = lines(&["a", "b", "c", "d"]);
    let rows = visible_rows(&ls, 1, 2, 10, false, 0, 0).unwrap();
    assert_eq!(rows.len(), 2);
    assert_eq!(rows[0].text, "b");
    assert_eq!(rows[1].text, "c");
}

#[test]
fn cursor_cell_within_and_outside_the_area() {
    let ls = lines(&["hello world"]);
    let area = Rect { x: 0, y: 1, width: 20, height: 3 };
    // Column 8 lies in the second visual line ("world" starts at 6).
    assert_eq!(cursor_cell(&ls, 0, 8, 0, 3, 7, 0, area), Some(Some((2, 1))));
    assert_eq!(cursor_cell(&ls, 0, 2, 0, 3, 7, 0, area), Some(Some((2, 1))));
    // A line below the screen has no cell.
    assert_eq!(cursor_cell(&ls, 5, 0, 0, 3, 7, 0, area), Some(None));
}

#[test]
fn status_bar_pads_between_its_parts() {
    let bar = StatusBar { file_name: "a.md".to_string(), is_dirty: true, line: 3, col: 14 };
    assert!(bar.fits(30));
    let spans = bar.spans(30);
    assert_eq!(spans.len(), 3);
    assert_eq!(spans[0].content, " a.md [+]");
    assert_eq!(spans[2].content, "Ln 3, Col 14 ");
    assert_eq!(spans[1].content, " ".repeat(30 - 9 - 13));
    assert_eq!(spans[0].style, Style::new().bg(Color::DarkGray).fg(Color::White));
    let clean = StatusBar { file_name: "a.md".to_string(), is_dirty: false, line: 1, col: 1 };
    assert!(!clean.fits(10));
}

#[test]
fn help_bar_lists_the_hints() {
    let spans = HelpBar.spans();
    assert_eq!(spans.len(), 18);
    assert_eq!(spans[0].content, " ^S ");
    assert_eq!(spans[1].content, "Save ");
    assert_eq!(spans[17].content, "Mention ");
    assert_eq!(spans[0].style, Style::new().bg(Color::Blue).fg(Color::White).add_modifier(BOLD));
    assert_eq!(spans[1].style, Style::new().bg(Color::Black).fg(Color::White));
}

#[test]
fn render_plan_lays_out_the_editor() {
    let mut editor = MarkdownEditor::with_template("hello\nworld".to_string());
    let area = Rect { x: 0, y: 0, width: 40, height: 5 };
    let plan = render_plan(editor.state_mut(), area).unwrap();
    let (help_area, help) = plan.help.unwrap();
    assert_eq!(help_area, Rect { x: 0, y: 0, width: 40, height: 1 });
    assert_eq!(help.len(), 18);
    let (status_area, status) = plan.status.unwrap();
    assert_eq!(status_area, Rect { x: 0, y: 4, width: 40, height: 1 });
    assert_eq!(status[0].content, " [No Name] [+]");
    assert_eq!(status[2].content, "Ln 1, Col 1 ");
    assert_eq!(plan.edit_area, Rect { x: 0, y: 1, width: 40, height: 3 });
    assert_eq!(plan.gutter_width, 0);
    assert_eq!(plan.rows.len(), 2);
    assert_eq!(plan.rows[0].text, "hello");
    assert_eq!(plan.rows[1].text, "world");
    assert_eq!(plan.rows[1].y, 2);
    assert_eq!(plan.cursor, Some((0, 1)));
    assert!(plan.preview.is_none());
    assert_eq!(editor.state().viewport.height, 3);
    assert_eq!(editor.state().viewport.width, 40);
    // The highlight cache is rebuilt to one list per line.
    assert_eq!(editor.state().highlight_cache.len(), 2);
}

#[test]
fn render_plan_with_numbers_and_preview() {
    let mut editor = MarkdownEditor::open_contents("docs/a.md".to_string(), "# T\n");
    editor.set_line_numbers_visible(true);
    editor.set_preview_visible(true);
    let area = Rect { x: 0, y: 0, width: 60, height: 6 };
    let plan = render_plan(editor.state_mut(), area).unwrap();
    assert_eq!(plan.status.unwrap().1[0].content, " a.md");
    // Two lines: one digit and a space.
    assert_eq!(plan.gutter_width, 2);
    assert_eq!(plan.text_x, plan.edit_area.x + 2);
    assert_eq!(plan.edit_area.width, 30);
    assert_eq!(plan.rows[0].gutter.as_deref(), Some("1 "));
    assert_eq!(plan.rows[0].text, "# T");
    let (preview_area, preview) = plan.preview.unwrap();
    assert_eq!(preview_area.x, 30);
    assert_eq!(preview[0].spans[0].content, "T");
}

#[test]
fn render_plan_refuses_a_status_bar_that_does_not_fit() {
    let mut editor = MarkdownEditor::with_template("hello".to_string());
    let before = editor.state().viewport.height;
    let area = Rect { x: 0, y: 0, width: 20, height: 5 };
    assert!(render_plan(editor.state_mut(), area).is_none());
    // Nothing was changed.
    assert_eq!(editor.state().viewport.height, before);
    assert_eq!(editor.state().highlight_cache.len(), 0);
}

#[test]
fn render_plan_scrolls_to_the_cursor() {
    let mut editor = MarkdownEditor::open_contents("a".to_string(), "1\n2\n3\n4\n5\n6\n");
    for _ in 0..5 {
        let k = text_editor::editor::input::KeyEvent {
            code: text_editor::editor::input::KeyCode::Down,
            modifiers: 0,
        };
        editor.handle_key_event(k);
    }
    let area = Rect { x: 0, y: 0, width: 40, height: 5 };
    let plan = render_plan(editor.state_mut(), area).unwrap();
    assert_eq!(editor.state().viewport.scroll_top, 3);
    assert_eq!(plan.rows[0].text, "4");
    assert_eq!(plan.cursor, Some((0, 3)));
}

#[test]
fn editing_rows_lie_between_help_and_status() {
    let mut editor = MarkdownEditor::open_contents("a".to_string(), "1\n2\n3\n4\n5\n6\n7\n8\n");
    for _ in 0..7 {
        let k = text_editor::editor::input::KeyEvent {
            code: text_editor::editor::input::KeyCode::Down,
            modifiers: 0,
        };
        assert!(editor.key_is_defined(k));
        editor.handle_key_event(k);
    }
    let area = Rect { x: 2, y: 3, width: 50, height: 6 };
    let plan = render_plan(editor.state_mut(), area).unwrap();
    assert_eq!(plan.help.unwrap().0, Rect { x: 2, y: 3, width: 50, height: 1 });
    assert_eq!(plan.edit_area, Rect { x: 2, y: 4, width: 50, height: 4 });
    assert_eq!(plan.status.unwrap().0, Rect { x: 2, y: 8, width: 50, height: 1 });
    let vp = &editor.state().viewport;
    assert_eq!((vp.height, vp.width), (4, 50));
    let line = editor.state().cursor.pos.line;
    assert_eq!(line, 7);
    assert!(vp.scroll_top <= line && line < vp.scroll_top + vp.height);
}
