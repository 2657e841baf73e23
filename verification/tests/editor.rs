use text_editor::editor::cursor::Position;
use text_editor::editor::overlay::slash_command::{SlashAction, SlashCommand};
use text_editor::editor::input::{KeyCode, KeyEvent, CONTROL, SHIFT};
use text_editor::editor::{EditorResult, InputEvent, MarkdownEditor, MouseEvent};

fn key(code: KeyCode) -> KeyEvent {
    KeyEvent { code, modifiers: 0 }
}

fn ctrl(c: char) -> KeyEvent {
    KeyEvent { code: KeyCode::Char(c), modifiers: CONTROL }
}

fn press(editor: &mut MarkdownEditor, k: KeyEvent) -> EditorResult {
    assert!(editor.key_is_defined(k));
    editor.handle_key_event(k)
}

fn type_str(editor: &mut MarkdownEditor, s: &str) {
    for c in s.chars() {
        assert_eq!(press(editor, key(KeyCode::Char(c))), EditorResult::Consumed);
    }
}

fn cursor(editor: &MarkdownEditor) -> Position {
    editor.state().cursor.pos
}

#[test]
fn new_editor_is_empty_and_clean() {
    let editor = MarkdownEditor::new();
    assert_eq!(editor.get_text(), "");
    assert!(!editor.is_dirty());
    assert_eq!(cursor(&editor), Position::new(0, 0));
    assert!(!editor.state().config.show_preview);
    assert!(!editor.state().config.show_line_numbers);
    assert_eq!(editor.state().config.tab_width, 4);
}

#[test]
fn template_editor_is_dirty() {
    let editor = MarkdownEditor::with_template("# Title\n".to_string());
    assert_eq!(editor.get_text(), "# Title\n");
    assert!(editor.is_dirty());
}

#[test]
fn opened_contents_are_clean() {
    let editor = MarkdownEditor::open_contents("notes.md".to_string(), "hello\n");
    assert_eq!(editor.get_text(), "hello\n");
    assert!(!editor.is_dirty());
    assert_eq!(editor.state().buffer.file_path(), Some("notes.md"));
}

#[test]
fn set_text_then_get_text_gives_it_back() {
    let mut editor = MarkdownEditor::new();
    type_str(&mut editor, "xy");
    editor.set_text("new text".to_string());
    assert_eq!(editor.get_text(), "new text");
    assert_eq!(cursor(&editor), Position::new(0, 0));
    assert!(!editor.state().history.can_undo());
}

#[test]
fn typing_inserts_and_advances() {
    let mut editor = MarkdownEditor::new();
    type_str(&mut editor, "Hi");
    assert_eq!(editor.get_text(), "Hi");
    assert_eq!(cursor(&editor), Position::new(0, 2));
    assert!(editor.is_dirty());
}

#[test]
fn enter_starts_a_new_line() {
    let mut editor = MarkdownEditor::new();
    type_str(&mut editor, "ab");
    assert_eq!(press(&mut editor, key(KeyCode::Enter)), EditorResult::Consumed);
    type_str(&mut editor, "c");
    assert_eq!(editor.get_text(), "ab\nc");
    assert_eq!(cursor(&editor), Position::new(1, 1));
}

#[test]
fn backspace_joins_lines() {
    let mut editor = MarkdownEditor::with_template("ab\ncd".to_string());
    // Move to the start of the second line.
    press(&mut editor, key(KeyCode::Down));
    assert_eq!(cursor(&editor), Position::new(1, 0));
    press(&mut editor, key(KeyCode::Backspace));
    assert_eq!(editor.get_text(), "abcd");
    assert_eq!(cursor(&editor), Position::new(0, 2));
}

#[test]
fn backspace_at_start_does_nothing() {
    let mut editor = MarkdownEditor::with_template("ab".to_string());
    assert_eq!(press(&mut editor, key(KeyCode::Backspace)), EditorResult::Consumed);
    assert_eq!(editor.get_text(), "ab");
    assert_eq!(cursor(&editor), Position::new(0, 0));
}

#[test]
fn delete_removes_the_character_under_the_cursor() {
    let mut editor = MarkdownEditor::with_template("abc".to_string());
    press(&mut editor, key(KeyCode::Delete));
    assert_eq!(editor.get_text(), "bc");
    assert_eq!(cursor(&editor), Position::new(0, 0));
    press(&mut editor, key(KeyCode::End));
    press(&mut editor, key(KeyCode::Delete));
    assert_eq!(editor.get_text(), "bc");
}

#[test]
fn typing_then_backspace_restores_the_text() {
    let mut editor = MarkdownEditor::open_contents("a.md".to_string(), "one\ntwo");
    press(&mut editor, key(KeyCode::Down));
    press(&mut editor, key(KeyCode::Right));
    type_str(&mut editor, "X");
    assert_eq!(editor.get_text(), "one\ntXwo");
    assert!(editor.is_dirty());
    press(&mut editor, key(KeyCode::Backspace));
    assert_eq!(editor.get_text(), "one\ntwo");
    assert_eq!(cursor(&editor), Position::new(1, 1));
    // Back to the text it was opened with: clean again.
    assert!(!editor.is_dirty());
}

#[test]
fn arrows_wrap_between_lines() {
    let mut editor = MarkdownEditor::with_template("ab\ncd".to_string());
    press(&mut editor, key(KeyCode::End));
    assert_eq!(cursor(&editor), Position::new(0, 2));
    press(&mut editor, key(KeyCode::Right));
    assert_eq!(cursor(&editor), Position::new(1, 0));
    press(&mut editor, key(KeyCode::Left));
    assert_eq!(cursor(&editor), Position::new(0, 2));
    press(&mut editor, key(KeyCode::Left));
    assert_eq!(cursor(&editor), Position::new(0, 1));
}

#[test]
fn left_at_document_start_and_right_at_end_stay() {
    let mut editor = MarkdownEditor::with_template("ab".to_string());
    press(&mut editor, key(KeyCode::Left));
    assert_eq!(cursor(&editor), Position::new(0, 0));
    press(&mut editor, key(KeyCode::End));
    press(&mut editor, key(KeyCode::Right));
    assert_eq!(cursor(&editor), Position::new(0, 2));
}

#[test]
fn up_and_down_keep_the_preferred_column() {
    let mut editor = MarkdownEditor::with_template("abcdef\nab\nabcdef".to_string());
    press(&mut editor, key(KeyCode::End));
    assert_eq!(cursor(&editor), Position::new(0, 6));
    press(&mut editor, key(KeyCode::Down));
    assert_eq!(cursor(&editor), Position::new(1, 2));
    press(&mut editor, key(KeyCode::Down));
    assert_eq!(cursor(&editor), Position::new(2, 6));
    press(&mut editor, key(KeyCode::Up));
    assert_eq!(cursor(&editor), Position::new(1, 2));
    press(&mut editor, key(KeyCode::Up));
    press(&mut editor, key(KeyCode::Up));
    assert_eq!(cursor(&editor), Position::new(0, 6));
    press(&mut editor, key(KeyCode::Home));
    assert_eq!(cursor(&editor), Position::new(0, 0));
}

#[test]
fn down_on_last_line_stays() {
    let mut editor = MarkdownEditor::with_template("ab".to_string());
    press(&mut editor, key(KeyCode::Down));
    assert_eq!(cursor(&editor), Position::new(0, 0));
}

#[test]
fn ctrl_home_and_ctrl_end_reach_the_document_ends() {
    let mut editor = MarkdownEditor::with_template("first\nsecond line".to_string());
    let end = KeyEvent { code: KeyCode::End, modifiers: CONTROL };
    press(&mut editor, end);
    assert_eq!(cursor(&editor), Position::new(1, 11));
    assert_eq!(editor.state().cursor.preferred_col, 11);
    let home = KeyEvent { code: KeyCode::Home, modifiers: CONTROL };
    press(&mut editor, home);
    assert_eq!(cursor(&editor), Position::new(0, 0));
}

#[test]
fn select_all_spans_the_document() {
    let mut editor = MarkdownEditor::with_template("one\ntwo\n".to_string());
    assert_eq!(press(&mut editor, ctrl('a')), EditorResult::Consumed);
    let range = editor.state().cursor.selection_range();
    assert_eq!(range, Some((Position::new(0, 0), Position::new(2, 0))));
}

#[test]
fn shift_arrow_extends_a_selection() {
    let mut editor = MarkdownEditor::with_template("abc\ndef".to_string());
    let right = KeyEvent { code: KeyCode::Right, modifiers: SHIFT };
    press(&mut editor, right);
    assert_eq!(cursor(&editor), Position::new(0, 1));
    assert_eq!(
        editor.state().cursor.selection_range(),
        Some((Position::new(0, 0), Position::new(0, 1)))
    );
    // Down goes to the preferred column, which only Home/End and jumps set.
    press(&mut editor, KeyEvent { code: KeyCode::Down, modifiers: SHIFT });
    assert_eq!(
        editor.state().cursor.selection_range(),
        Some((Position::new(0, 0), Position::new(1, 0)))
    );
    // A plain move drops the selection.
    press(&mut editor, key(KeyCode::Left));
    assert!(!editor.state().cursor.has_selection());
}

#[test]
fn select_all_replaces_an_earlier_anchor() {
    let mut editor = MarkdownEditor::with_template("ab\ncd\nef".to_string());
    press(&mut editor, key(KeyCode::Down));
    press(&mut editor, KeyEvent { code: KeyCode::Right, modifiers: SHIFT });
    assert!(editor.state().cursor.has_selection());
    press(&mut editor, ctrl('a'));
    assert_eq!(
        editor.state().cursor.selection_range(),
        Some((Position::new(0, 0), Position::new(2, 2)))
    );
}

#[test]
fn save_and_quit_are_reported_to_the_host() {
    let mut editor = MarkdownEditor::new();
    assert_eq!(press(&mut editor, ctrl('s')), EditorResult::Save);
    assert_eq!(press(&mut editor, ctrl('q')), EditorResult::Quit);
}

#[test]
fn toggles_flip_and_flip_back() {
    let mut editor = MarkdownEditor::new();
    press(&mut editor, ctrl('p'));
    assert!(editor.state().config.show_preview);
    press(&mut editor, ctrl('p'));
    assert!(!editor.state().config.show_preview);
    press(&mut editor, ctrl('l'));
    assert!(editor.state().config.show_line_numbers);
    press(&mut editor, ctrl('l'));
    assert!(!editor.state().config.show_line_numbers);
}

#[test]
fn setters_change_the_view_settings() {
    let mut editor = MarkdownEditor::new();
    editor.set_preview_visible(true);
    editor.set_line_numbers_visible(true);
    assert!(editor.state().config.show_preview);
    assert!(editor.state().config.show_line_numbers);
}

#[test]
fn unbound_and_unhandled_keys_are_ignored() {
    let mut editor = MarkdownEditor::with_template("abc".to_string());
    assert_eq!(press(&mut editor, key(KeyCode::F(1))), EditorResult::Ignored);
    assert_eq!(press(&mut editor, ctrl('m')), EditorResult::Ignored);
    // Bold is bound but not handled yet.
    assert_eq!(press(&mut editor, ctrl('b')), EditorResult::Ignored);
    assert_eq!(editor.get_text(), "abc");
}

#[test]
fn mouse_and_other_events_are_ignored() {
    let mut editor = MarkdownEditor::with_template("abc".to_string());
    let r = editor.handle_mouse_event(MouseEvent { column: 3, row: 0 });
    assert_eq!(r, EditorResult::Ignored);
    let r = editor.handle_event(InputEvent::Mouse(MouseEvent { column: 1, row: 1 }));
    assert_eq!(r, EditorResult::Ignored);
    assert_eq!(editor.handle_event(InputEvent::Other), EditorResult::Ignored);
    let r = editor.handle_event(InputEvent::Key(key(KeyCode::Char('z'))));
    assert_eq!(r, EditorResult::Consumed);
    assert_eq!(editor.get_text(), "zabc");
}

#[test]
fn cursor_past_the_text_makes_typing_undefined() {
    let mut editor = MarkdownEditor::with_template("ab".to_string());
    editor.state_mut().cursor.pos = Position::new(0, 5);
    assert!(!editor.key_is_defined(key(KeyCode::Char('x'))));
    // Moving and toggling stay defined.
    assert!(editor.key_is_defined(key(KeyCode::Left)));
    assert!(editor.key_is_defined(ctrl('p')));
}

#[test]
fn registering_commands_and_providers_leaves_the_text() {
    let mut editor = MarkdownEditor::with_template("abc".to_string());
    editor.register_slash_command(SlashCommand::new(
        "date".to_string(),
        "Insert date".to_string(),
        "D".to_string(),
        SlashAction::Custom,
    ));
    assert_eq!(editor.get_text(), "abc");
    assert!(!editor.state().overlay.has_active());
}

#[test]
fn tick_changes_nothing() {
    let mut editor = MarkdownEditor::with_template("abc".to_string());
    editor.tick();
    assert_eq!(editor.get_text(), "abc");
    assert!(editor.is_dirty());
}

#[test]
fn typing_an_lf_character_leaves_the_cursor_past_the_line() {
    let mut editor = MarkdownEditor::with_template("ab".to_string());
    press(&mut editor, key(KeyCode::Right));
    press(&mut editor, key(KeyCode::Char('\n')));
    assert_eq!(editor.get_text(), "a\nb");
    // The cursor moved one column on, past the end of "a".
    assert_eq!(cursor(&editor), Position::new(0, 2));
}

#[test]
fn enter_after_a_final_cr_joins_it() {
    let mut editor = MarkdownEditor::with_template("a\r".to_string());
    press(&mut editor, key(KeyCode::Down));
    assert_eq!(cursor(&editor), Position::new(1, 0));
    press(&mut editor, key(KeyCode::Enter));
    assert_eq!(editor.get_text(), "a\r\n");
    assert_eq!(editor.state().buffer.len_lines(), 2);
    assert_eq!(cursor(&editor), Position::new(2, 0));
}

#[test]
fn enter_in_the_middle_splits_the_line() {
    let mut editor = MarkdownEditor::with_template("abcd".to_string());
    press(&mut editor, key(KeyCode::Right));
    press(&mut editor, key(KeyCode::Right));
    press(&mut editor, key(KeyCode::Enter));
    assert_eq!(editor.get_text(), "ab\ncd");
    assert_eq!(cursor(&editor), Position::new(1, 0));
    assert_eq!(editor.state().buffer.len_lines(), 2);
}

#[test]
fn delete_at_a_line_end_joins_the_next_line() {
    let mut editor = MarkdownEditor::with_template("ab\ncd".to_string());
    press(&mut editor, key(KeyCode::End));
    press(&mut editor, key(KeyCode::Delete));
    assert_eq!(editor.get_text(), "abcd");
    assert_eq!(cursor(&editor), Position::new(0, 2));
}

#[test]
fn crlf_lines_are_one_line_each() {
    let mut editor = MarkdownEditor::with_template("ab\r\ncd".to_string());
    assert_eq!(editor.state().buffer.len_lines(), 2);
    press(&mut editor, key(KeyCode::End));
    // The CR counts in the line's length; only LFs are trimmed.
    assert_eq!(cursor(&editor), Position::new(0, 3));
    press(&mut editor, key(KeyCode::Right));
    assert_eq!(cursor(&editor), Position::new(1, 0));
}

#[test]
fn an_lf_typed_after_a_cr_is_not_undone_by_backspace() {
    let mut editor = MarkdownEditor::with_template("a\rb".to_string());
    press(&mut editor, key(KeyCode::Down));
    assert_eq!(cursor(&editor), Position::new(1, 0));
    press(&mut editor, key(KeyCode::Char('\n')));
    assert_eq!(editor.get_text(), "a\r\nb");
    press(&mut editor, key(KeyCode::Backspace));
    // The CR and the LF form one break, so Backspace took the "b".
    assert_eq!(editor.get_text(), "a\r\n");
}

#[test]
fn typing_then_backspace_between_cr_and_lf() {
    let mut editor = MarkdownEditor::with_template("a\r\nb".to_string());
    press(&mut editor, key(KeyCode::End));
    assert_eq!(cursor(&editor), Position::new(0, 2));
    type_str(&mut editor, "x");
    assert_eq!(editor.get_text(), "a\rx\nb");
    press(&mut editor, key(KeyCode::Backspace));
    assert_eq!(editor.get_text(), "a\r\nb");
    assert_eq!(cursor(&editor), Position::new(0, 2));
}

fn in_document(editor: &MarkdownEditor, p: Position) -> bool {
    let b = &editor.state().buffer;
    p.line < b.len_lines() && p.col <= b.line(p.line).trim_end_matches('\n').chars().count()
}

#[test]
fn actions_keep_cursor_and_anchor_in_document() {
    let mut editor = MarkdownEditor::with_template("abcd\nef\n\nghi".to_string());
    let keys = [
        KeyEvent { code: KeyCode::End, modifiers: 0 },
        KeyEvent { code: KeyCode::Down, modifiers: SHIFT },
        KeyEvent { code: KeyCode::Down, modifiers: SHIFT },
        KeyEvent { code: KeyCode::Right, modifiers: SHIFT },
        key(KeyCode::Backspace),
        key(KeyCode::Delete),
        ctrl('a'),
        key(KeyCode::Up),
        key(KeyCode::Enter),
        key(KeyCode::Char('x')),
        KeyEvent { code: KeyCode::Left, modifiers: SHIFT },
        key(KeyCode::Down),
        key(KeyCode::Down),
        key(KeyCode::Down),
        key(KeyCode::Right),
    ];
    for k in keys {
        press(&mut editor, k);
        let pos = editor.state().cursor.pos;
        let anchor = editor.state().cursor.anchor;
        assert!(in_document(&editor, pos), "{:?} after {:?}", pos, k.code);
        if let Some(a) = anchor {
            assert!(in_document(&editor, a), "anchor {:?} after {:?}", a, k.code);
        }
    }
}

#[test]
fn typing_into_set_text_is_unsaved() {
    let mut editor = MarkdownEditor::new();
    editor.set_text("ac".to_string());
    editor.state_mut().cursor.move_to(Position::new(0, 1));
    assert_eq!(press(&mut editor, key(KeyCode::Char('b'))), EditorResult::Consumed);
    assert_eq!(editor.get_text(), "abc");
    assert_eq!(cursor(&editor), Position::new(0, 2));
    assert!(!editor.state().cursor.has_selection());
    assert!(editor.is_dirty());
}
