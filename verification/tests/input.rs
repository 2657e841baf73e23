use text_editor::editor::actions::EditorAction;
use text_editor::editor::input::{
    is_mention_trigger, is_slash_trigger, map_key_event, KeyCode, KeyEvent, ALT, CONTROL, SHIFT,
};

fn map(code: KeyCode, modifiers: u8) -> Option<EditorAction> {
    map_key_event(KeyEvent { code, modifiers })
}

#[test]
fn arrows_move_select_and_jump_words() {
    assert_eq!(map(KeyCode::Left, 0), Some(EditorAction::MoveLeft));
    assert_eq!(map(KeyCode::Right, SHIFT), Some(EditorAction::SelectRight));
    assert_eq!(map(KeyCode::Left, CONTROL), Some(EditorAction::MoveWordLeft));
    assert_eq!(map(KeyCode::Right, CONTROL | SHIFT), Some(EditorAction::SelectWordRight));
    assert_eq!(map(KeyCode::Up, SHIFT), Some(EditorAction::SelectUp));
    assert_eq!(map(KeyCode::Down, CONTROL), Some(EditorAction::MoveDown));
}

#[test]
fn home_and_end_bindings() {
    assert_eq!(map(KeyCode::Home, 0), Some(EditorAction::MoveLineStart));
    assert_eq!(map(KeyCode::End, SHIFT), Some(EditorAction::SelectLineEnd));
    assert_eq!(map(KeyCode::Home, CONTROL), Some(EditorAction::MoveDocumentStart));
    assert_eq!(map(KeyCode::End, CONTROL | SHIFT), Some(EditorAction::SelectDocumentEnd));
}

#[test]
fn editing_keys() {
    assert_eq!(map(KeyCode::Enter, 0), Some(EditorAction::InsertNewline));
    assert_eq!(map(KeyCode::Backspace, 0), Some(EditorAction::DeleteBackward));
    assert_eq!(map(KeyCode::Delete, 0), Some(EditorAction::DeleteForward));
    assert_eq!(map(KeyCode::Tab, 0), Some(EditorAction::Indent));
    assert_eq!(map(KeyCode::Tab, SHIFT), Some(EditorAction::Dedent));
    assert_eq!(map(KeyCode::BackTab, SHIFT), Some(EditorAction::Dedent));
    assert_eq!(map(KeyCode::BackTab, 0), Some(EditorAction::Dedent));
}

#[test]
fn ctrl_shortcuts() {
    let expected = [
        ('a', EditorAction::SelectAll),
        ('c', EditorAction::Copy),
        ('x', EditorAction::Cut),
        ('v', EditorAction::Paste),
        ('z', EditorAction::Undo),
        ('y', EditorAction::Redo),
        ('s', EditorAction::Save),
        ('q', EditorAction::Quit),
        ('b', EditorAction::ToggleBold),
        ('i', EditorAction::ToggleItalic),
        ('k', EditorAction::InsertLink),
        ('p', EditorAction::TogglePreview),
        ('l', EditorAction::ToggleLineNumbers),
        ('`', EditorAction::ToggleInlineCode),
    ];
    for (c, action) in expected {
        assert_eq!(map(KeyCode::Char(c), CONTROL), Some(action));
    }
    assert_eq!(map(KeyCode::Char('m'), CONTROL), None);
}

#[test]
fn plain_characters_insert_themselves() {
    assert_eq!(map(KeyCode::Char('q'), 0), Some(EditorAction::InsertChar('q')));
    assert_eq!(map(KeyCode::Char('Q'), SHIFT), Some(EditorAction::InsertChar('Q')));
    assert_eq!(map(KeyCode::Char('/'), 0), Some(EditorAction::InsertChar('/')));
    assert_eq!(map(KeyCode::Char('/'), SHIFT), Some(EditorAction::InsertChar('/')));
    assert_eq!(map(KeyCode::Char('@'), SHIFT), Some(EditorAction::InsertChar('@')));
    assert_eq!(map(KeyCode::Char('é'), ALT), Some(EditorAction::InsertChar('é')));
}

#[test]
fn unbound_keys() {
    assert_eq!(map(KeyCode::F(5), 0), None);
    assert_eq!(map(KeyCode::Esc, 0), None);
    assert_eq!(map(KeyCode::PageUp, 0), None);
    assert_eq!(map(KeyCode::Insert, CONTROL), None);
}

#[test]
fn popup_triggers() {
    assert!(is_slash_trigger('/', 0));
    assert!(!is_slash_trigger('/', 3));
    assert!(!is_slash_trigger('a', 0));
    assert!(is_mention_trigger('@'));
    assert!(!is_mention_trigger('#'));
}
