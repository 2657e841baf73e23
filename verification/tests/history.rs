use text_editor::editor::cursor::Position;
use text_editor::editor::history::{Edit, EditKind, History};

fn make_edit_at(cursor: Position, timestamp: u64) -> Edit {
    Edit {
        kind: EditKind::Insert,
        old_text: String::new(),
        new_text: "a".to_string(),
        char_idx: 0,
        cursor_before: cursor,
        cursor_after: cursor,
        timestamp,
    }
}

fn make_edit(cursor: Position) -> Edit {
    make_edit_at(cursor, 0)
}

#[test]
fn push_and_undo() {
    let mut history = History::new();
    history.push(make_edit(Position::default()));
    assert!(history.can_undo());
    assert!(!history.can_redo());
    history.pop_undo();
    assert!(!history.can_undo());
    assert!(history.can_redo());
}

#[test]
fn undo_clears_redo_on_new_edit() {
    let mut history = History::new();
    history.push(make_edit(Position::default()));
    history.pop_undo();
    assert!(history.can_redo());
    history.push(make_edit(Position::default()));
    assert!(!history.can_redo());
}

#[test]
fn rapid_edits_are_grouped() {
    let mut history = History::new();
    history.push(make_edit_at(Position::default(), 1000));
    history.push(make_edit_at(Position::new(0, 1), 1300));
    let group = history.pop_undo().unwrap();
    assert_eq!(group.edits.len(), 2);
    assert_eq!(group.last_edit_time, 1300);
    assert!(!history.can_undo());
}

#[test]
fn slow_edits_are_separate_groups() {
    let mut history = History::new();
    history.push(make_edit_at(Position::default(), 1000));
    history.push(make_edit_at(Position::new(0, 1), 1301));
    let group = history.pop_undo().unwrap();
    assert_eq!(group.edits.len(), 1);
    assert!(history.can_undo());
}

#[test]
fn undo_then_redo_restores() {
    let mut history = History::new();
    history.push(make_edit_at(Position::default(), 0));
    let undone = history.pop_undo().unwrap();
    let redone = history.pop_redo().unwrap();
    assert_eq!(undone.edits.len(), redone.edits.len());
    assert_eq!(undone.edits[0].new_text, redone.edits[0].new_text);
    assert!(history.can_undo());
    assert!(!history.can_redo());
    assert!(history.pop_redo().is_none());
}

#[test]
fn nothing_to_undo_on_new_history() {
    let mut history = History::default();
    assert!(history.pop_undo().is_none());
    assert!(history.pop_redo().is_none());
}
