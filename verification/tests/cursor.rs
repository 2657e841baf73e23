use text_editor::editor::cursor::{Cursor, Position};

#[test]
fn position_ordering() {
    let a = Position::new(0, 5);
    let b = Position::new(1, 0);
    assert!(a < b);
    assert!(b > a);
    assert_eq!(a, a);
}

#[test]
fn selection_range_ordered() {
    let mut cursor = Cursor::default();
    cursor.pos = Position::new(2, 10);
    cursor.anchor = Some(Position::new(1, 3));
    let (start, end) = cursor.selection_range().unwrap();
    assert!(start <= end);
}

#[test]
fn clear_selection() {
    let mut cursor = Cursor::default();
    cursor.start_selection();
    cursor.pos = Position::new(0, 5);
    assert!(cursor.has_selection());
    cursor.clear_selection();
    assert!(!cursor.has_selection());
}

#[test]
fn selection_range_swaps_when_anchor_is_after_cursor() {
    let mut cursor = Cursor::default();
    cursor.pos = Position::new(1, 3);
    cursor.anchor = Some(Position::new(2, 10));
    assert_eq!(
        cursor.selection_range(),
        Some((Position::new(1, 3), Position::new(2, 10)))
    );
    cursor.clear_selection();
    assert_eq!(cursor.selection_range(), None);
}

#[test]
fn start_selection_keeps_first_anchor() {
    let mut cursor = Cursor::default();
    cursor.pos = Position::new(0, 2);
    cursor.start_selection();
    cursor.pos = Position::new(0, 7);
    cursor.start_selection();
    assert_eq!(cursor.anchor, Some(Position::new(0, 2)));
}

#[test]
fn move_to_clears_selection_and_sets_preferred_column() {
    let mut cursor = Cursor::default();
    cursor.start_selection();
    cursor.move_to(Position::new(3, 4));
    assert_eq!(cursor.pos, Position::new(3, 4));
    assert_eq!(cursor.anchor, None);
    assert_eq!(cursor.preferred_col, 4);
}
