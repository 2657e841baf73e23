use text_editor::editor::buffer::Buffer;

#[test]
fn new_buffer_is_not_dirty() {
    let buf = Buffer::new();
    assert!(!buf.is_dirty());
}

#[test]
fn insert_char_marks_dirty() {
    let mut buf = Buffer::new();
    buf.insert_char(0, 'H');
    assert!(buf.is_dirty());
    assert_eq!(buf.get_text(), "H");
}

#[test]
fn set_text_and_get_text_roundtrip() {
    let mut buf = Buffer::new();
    buf.set_text("hello".to_string());
    assert_eq!(buf.get_text(), "hello");
}

#[test]
fn delete_range_works() {
    let mut buf = Buffer::new();
    buf.set_text("hello world".to_string());
    buf.delete_range(5, 11);
    assert_eq!(buf.get_text(), "hello");
}

#[test]
fn from_template_is_dirty() {
    let buf = Buffer::from_template("# Title\n".to_string());
    assert!(buf.is_dirty());
}

#[test]
fn editing_back_to_saved_text_is_clean() {
    let mut buf = Buffer::from_file_contents("notes.md".to_string(), "abc");
    assert!(!buf.is_dirty());
    buf.insert_char(3, 'd');
    assert!(buf.is_dirty());
    buf.delete_range(3, 4);
    assert!(!buf.is_dirty());
}

#[test]
fn saving_makes_clean() {
    let mut buf = Buffer::from_template("x".to_string());
    buf.set_path("out.md".to_string());
    buf.mark_saved();
    assert!(!buf.is_dirty());
    assert_eq!(buf.file_path(), Some("out.md"));
}

#[test]
fn lines_and_positions() {
    let mut buf = Buffer::new();
    buf.set_text("ab\ncd\r\nef".to_string());
    assert_eq!(buf.len_lines(), 3);
    assert_eq!(buf.len_chars(), 9);
    assert_eq!(buf.line(1), "cd\r\n");
    assert_eq!(buf.line_col_to_char(2, 1), 8);
    assert_eq!(buf.char_to_line_col(4), (1, 1));
    assert_eq!(buf.char_to_line_col(9), (2, 2));
}

#[test]
fn unicode_line_breaks_count() {
    let mut buf = Buffer::new();
    buf.set_text("a\u{2028}b\rc".to_string());
    assert_eq!(buf.len_lines(), 3);
}

#[test]
fn insert_text_in_middle() {
    let mut buf = Buffer::new();
    buf.set_text("held".to_string());
    buf.insert_text(2, "llo wor");
    assert_eq!(buf.get_text(), "hello world");
}

#[test]
fn line_col_conversions_round_trip() {
    let buf = Buffer::from_template("ab\ncde\r\nf".to_string());
    assert_eq!(buf.len_lines(), 3);
    for c in 0..=buf.len_chars() {
        let (line, col) = buf.char_to_line_col(c);
        assert_eq!(buf.line_col_to_char(line, col), c);
    }
    assert_eq!(buf.char_to_line_col(buf.line_col_to_char(1, 2)), (1, 2));
    assert_eq!(buf.char_to_line_col(buf.line_col_to_char(2, 1)), (2, 1));
    assert_eq!(buf.line(1), "cde\r\n");
}

#[test]
fn insert_then_delete_gives_back_the_text() {
    let mut buf = Buffer::from_file_contents("x.md".to_string(), "hello");
    buf.insert_text(2, "XYZ");
    assert_eq!(buf.get_text(), "heXYZllo");
    assert!(buf.is_dirty());
    buf.delete_range(2, 5);
    assert_eq!(buf.get_text(), "hello");
    assert!(!buf.is_dirty());
}

#[test]
fn template_stays_unsaved_until_saved() {
    let mut buf = Buffer::from_template("xy".to_string());
    buf.delete_range(1, 2);
    buf.insert_text(1, "y");
    assert_eq!(buf.get_text(), "xy");
    assert!(buf.is_dirty());
    buf.mark_saved();
    assert!(!buf.is_dirty());
    buf.insert_char(0, 'a');
    buf.delete_range(0, 1);
    assert!(!buf.is_dirty());
}

#[test]
fn char_to_line_col_undoes_line_col_to_char_in_lf_text() {
    let buf = Buffer::from_template("ab\n\ncde\nf".to_string());
    for l in 0..buf.len_lines() {
        let len = buf.line(l).trim_end_matches('\n').chars().count();
        for c in 0..=len {
            assert_eq!(buf.char_to_line_col(buf.line_col_to_char(l, c)), (l, c));
        }
    }
}
