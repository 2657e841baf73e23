use text_editor::editor::wrap::wrap_line;

#[test]
fn no_wrap_needed() {
    let lines = wrap_line(0, "hello", 80);
    assert_eq!(lines.len(), 1);
    assert_eq!(lines[0].start_col, 0);
    assert_eq!(lines[0].end_col, 5);
    assert!(lines[0].is_first);
}

#[test]
fn wraps_at_word_boundary() {
    // "hello world" with max_width=7 should wrap after "hello"
    let lines = wrap_line(0, "hello world", 7);
    assert_eq!(lines.len(), 2);
    assert_eq!(lines[0].end_col, 5); // "hello"
    assert_eq!(lines[1].start_col, 6); // "world"
    assert!(lines[0].is_first);
    assert!(!lines[1].is_first);
}

#[test]
fn zero_width_keeps_whole_line_with_newline() {
    let lines = wrap_line(3, "abc\n", 0);
    assert_eq!(lines.len(), 1);
    assert_eq!(lines[0].logical_line, 3);
    assert_eq!(lines[0].end_col, 4);
}

#[test]
fn empty_line_is_one_empty_visual_line() {
    let lines = wrap_line(0, "\n\n", 10);
    assert_eq!(lines.len(), 1);
    assert_eq!((lines[0].start_col, lines[0].end_col), (0, 0));
}

#[test]
fn long_word_is_split_without_blank() {
    let lines = wrap_line(0, "abcdefgh", 3);
    let cols: Vec<(usize, usize)> = lines.iter().map(|l| (l.start_col, l.end_col)).collect();
    assert_eq!(cols, vec![(0, 3), (3, 6), (6, 8)]);
}

#[test]
fn wide_character_wider_than_the_line_stands_alone() {
    // A double-width character does not fit a one-column line: it gets a
    // visual line of its own.
    let cols = |t: &str| -> Vec<(usize, usize)> {
        wrap_line(0, t, 1).iter().map(|l| (l.start_col, l.end_col)).collect()
    };
    assert_eq!(cols("中"), vec![(0, 1)]);
    assert_eq!(cols(" 中"), vec![(0, 1), (1, 2)]);
    assert_eq!(cols("中a"), vec![(0, 1), (1, 2)]);
}

#[test]
fn no_character_is_lost_after_a_leading_blank() {
    // The blank that starts the second line is kept; "f" is not dropped.
    let lines = wrap_line(0, "abc def", 3);
    let cols: Vec<(usize, usize)> = lines.iter().map(|l| (l.start_col, l.end_col)).collect();
    assert_eq!(cols, vec![(0, 3), (3, 6), (6, 7)]);
}

#[test]
fn wide_characters_count_two_columns() {
    let lines = wrap_line(0, "中中中", 4);
    let cols: Vec<(usize, usize)> = lines.iter().map(|l| (l.start_col, l.end_col)).collect();
    assert_eq!(cols, vec![(0, 2), (2, 3)]);
}
