use vstd::prelude::*;

use crate::editor::cursor::{Cursor, Position};
use crate::editor::render::MarkdownEditorState;
use crate::editor::EditorResult;
use crate::editor::buffer::{dirty_for, law_line_col_to_char_round_trip};
use crate::text::{
    lemma_breaks_before, lemma_breaks_prefix, lemma_delete_keeps_position, lemma_index_in_line,
    lemma_insert_keeps_line_start, lemma_insert_keeps_position, lemma_newline_adds_line,
    lemma_line_len_bounds, lemma_line_of_char, lemma_line_start_bounds,
    lemma_trim_newlines, line_text, line_count, line_len, line_of_char, line_start, trimmed_len,
    lemma_column_on_line, only_lf_breaks,
};

verus! {

/// Every operation that can be performed on the editor.
#[derive(Debug, Clone, PartialEq, Eq)]
pub enum EditorAction {
    // --- Cursor movement ---
    MoveLeft,
    MoveRight,
    MoveUp,
    MoveDown,
    MoveWordLeft,
    MoveWordRight,
    MoveLineStart,
    MoveLineEnd,
    MoveDocumentStart,
    MoveDocumentEnd,
    // --- Selection ---
    SelectLeft,
    SelectRight,
    SelectUp,
    SelectDown,
    SelectWordLeft,
    SelectWordRight,
    SelectLineStart,
    SelectLineEnd,
    SelectDocumentStart,
    SelectDocumentEnd,
    SelectAll,
    ClearSelection,
    // --- Editing ---
    InsertChar(char),
    InsertText(String),
    InsertNewline,
    DeleteBackward,
    DeleteForward,
    DeleteWordBackward,
    DeleteWordForward,
    Indent,
    Dedent,
    // --- Clipboard ---
    Copy,
    Cut,
    Paste,
    // --- History ---
    Undo,
    Redo,
    // --- Markdown shortcuts ---
    ToggleBold,
    ToggleItalic,
    ToggleInlineCode,
    InsertLink,
    // --- Overlays ---
    OpenSlashCommand,
    OpenMention,
    CloseOverlay,
    // --- File operations ---
    Save,
    Quit,
    // --- View toggles ---
    TogglePreview,
    ToggleLineNumbers,
}

/// What the actions read and change: the document's characters, the cursor
/// and the two view toggles.
pub struct EditorModel {
    pub text: Seq<char>,
    pub cursor: Cursor,
    pub show_preview: bool,
    pub show_line_numbers: bool,
}

/// The effect of one action: the new model, the answer to the host, and
/// whether the buffer was edited (which recomputes its dirty flag).
pub struct StepOutcome {
    pub model: EditorModel,
    pub result: EditorResult,
    pub edited: bool,
}

/// The model of an editor state.
pub open spec fn model_of(s: &MarkdownEditorState) -> EditorModel {
    EditorModel {
        text: s.buffer@,
        cursor: s.cursor,
        show_preview: s.config.show_preview,
        show_line_numbers: s.config.show_line_numbers,
    }
}

/// The character index of the cursor: its line's start plus its column.
pub open spec fn cursor_index(m: EditorModel) -> int {
    line_start(m.text, m.cursor.pos.line as int) + m.cursor.pos.col
}

/// `c` moved to `(line, col)` with no selection; the preferred column stays.
pub open spec fn placed(c: Cursor, line: int, col: int) -> Cursor {
    Cursor {
        pos: Position { line: line as usize, col: col as usize },
        anchor: None,
        preferred_col: c.preferred_col,
    }
}

/// `c` with no selection.
pub open spec fn unselected(c: Cursor) -> Cursor {
    Cursor { anchor: None, ..c }
}

/// `c` moved to `(line, col)` with no selection and `col` as its preferred
/// column.
pub open spec fn placed_sticky(line: int, col: int) -> Cursor {
    Cursor {
        pos: Position { line: line as usize, col: col as usize },
        anchor: None,
        preferred_col: col as usize,
    }
}

pub open spec fn min_int(a: int, b: int) -> int {
    if a <= b {
        a
    } else {
        b
    }
}

/// The model with a new cursor.
pub open spec fn with_cursor(m: EditorModel, c: Cursor) -> EditorModel {
    EditorModel { cursor: c, ..m }
}

/// An outcome that only moves the cursor.
pub open spec fn cursor_outcome(m: EditorModel, c: Cursor) -> StepOutcome {
    StepOutcome { model: with_cursor(m, c), result: EditorResult::Consumed, edited: false }
}

/// `c` with a selection anchored where `m`'s selection is anchored, or at
/// `m`'s cursor when it has none: the position moves, the anchor stays.
pub open spec fn extend_selection(m: EditorModel, c: Cursor) -> Cursor {
    Cursor {
        anchor: Some(
            match m.cursor.anchor {
                Some(a) => a,
                None => m.cursor.pos,
            },
        ),
        ..c
    }
}

/// Where a leftward move puts the cursor.
pub open spec fn left_cursor(m: EditorModel) -> Cursor {
    let p = m.cursor.pos;
    if p.col > 0 {
        placed(m.cursor, p.line as int, p.col - 1)
    } else if p.line > 0 {
        placed(m.cursor, p.line - 1, line_len(m.text, p.line - 1))
    } else {
        unselected(m.cursor)
    }
}

/// Where a rightward move puts the cursor.
pub open spec fn right_cursor(m: EditorModel) -> Cursor {
    let p = m.cursor.pos;
    if p.col < line_len(m.text, p.line as int) {
        placed(m.cursor, p.line as int, p.col + 1)
    } else if p.line + 1 < line_count(m.text) {
        placed(m.cursor, p.line + 1, 0)
    } else {
        unselected(m.cursor)
    }
}

/// Where an upward move puts the cursor: the preferred column, clamped to
/// the previous line's length.
pub open spec fn up_cursor(m: EditorModel) -> Cursor {
    let p = m.cursor.pos;
    if p.line > 0 {
        placed(
            m.cursor,
            p.line - 1,
            min_int(m.cursor.preferred_col as int, line_len(m.text, p.line - 1)),
        )
    } else {
        unselected(m.cursor)
    }
}

/// Where a downward move puts the cursor: the preferred column, clamped to
/// the next line's length.
pub open spec fn down_cursor(m: EditorModel) -> Cursor {
    let p = m.cursor.pos;
    if p.line + 1 < line_count(m.text) {
        placed(
            m.cursor,
            p.line + 1,
            min_int(m.cursor.preferred_col as int, line_len(m.text, p.line + 1)),
        )
    } else {
        unselected(m.cursor)
    }
}

/// The last line of the text and the column at its end.
pub open spec fn document_end(t: Seq<char>) -> (int, int) {
    (line_count(t) - 1, line_len(t, line_count(t) - 1))
}

/// The inputs on which an action runs to its end: every line it reads
/// exists, every character index it forms is in the text, and no counter
/// overflows.  On others the action would panic.
pub open spec fn action_defined(a: EditorAction, m: EditorModel) -> bool {
    let p = m.cursor.pos;
    let index_ok = p.line <= line_count(m.text) && cursor_index(m) <= usize::MAX;
    match a {
        EditorAction::InsertChar(_) => index_ok && cursor_index(m) <= m.text.len(),
        EditorAction::InsertNewline => index_ok && cursor_index(m) <= m.text.len() && p.line
            < usize::MAX,
        EditorAction::DeleteBackward => (p.col > 0 || p.line > 0) ==> (index_ok && cursor_index(m)
            <= m.text.len()),
        EditorAction::DeleteForward => index_ok,
        EditorAction::MoveLeft | EditorAction::SelectLeft => p.col == 0 && p.line > 0 ==> p.line
            - 1 < line_count(m.text),
        EditorAction::MoveRight | EditorAction::SelectRight => p.line < line_count(m.text),
        EditorAction::MoveUp | EditorAction::SelectUp => p.line > 0 ==> p.line - 1 < line_count(
            m.text,
        ),
        EditorAction::MoveDown | EditorAction::SelectDown => p.line < usize::MAX,
        EditorAction::MoveLineEnd => p.line < line_count(m.text),
        _ => true,
    }
}

/// What an action does to the model, and what it answers.
pub open spec fn step(a: EditorAction, m: EditorModel) -> StepOutcome {
    let p = m.cursor.pos;
    let idx = cursor_index(m);
    match a {
        EditorAction::InsertChar(ch) => StepOutcome {
            model: EditorModel {
                text: m.text.insert(idx, ch),
                cursor: placed(m.cursor, p.line as int, p.col + 1),
                ..m
            },
            result: EditorResult::Consumed,
            edited: true,
        },
        EditorAction::InsertNewline => StepOutcome {
            model: EditorModel {
                text: m.text.insert(idx, '\n'),
                cursor: placed(m.cursor, p.line + 1, 0),
                ..m
            },
            result: EditorResult::Consumed,
            edited: true,
        },
        EditorAction::DeleteBackward => if (p.col > 0 || p.line > 0) && idx > 0 {
            let t = m.text.take(idx - 1) + m.text.skip(idx);
            let line = line_of_char(t, idx - 1);
            StepOutcome {
                model: EditorModel {
                    text: t,
                    cursor: placed(m.cursor, line, idx - 1 - line_start(t, line)),
                    ..m
                },
                result: EditorResult::Consumed,
                edited: true,
            }
        } else {
            StepOutcome { model: m, result: EditorResult::Consumed, edited: false }
        },
        EditorAction::DeleteForward => if idx < m.text.len() {
            StepOutcome {
                model: EditorModel {
                    text: m.text.take(idx) + m.text.skip(idx + 1),
                    cursor: unselected(m.cursor),
                    ..m
                },
                result: EditorResult::Consumed,
                edited: true,
            }
        } else {
            StepOutcome { model: m, result: EditorResult::Consumed, edited: false }
        },
        EditorAction::MoveLeft => cursor_outcome(m, left_cursor(m)),
        EditorAction::MoveRight => cursor_outcome(m, right_cursor(m)),
        EditorAction::MoveUp => cursor_outcome(m, up_cursor(m)),
        EditorAction::MoveDown => cursor_outcome(m, down_cursor(m)),
        EditorAction::SelectLeft => cursor_outcome(m, extend_selection(m, left_cursor(m))),
        EditorAction::SelectRight => cursor_outcome(m, extend_selection(m, right_cursor(m))),
        EditorAction::SelectUp => cursor_outcome(m, extend_selection(m, up_cursor(m))),
        EditorAction::SelectDown => cursor_outcome(m, extend_selection(m, down_cursor(m))),
        EditorAction::MoveLineStart => cursor_outcome(m, placed_sticky(p.line as int, 0)),
        EditorAction::MoveLineEnd => cursor_outcome(
            m,
            placed_sticky(p.line as int, line_len(m.text, p.line as int)),
        ),
        EditorAction::MoveDocumentStart => cursor_outcome(m, placed_sticky(0, 0)),
        EditorAction::MoveDocumentEnd => cursor_outcome(
            m,
            placed_sticky(document_end(m.text).0, document_end(m.text).1),
        ),
        EditorAction::SelectAll => cursor_outcome(
            m,
            Cursor {
                pos: Position {
                    line: document_end(m.text).0 as usize,
                    col: document_end(m.text).1 as usize,
                },
                anchor: Some(Position { line: 0, col: 0 }),
                preferred_col: m.cursor.preferred_col,
            },
        ),
        EditorAction::ClearSelection => cursor_outcome(m, unselected(m.cursor)),
        EditorAction::TogglePreview => StepOutcome {
            model: EditorModel { show_preview: !m.show_preview, ..m },
            result: EditorResult::Consumed,
            edited: false,
        },
        EditorAction::ToggleLineNumbers => StepOutcome {
            model: EditorModel { show_line_numbers: !m.show_line_numbers, ..m },
            result: EditorResult::Consumed,
            edited: false,
        },
        EditorAction::Save => StepOutcome { model: m, result: EditorResult::Save, edited: false },
        EditorAction::Quit => StepOutcome { model: m, result: EditorResult::Quit, edited: false },
        _ => StepOutcome { model: m, result: EditorResult::Ignored, edited: false },
    }
}

/// Typing a character and then pressing Backspace gives back the document
/// and the cursor position (with no selection).  This holds for a cursor
/// that stands on its own line (not just past a break other than LF, where
/// Backspace would leave it at the start of the next line), except for an
/// LF typed at the start of a line that follows a CR (it joins that CR into
/// one break, so Backspace removes the character after it); the text must
/// also have room for one more character.
pub proof fn law_insert_then_backspace_restores(m: EditorModel, ch: char)
    requires
        cursor_index(m) <= m.text.len(),
        line_of_char(m.text, cursor_index(m)) == m.cursor.pos.line,
        !(ch == '\n' && m.cursor.pos.col == 0 && cursor_index(m) >= 1 && m.text[cursor_index(m)
            - 1] == '\r'),
        m.text.len() < usize::MAX,
    ensures
        action_defined(EditorAction::InsertChar(ch), m),
        action_defined(EditorAction::DeleteBackward, step(EditorAction::InsertChar(ch), m).model),
        step(EditorAction::DeleteBackward, step(EditorAction::InsertChar(ch), m).model).model
            == with_cursor(m, unselected(m.cursor)),
{
    let t = m.text;
    let idx = cursor_index(m);
    let line = m.cursor.pos.line as int;
    let col = m.cursor.pos.col as int;
    lemma_line_start_bounds(t, line);
    lemma_line_of_char(t, idx);
    let m1 = step(EditorAction::InsertChar(ch), m).model;
    let t1 = m1.text;
    assert(t1 == t.insert(idx, ch));
    // The cursor's line starts where it did.
    lemma_insert_keeps_line_start(t, line, col, ch);
    assert(line_start(t1, line) == line_start(t, line));
    lemma_line_start_bounds(t1, line);
    assert(cursor_index(m1) == idx + 1);
    let t2 = t1.take(idx) + t1.skip(idx + 1);
    assert(t2 =~= t);
    assert(m1.cursor.pos.line as int == line);
    assert(m1.cursor.pos.col as int == col + 1);
}

/// The cursor stands on a line of the text, no further right than that
/// line's end.
pub open spec fn cursor_in_document(m: EditorModel) -> bool {
    &&& m.cursor.pos.line < line_count(m.text)
    &&& m.cursor.pos.col <= line_len(m.text, m.cursor.pos.line as int)
}

/// Only the four editing actions (typing a character or a newline, and
/// deleting backward or forward) change the document; every other action
/// leaves its text as it was.
pub proof fn law_only_edits_change_text(a: EditorAction, m: EditorModel)
    ensures
        !step(a, m).edited ==> step(a, m).model.text == m.text,
        step(a, m).edited ==> (a is InsertChar || a is InsertNewline || a is DeleteBackward
            || a is DeleteForward),
{
}

/// An action that leaves the document alone keeps a cursor that stands
/// within the document within it: movements, selections and toggles never
/// put the cursor past the end of a line or below the last line.  (The
/// text's length fits a `usize`, as a rope's does.)
pub proof fn law_cursor_stays_in_document(a: EditorAction, m: EditorModel)
    requires
        cursor_in_document(m),
        m.text.len() <= usize::MAX,
    ensures
        !step(a, m).edited ==> cursor_in_document(step(a, m).model),
{
    let t = m.text;
    let p = m.cursor.pos;
    lemma_line_start_bounds(t, 0);
    match a {
        EditorAction::MoveLeft | EditorAction::SelectLeft => {
            lemma_line_len_bounds(t, p.line - 1);
        },
        EditorAction::MoveRight | EditorAction::SelectRight => {
            lemma_line_len_bounds(t, p.line + 1);
        },
        EditorAction::MoveUp | EditorAction::SelectUp => {
            lemma_line_len_bounds(t, p.line - 1);
        },
        EditorAction::MoveDown | EditorAction::SelectDown => {
            lemma_line_len_bounds(t, p.line + 1);
        },
        EditorAction::MoveLineEnd => {
            lemma_line_len_bounds(t, p.line as int);
        },
        EditorAction::MoveDocumentEnd | EditorAction::SelectAll => {
            lemma_line_len_bounds(t, line_count(t) - 1);
        },
        _ => {},
    }
}

/// Backspace and Delete leave a cursor that stands within the document
/// within it: Backspace moves it to the deleted character's place, which
/// lies within its line; Delete keeps it where it is, and its line is still
/// there and at least as long as the cursor's column.
pub proof fn law_deletes_keep_cursor_in_document(m: EditorModel)
    requires
        cursor_in_document(m),
        m.text.len() <= usize::MAX,
    ensures
        cursor_in_document(step(EditorAction::DeleteBackward, m).model),
        cursor_in_document(step(EditorAction::DeleteForward, m).model),
{
    let t = m.text;
    let p = m.cursor.pos;
    let idx = cursor_index(m);
    lemma_line_start_bounds(t, p.line as int);
    lemma_line_start_bounds(t, p.line + 1);
    lemma_trim_newlines(line_text(t, p.line as int));
    assert(idx <= t.len());
    if (p.col > 0 || p.line > 0) && idx > 0 {
        let t2 = t.take(idx - 1) + t.skip(idx);
        lemma_line_of_char(t2, idx - 1);
        lemma_index_in_line(t2, idx - 1);
        lemma_breaks_before(t2, idx - 1);
    }
    if idx < t.len() {
        lemma_delete_keeps_position(t, p.line as int, p.col as int);
    }
}

/// Typing a character moves a cursor that stands within its line (before
/// the line's break) one column on, still within the document.  As the
/// editor behaves, this fails for an LF typed as a character (it ends the
/// line before the cursor) and for a character typed between the CR and the
/// LF of a CRLF pair (the CR then breaks the line); the text must have room
/// for one more character.
pub proof fn law_typing_keeps_cursor_in_document(m: EditorModel, ch: char)
    requires
        cursor_in_document(m),
        line_of_char(m.text, cursor_index(m)) == m.cursor.pos.line,
        ch != '\n',
        !(1 <= cursor_index(m) < m.text.len() && m.text[cursor_index(m) - 1] == '\r'
            && m.text[cursor_index(m)] == '\n'),
        m.text.len() < usize::MAX,
    ensures
        cursor_in_document(step(EditorAction::InsertChar(ch), m).model),
        step(EditorAction::InsertChar(ch), m).model.cursor.pos == (Position {
            line: m.cursor.pos.line,
            col: (m.cursor.pos.col + 1) as usize,
        }),
{
    lemma_line_len_bounds(m.text, m.cursor.pos.line as int);
    lemma_insert_keeps_position(m.text, m.cursor.pos.line as int, m.cursor.pos.col as int, ch);
}

/// Pressing Enter puts the cursor at the start of a new line that exists.
/// As the editor behaves, this fails at the start of the last line just
/// after a CR, where the new LF joins that CR into one break; the text must
/// have room for one more character.
pub proof fn law_enter_keeps_cursor_in_document(m: EditorModel)
    requires
        cursor_in_document(m),
        !(m.cursor.pos.col == 0 && m.cursor.pos.line >= 1 && m.text[line_start(
            m.text,
            m.cursor.pos.line as int,
        ) - 1] == '\r' && m.cursor.pos.line + 1 == line_count(m.text)),
        m.text.len() < usize::MAX,
    ensures
        cursor_in_document(step(EditorAction::InsertNewline, m).model),
        step(EditorAction::InsertNewline, m).model.cursor.pos == (Position {
            line: (m.cursor.pos.line + 1) as usize,
            col: 0,
        }),
{
    lemma_line_start_bounds(m.text, 0);
    lemma_newline_adds_line(m.text, m.cursor.pos.line as int, m.cursor.pos.col as int);
    lemma_line_len_bounds(m.text.insert(cursor_index(m), '\n'), m.cursor.pos.line + 1);
}

/// The selection's anchor, where there is one, stands on a line of the
/// text, no further right than that line's end.
pub open spec fn anchor_in_document(m: EditorModel) -> bool {
    m.cursor.anchor matches Some(a) ==> a.line < line_count(m.text) && a.col <= line_len(
        m.text,
        a.line as int,
    )
}

/// Every action keeps the cursor and the selection's anchor within the
/// document, in a text whose lines all end with an LF: edits put the
/// cursor at a place that exists in the new text and drop the selection,
/// selections keep their anchor or anchor at the old cursor (select-all at
/// the document's start), and other actions leave the text alone.  The one
/// exception is an LF typed as a character, which ends the cursor's line
/// before it.  The text's length fits a `usize`, as a rope's does, and an
/// action that types a character or a newline needs room for one more.
#[verifier::rlimit(40)]
pub proof fn law_actions_keep_cursor_and_anchor_in_document(a: EditorAction, m: EditorModel)
    requires
        cursor_in_document(m),
        anchor_in_document(m),
        only_lf_breaks(m.text),
        a != EditorAction::InsertChar('\n'),
        m.text.len() <= usize::MAX,
        (a is InsertChar || a is InsertNewline) ==> m.text.len() < usize::MAX,
    ensures
        cursor_in_document(step(a, m).model),
        anchor_in_document(step(a, m).model),
{
    let t = m.text;
    let p = m.cursor.pos;
    lemma_line_start_bounds(t, 0);
    lemma_line_len_bounds(t, 0);
    match a {
        EditorAction::InsertChar(ch) => {
            lemma_column_on_line(t, p.line as int, p.col as int);
            law_line_col_to_char_round_trip(t, p.line as int, p.col as int);
            law_typing_keeps_cursor_in_document(m, ch);
        },
        EditorAction::InsertNewline => {
            if p.col == 0 && p.line >= 1 {
                lemma_breaks_before(t, t.len() as int);
                lemma_breaks_prefix(t, t.len() as int, t.len() as int);
                assert(0 <= line_start(t, p.line as int) - 1 < t.len());
            }
            law_enter_keeps_cursor_in_document(m);
        },
        EditorAction::DeleteBackward | EditorAction::DeleteForward => {
            law_deletes_keep_cursor_in_document(m);
        },
        _ => {
            law_cursor_stays_in_document(a, m);
        },
    }
}

/// Toggling the preview pane, or the line numbers, twice gives back the
/// model it started from.
pub proof fn law_toggles_undo_themselves(m: EditorModel)
    ensures
        step(EditorAction::TogglePreview, step(EditorAction::TogglePreview, m).model).model == m,
        step(EditorAction::ToggleLineNumbers, step(EditorAction::ToggleLineNumbers, m).model).model
            == m,
{
}

/// Whether the cursor's index can be formed without overflow on its line.
fn index_ok(state: &MarkdownEditorState) -> (r: bool)
    ensures
        r == (state.cursor.pos.line <= line_count(state.buffer@) && cursor_index(model_of(state))
            <= usize::MAX),
{
    let n_lines = state.buffer.len_lines();
    if state.cursor.pos.line > n_lines {
        return false;
    }
    let n_chars = state.buffer.len_chars();
    proof {
        lemma_line_start_bounds(state.buffer@, state.cursor.pos.line as int);
    }
    let start = state.buffer.line_col_to_char(state.cursor.pos.line, 0);
    state.cursor.pos.col <= usize::MAX - start
}

/// Whether `action` can run on `state` (see `action_defined`).
pub fn action_is_defined(action: &EditorAction, state: &MarkdownEditorState) -> (r: bool)
    ensures
        r == action_defined(*action, model_of(state)),
{
    let p = state.cursor.pos;
    match action {
        EditorAction::InsertChar(_) | EditorAction::InsertNewline | EditorAction::DeleteForward => {
            if !index_ok(state) {
                return false;
            }
            let idx = state.buffer.line_col_to_char(p.line, p.col);
            match action {
                EditorAction::InsertChar(_) => idx <= state.buffer.len_chars(),
                EditorAction::InsertNewline => idx <= state.buffer.len_chars() && p.line < usize::MAX,
                _ => true,
            }
        },
        EditorAction::DeleteBackward => {
            if !(p.col > 0 || p.line > 0) {
                return true;
            }
            if !index_ok(state) {
                return false;
            }
            let idx = state.buffer.line_col_to_char(p.line, p.col);
            idx <= state.buffer.len_chars()
        },
        EditorAction::MoveLeft | EditorAction::SelectLeft => !(p.col == 0 && p.line > 0) || p.line
            - 1 < state.buffer.len_lines(),
        EditorAction::MoveRight | EditorAction::SelectRight | EditorAction::MoveLineEnd => p.line
            < state.buffer.len_lines(),
        EditorAction::MoveUp | EditorAction::SelectUp => p.line == 0 || p.line - 1
            < state.buffer.len_lines(),
        EditorAction::MoveDown | EditorAction::SelectDown => p.line < usize::MAX,
        _ => true,
    }
}

/// The number of characters of line `l` without its trailing LFs.
fn line_length(state: &MarkdownEditorState, l: usize) -> (n: usize)
    requires
        l < line_count(state.buffer@),
    ensures
        n == line_len(state.buffer@, l as int),
{
    let line_text = state.buffer.line(l);
    trimmed_len(line_text.as_str())
}

/// The parts of the state that the cursor moves leave alone.
pub open spec fn same_but_cursor(a: &MarkdownEditorState, b: &MarkdownEditorState) -> bool {
    &&& b.buffer == a.buffer
    &&& b.history == a.history
    &&& b.viewport == a.viewport
    &&& b.highlight_cache == a.highlight_cache
    &&& b.overlay == a.overlay
    &&& b.config == a.config
}

fn move_left(state: &mut MarkdownEditorState)
    requires
        action_defined(EditorAction::MoveLeft, model_of(old(state))),
    ensures
        final(state).cursor == left_cursor(model_of(old(state))),
        same_but_cursor(old(state), final(state)),
{
    if state.cursor.pos.col > 0 {
        state.cursor.pos.col -= 1;
    } else if state.cursor.pos.line > 0 {
        let prev_line = state.cursor.pos.line - 1;
        let col = line_length(state, prev_line);
        state.cursor.pos = Position::new(prev_line, col);
    }
    state.cursor.clear_selection();
}

fn move_right(state: &mut MarkdownEditorState)
    requires
        action_defined(EditorAction::MoveRight, model_of(old(state))),
    ensures
        final(state).cursor == right_cursor(model_of(old(state))),
        same_but_cursor(old(state), final(state)),
{
    let line_len = line_length(state, state.cursor.pos.line);
    let n_lines = state.buffer.len_lines();
    if state.cursor.pos.col < line_len {
        state.cursor.pos.col += 1;
    } else if state.cursor.pos.line + 1 < n_lines {
        state.cursor.pos = Position::new(state.cursor.pos.line + 1, 0);
    }
    state.cursor.clear_selection();
}

fn move_up(state: &mut MarkdownEditorState)
    requires
        action_defined(EditorAction::MoveUp, model_of(old(state))),
    ensures
        final(state).cursor == up_cursor(model_of(old(state))),
        same_but_cursor(old(state), final(state)),
{
    if state.cursor.pos.line > 0 {
        let preferred = state.cursor.preferred_col;
        let prev_line = state.cursor.pos.line - 1;
        let line_len = line_length(state, prev_line);
        let col = if preferred < line_len { preferred } else { line_len };
        state.cursor.pos = Position::new(prev_line, col);
    }
    state.cursor.clear_selection();
}

fn move_down(state: &mut MarkdownEditorState)
    requires
        action_defined(EditorAction::MoveDown, model_of(old(state))),
    ensures
        final(state).cursor == down_cursor(model_of(old(state))),
        same_but_cursor(old(state), final(state)),
{
    let preferred = state.cursor.preferred_col;
    let next_line = state.cursor.pos.line + 1;
    if next_line < state.buffer.len_lines() {
        let line_len = line_length(state, next_line);
        let col = if preferred < line_len { preferred } else { line_len };
        state.cursor.pos = Position::new(next_line, col);
    }
    state.cursor.clear_selection();
}

/// The last line and the column at its end.
fn end_of_document(state: &MarkdownEditorState) -> (r: (usize, usize))
    ensures
        r.0 == document_end(state.buffer@).0,
        r.1 == document_end(state.buffer@).1,
{
    let last_line = state.buffer.len_lines().saturating_sub(1);
    let col = line_length(state, last_line);
    (last_line, col)
}

/// Dispatch an action against the current editor state and return the
/// corresponding `EditorResult`.
pub fn dispatch(action: EditorAction, state: &mut MarkdownEditorState) -> (r: EditorResult)
    requires
        action_defined(action, model_of(old(state))),
    ensures
        model_of(final(state)) == step(action, model_of(old(state))).model,
        r == step(action, model_of(old(state))).result,
        final(state).history == old(state).history,
        final(state).viewport == old(state).viewport,
        final(state).highlight_cache == old(state).highlight_cache,
        final(state).overlay == old(state).overlay,
        final(state).config == (crate::editor::render::EditorConfig {
            show_preview: final(state).config.show_preview,
            show_line_numbers: final(state).config.show_line_numbers,
            ..old(state).config
        }),
        final(state).buffer.spec_path() == old(state).buffer.spec_path(),
        final(state).buffer.spec_saved() == old(state).buffer.spec_saved(),
        final(state).buffer.spec_dirty() == if step(action, model_of(old(state))).edited {
            dirty_for(old(state).buffer.spec_saved(), final(state).buffer@)
        } else {
            old(state).buffer.spec_dirty()
        },
{
    match action {
        EditorAction::InsertChar(ch) => {
            let char_idx = state.buffer.line_col_to_char(
                state.cursor.pos.line,
                state.cursor.pos.col,
            );
            proof {
                lemma_line_start_bounds(state.buffer@, state.cursor.pos.line as int);
            }
            state.buffer.insert_char(char_idx, ch);
            state.cursor.pos.col += 1;
            state.cursor.clear_selection();
            EditorResult::Consumed
        },
        EditorAction::InsertNewline => {
            let char_idx = state.buffer.line_col_to_char(
                state.cursor.pos.line,
                state.cursor.pos.col,
            );
            state.buffer.insert_char(char_idx, '\n');
            state.cursor.pos.line += 1;
            state.cursor.pos.col = 0;
            state.cursor.clear_selection();
            EditorResult::Consumed
        },
        EditorAction::DeleteBackward => {
            if state.cursor.pos.col > 0 || state.cursor.pos.line > 0 {
                let char_idx = state.buffer.line_col_to_char(
                    state.cursor.pos.line,
                    state.cursor.pos.col,
                );
                if char_idx > 0 {
                    state.buffer.delete_range(char_idx - 1, char_idx);
                    let (line, col) = state.buffer.char_to_line_col(char_idx - 1);
                    state.cursor.pos = Position::new(line, col);
                    state.cursor.clear_selection();
                }
            }
            EditorResult::Consumed
        },
        EditorAction::DeleteForward => {
            let char_idx = state.buffer.line_col_to_char(
                state.cursor.pos.line,
                state.cursor.pos.col,
            );
            if char_idx < state.buffer.len_chars() {
                state.buffer.delete_range(char_idx, char_idx + 1);
                state.cursor.clear_selection();
            }
            EditorResult::Consumed
        },
        EditorAction::MoveLeft => {
            move_left(state);
            EditorResult::Consumed
        },
        EditorAction::MoveRight => {
            move_right(state);
            EditorResult::Consumed
        },
        EditorAction::MoveUp => {
            move_up(state);
            EditorResult::Consumed
        },
        EditorAction::MoveDown => {
            move_down(state);
            EditorResult::Consumed
        },
        EditorAction::MoveLineStart => {
            state.cursor.pos.col = 0;
            state.cursor.preferred_col = 0;
            state.cursor.clear_selection();
            EditorResult::Consumed
        },
        EditorAction::MoveLineEnd => {
            let col = line_length(state, state.cursor.pos.line);
            state.cursor.pos.col = col;
            state.cursor.preferred_col = col;
            state.cursor.clear_selection();
            EditorResult::Consumed
        },
        EditorAction::MoveDocumentStart => {
            state.cursor.move_to(Position::new(0, 0));
            EditorResult::Consumed
        },
        EditorAction::MoveDocumentEnd => {
            let (last_line, col) = end_of_document(state);
            state.cursor.move_to(Position::new(last_line, col));
            EditorResult::Consumed
        },
        EditorAction::SelectLeft => {
            state.cursor.start_selection();
            let anchor = state.cursor.anchor;
            move_left(state);
            state.cursor.anchor = anchor;
            EditorResult::Consumed
        },
        EditorAction::SelectRight => {
            state.cursor.start_selection();
            let anchor = state.cursor.anchor;
            move_right(state);
            state.cursor.anchor = anchor;
            EditorResult::Consumed
        },
        EditorAction::SelectUp => {
            state.cursor.start_selection();
            let anchor = state.cursor.anchor;
            move_up(state);
            state.cursor.anchor = anchor;
            EditorResult::Consumed
        },
        EditorAction::SelectDown => {
            state.cursor.start_selection();
            let anchor = state.cursor.anchor;
            move_down(state);
            state.cursor.anchor = anchor;
            EditorResult::Consumed
        },
        EditorAction::SelectAll => {
            state.cursor.pos = Position::new(0, 0);
            state.cursor.anchor = Some(Position::new(0, 0));
            let (last_line, col) = end_of_document(state);
            state.cursor.pos = Position::new(last_line, col);
            EditorResult::Consumed
        },
        EditorAction::ClearSelection => {
            state.cursor.clear_selection();
            EditorResult::Consumed
        },
        EditorAction::TogglePreview => {
            state.config.show_preview = !state.config.show_preview;
            EditorResult::Consumed
        },
        EditorAction::ToggleLineNumbers => {
            state.config.show_line_numbers = !state.config.show_line_numbers;
            EditorResult::Consumed
        },
        EditorAction::Save => EditorResult::Save,
        EditorAction::Quit => EditorResult::Quit,
        // The remaining actions are not handled by the editor yet.
        _ => EditorResult::Ignored,
    }
}

} // verus!
