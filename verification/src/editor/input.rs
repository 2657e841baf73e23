use vstd::prelude::*;

use crate::editor::actions::EditorAction;

verus! {

/// A key on the keyboard, as the terminal reports it.
#[derive(Debug, Clone, Copy, PartialEq, Eq, Structural)]
pub enum KeyCode {
    Backspace,
    Enter,
    Left,
    Right,
    Up,
    Down,
    Home,
    End,
    PageUp,
    PageDown,
    Tab,
    BackTab,
    Delete,
    Insert,
    F(u8),
    Char(char),
    Null,
    Esc,
    CapsLock,
    ScrollLock,
    NumLock,
    PrintScreen,
    Pause,
    Menu,
    KeypadBegin,
    /// A media or modifier key.
    Other,
}

/// The Shift modifier bit.
pub const SHIFT: u8 = 1;
/// The Control modifier bit.
pub const CONTROL: u8 = 2;
/// The Alt modifier bit.
pub const ALT: u8 = 4;
/// The Super modifier bit.
pub const SUPER: u8 = 8;
/// The Hyper modifier bit.
pub const HYPER: u8 = 16;
/// The Meta modifier bit.
pub const META: u8 = 32;

/// A key press: the key and the modifier bits held with it.
#[derive(Debug, Clone, Copy, PartialEq, Eq, Structural)]
pub struct KeyEvent {
    pub code: KeyCode,
    pub modifiers: u8,
}

/// Control is held.
pub open spec fn has_ctrl(key: KeyEvent) -> bool {
    key.modifiers & CONTROL == CONTROL
}

/// Shift is held.
pub open spec fn has_shift(key: KeyEvent) -> bool {
    key.modifiers & SHIFT == SHIFT
}

/// The action bound to a key, if any.
pub open spec fn key_action(key: KeyEvent) -> Option<EditorAction> {
    let ctrl = has_ctrl(key);
    let shift = has_shift(key);
    match key.code {
        KeyCode::Left => Some(
            if ctrl && shift {
                EditorAction::SelectWordLeft
            } else if ctrl {
                EditorAction::MoveWordLeft
            } else if shift {
                EditorAction::SelectLeft
            } else {
                EditorAction::MoveLeft
            },
        ),
        KeyCode::Right => Some(
            if ctrl && shift {
                EditorAction::SelectWordRight
            } else if ctrl {
                EditorAction::MoveWordRight
            } else if shift {
                EditorAction::SelectRight
            } else {
                EditorAction::MoveRight
            },
        ),
        KeyCode::Up => Some(
            if shift {
                EditorAction::SelectUp
            } else {
                EditorAction::MoveUp
            },
        ),
        KeyCode::Down => Some(
            if shift {
                EditorAction::SelectDown
            } else {
                EditorAction::MoveDown
            },
        ),
        KeyCode::Home => Some(
            if ctrl && shift {
                EditorAction::SelectDocumentStart
            } else if ctrl {
                EditorAction::MoveDocumentStart
            } else if shift {
                EditorAction::SelectLineStart
            } else {
                EditorAction::MoveLineStart
            },
        ),
        KeyCode::End => Some(
            if ctrl && shift {
                EditorAction::SelectDocumentEnd
            } else if ctrl {
                EditorAction::MoveDocumentEnd
            } else if shift {
                EditorAction::SelectLineEnd
            } else {
                EditorAction::MoveLineEnd
            },
        ),
        KeyCode::Enter => Some(EditorAction::InsertNewline),
        KeyCode::Backspace => Some(EditorAction::DeleteBackward),
        KeyCode::Delete => Some(EditorAction::DeleteForward),
        KeyCode::Tab => Some(
            if shift {
                EditorAction::Dedent
            } else {
                EditorAction::Indent
            },
        ),
        KeyCode::BackTab => Some(EditorAction::Dedent),
        KeyCode::Char(ch) => if ctrl {
            ctrl_char_action(ch)
        } else {
            Some(EditorAction::InsertChar(ch))
        },
        _ => None,
    }
}

/// The action bound to Ctrl and a character key, if any.
pub open spec fn ctrl_char_action(ch: char) -> Option<EditorAction> {
    if ch == 'a' {
        Some(EditorAction::SelectAll)
    } else if ch == 'c' {
        Some(EditorAction::Copy)
    } else if ch == 'x' {
        Some(EditorAction::Cut)
    } else if ch == 'v' {
        Some(EditorAction::Paste)
    } else if ch == 'z' {
        Some(EditorAction::Undo)
    } else if ch == 'y' {
        Some(EditorAction::Redo)
    } else if ch == 's' {
        Some(EditorAction::Save)
    } else if ch == 'q' {
        Some(EditorAction::Quit)
    } else if ch == 'b' {
        Some(EditorAction::ToggleBold)
    } else if ch == 'i' {
        Some(EditorAction::ToggleItalic)
    } else if ch == 'k' {
        Some(EditorAction::InsertLink)
    } else if ch == 'p' {
        Some(EditorAction::TogglePreview)
    } else if ch == 'l' {
        Some(EditorAction::ToggleLineNumbers)
    } else if ch == '`' {
        Some(EditorAction::ToggleInlineCode)
    } else {
        None
    }
}

/// A character key pressed without Ctrl types that character, whatever
/// other modifiers are held; with Ctrl it never types anything.
pub proof fn law_plain_characters_type_themselves(key: KeyEvent)
    ensures
        match key.code {
            KeyCode::Char(c) => !has_ctrl(key) ==> key_action(key) == Some(EditorAction::InsertChar(c)),
            _ => true,
        },
        has_ctrl(key) ==> !(key_action(key) matches Some(EditorAction::InsertChar(_))),
{
}

/// Map a key event to an `EditorAction`.
/// Returns `None` if the key has no binding.
pub fn map_key_event(key: KeyEvent) -> (r: Option<EditorAction>)
    ensures
        r == key_action(key),
{
    let ctrl = key.modifiers & CONTROL == CONTROL;
    let shift = key.modifiers & SHIFT == SHIFT;
    match key.code {
        // --- Cursor movement ---
        KeyCode::Left if ctrl && shift => Some(EditorAction::SelectWordLeft),
        KeyCode::Right if ctrl && shift => Some(EditorAction::SelectWordRight),
        KeyCode::Left if ctrl => Some(EditorAction::MoveWordLeft),
        KeyCode::Right if ctrl => Some(EditorAction::MoveWordRight),
        KeyCode::Left if shift => Some(EditorAction::SelectLeft),
        KeyCode::Right if shift => Some(EditorAction::SelectRight),
        KeyCode::Up if shift => Some(EditorAction::SelectUp),
        KeyCode::Down if shift => Some(EditorAction::SelectDown),
        KeyCode::Left => Some(EditorAction::MoveLeft),
        KeyCode::Right => Some(EditorAction::MoveRight),
        KeyCode::Up => Some(EditorAction::MoveUp),
        KeyCode::Down => Some(EditorAction::MoveDown),
        // --- Line navigation ---
        KeyCode::Home if ctrl && shift => Some(EditorAction::SelectDocumentStart),
        KeyCode::End if ctrl && shift => Some(EditorAction::SelectDocumentEnd),
        KeyCode::Home if ctrl => Some(EditorAction::MoveDocumentStart),
        KeyCode::End if ctrl => Some(EditorAction::MoveDocumentEnd),
        KeyCode::Home if shift => Some(EditorAction::SelectLineStart),
        KeyCode::End if shift => Some(EditorAction::SelectLineEnd),
        KeyCode::Home => Some(EditorAction::MoveLineStart),
        KeyCode::End => Some(EditorAction::MoveLineEnd),
        // --- Editing ---
        KeyCode::Enter => Some(EditorAction::InsertNewline),
        KeyCode::Backspace => Some(EditorAction::DeleteBackward),
        KeyCode::Delete => Some(EditorAction::DeleteForward),
        KeyCode::Tab if shift => Some(EditorAction::Dedent),
        KeyCode::Tab => Some(EditorAction::Indent),
        // Terminals report Shift+Tab as a key of its own.
        KeyCode::BackTab => Some(EditorAction::Dedent),
        // --- Ctrl shortcuts ---
        KeyCode::Char('a') if ctrl => Some(EditorAction::SelectAll),
        KeyCode::Char('c') if ctrl => Some(EditorAction::Copy),
        KeyCode::Char('x') if ctrl => Some(EditorAction::Cut),
        KeyCode::Char('v') if ctrl => Some(EditorAction::Paste),
        KeyCode::Char('z') if ctrl => Some(EditorAction::Undo),
        KeyCode::Char('y') if ctrl => Some(EditorAction::Redo),
        KeyCode::Char('s') if ctrl => Some(EditorAction::Save),
        KeyCode::Char('q') if ctrl => Some(EditorAction::Quit),
        KeyCode::Char('b') if ctrl => Some(EditorAction::ToggleBold),
        KeyCode::Char('i') if ctrl => Some(EditorAction::ToggleItalic),
        KeyCode::Char('k') if ctrl => Some(EditorAction::InsertLink),
        KeyCode::Char('p') if ctrl => Some(EditorAction::TogglePreview),
        KeyCode::Char('l') if ctrl => Some(EditorAction::ToggleLineNumbers),
        KeyCode::Char('`') if ctrl => Some(EditorAction::ToggleInlineCode),
        // --- Regular character input ---
        KeyCode::Char('/') if !ctrl && !shift => Some(EditorAction::InsertChar('/')),
        KeyCode::Char('@') if !ctrl => Some(EditorAction::InsertChar('@')),
        KeyCode::Char(ch) if !ctrl => Some(EditorAction::InsertChar(ch)),
        _ => None,
    }
}

/// A typed `/` at the start of a line opens the slash-command menu.
pub fn is_slash_trigger(ch: char, col: usize) -> (r: bool)
    ensures
        r == (ch == '/' && col == 0),
{
    ch == '/' && col == 0
}

/// A typed `@` opens the mention picker.
pub fn is_mention_trigger(ch: char) -> (r: bool)
    ensures
        r == (ch == '@'),
{
    ch == '@'
}

} // verus!
