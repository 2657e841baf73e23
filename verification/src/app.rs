use vstd::prelude::*;

use crate::editor::EditorResult;

verus! {

/// Signal returned after handling an input event.
#[derive(Debug, Clone, Copy, PartialEq, Eq, Structural)]
pub enum AppSignal {
    Continue,
    Quit,
}

impl AppSignal {
    pub fn should_quit(&self) -> (r: bool)
        ensures
            r == (*self == AppSignal::Quit),
    {
        match self {
            AppSignal::Quit => true,
            AppSignal::Continue => false,
        }
    }
}

/// What the program does with the editor's answer to a key: whether it
/// saves the document first, and whether it then goes on or quits.
#[derive(Debug, Clone, Copy, PartialEq, Eq, Structural)]
pub struct KeyResponse {
    pub save: bool,
    pub signal: AppSignal,
}

/// The program's response to the editor's answer to a key: a save request
/// saves and goes on, a quit request quits, anything else goes on.
pub fn respond(result: EditorResult) -> (r: KeyResponse)
    ensures
        r.save == (result == EditorResult::Save),
        r.signal == (if result == EditorResult::Quit {
            AppSignal::Quit
        } else {
            AppSignal::Continue
        }),
{
    match result {
        EditorResult::Quit => KeyResponse { save: false, signal: AppSignal::Quit },
        EditorResult::Save => KeyResponse { save: true, signal: AppSignal::Continue },
        _ => KeyResponse { save: false, signal: AppSignal::Continue },
    }
}

} // verus!
