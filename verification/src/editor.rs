use vstd::prelude::*;

pub mod actions;
pub mod buffer;
pub mod cursor;
pub mod highlight;
pub mod history;
pub mod input;
pub mod markdown;
pub mod overlay;
pub mod preview;
pub mod recovery;
pub mod render;
pub mod style;
pub mod view;
pub mod viewport;
pub mod wrap;

use actions::{action_defined, action_is_defined, dispatch as dispatch_action, model_of, step};
use buffer::{dirty_for, text_hash, Buffer};
use cursor::Cursor;
use history::History;
use input::{key_action, map_key_event, KeyEvent};
use overlay::mention::MentionProvider;
use overlay::slash_command::SlashCommand;
use overlay::OverlayManager;
use render::{default_config, EditorConfig, MarkdownEditorState};
use viewport::Viewport;

verus! {

/// Result returned by the editor after processing an event.
#[derive(Debug, Clone, Copy, PartialEq, Eq, Structural)]
pub enum EditorResult {
    /// The event was handled internally; no special host action is needed.
    Consumed,
    /// The user requested a save (`Ctrl+S`).
    Save,
    /// The user requested to quit (`Ctrl+Q`).
    Quit,
    /// The event was not recognised by the editor.
    Ignored,
}

/// A mouse event: where on the screen it happened.
#[derive(Debug, Clone, Copy, PartialEq, Eq, Structural)]
pub struct MouseEvent {
    pub column: u16,
    pub row: u16,
}

/// An input event from the terminal.
#[derive(Debug, Clone, Copy, PartialEq, Eq, Structural)]
pub enum InputEvent {
    Key(KeyEvent),
    Mouse(MouseEvent),
    /// Focus, paste and resize events.
    Other,
}

/// A freshly opened editor state around `buffer`: cursor at the start, no
/// history, no scrolling, no highlighting, no popup, default settings.
pub open spec fn fresh_state(s: MarkdownEditorState, buffer: Buffer) -> bool {
    &&& s.buffer == buffer
    &&& s.cursor == Cursor { pos: cursor::Position { line: 0, col: 0 }, anchor: None, preferred_col: 0 }
    &&& s.history@.undo.len() == 0
    &&& s.history@.redo.len() == 0
    &&& s.viewport == Viewport { scroll_top: 0, height: 0, width: 0 }
    &&& s.highlight_cache@.len() == 0
    &&& !s.overlay.spec_has_open()
    &&& !s.overlay.spec_has_provider()
    &&& overlay::slash_command::is_default_command_list(s.overlay.spec_slash_commands())
    &&& s.config == default_config()
}

/// The key's action, if it has one, can run on this state.
pub open spec fn key_defined(key: KeyEvent, s: &MarkdownEditorState) -> bool {
    key_action(key) matches Some(a) ==> action_defined(a, model_of(s))
}

/// Public facade for the Markdown editor component.
pub struct MarkdownEditor {
    state: MarkdownEditorState,
}

fn fresh(buffer: Buffer) -> (s: MarkdownEditorState)
    ensures
        fresh_state(s, buffer),
{
    MarkdownEditorState {
        buffer,
        cursor: Cursor::default(),
        history: History::new(),
        viewport: Viewport::default(),
        highlight_cache: Vec::new(),
        overlay: OverlayManager::new(),
        config: EditorConfig::default(),
    }
}

impl MarkdownEditor {
    /// The editor's state.
    pub closed spec fn spec_state(&self) -> MarkdownEditorState {
        self.state
    }

    /// Create a new, empty editor.
    pub fn new() -> (e: Self)
        ensures
            e.spec_state().buffer@ == Seq::<char>::empty(),
            !e.spec_state().buffer.spec_dirty(),
            e.spec_state().buffer.spec_path() is None,
            e.spec_state().buffer.spec_saved() == Some(text_hash(Seq::<char>::empty())),
            fresh_state(e.spec_state(), e.spec_state().buffer),
    {
        MarkdownEditor { state: fresh(Buffer::new()) }
    }

    /// An editor for the file at `path`, whose contents were read as `text`.
    pub fn open_contents(path: String, text: &str) -> (e: Self)
        ensures
            e.spec_state().buffer@ == text@,
            !e.spec_state().buffer.spec_dirty(),
            e.spec_state().buffer.spec_path() == Some(path@),
            e.spec_state().buffer.spec_saved() == Some(text_hash(text@)),
            fresh_state(e.spec_state(), e.spec_state().buffer),
    {
        MarkdownEditor { state: fresh(Buffer::from_file_contents(path, text)) }
    }

    /// Initialise the buffer from a template string.
    pub fn with_template(template: String) -> (e: Self)
        ensures
            e.spec_state().buffer@ == template@,
            e.spec_state().buffer.spec_dirty(),
            e.spec_state().buffer.spec_path() is None,
            e.spec_state().buffer.spec_saved() is None,
            fresh_state(e.spec_state(), e.spec_state().buffer),
    {
        MarkdownEditor { state: fresh(Buffer::from_template(template)) }
    }

    /// Return the current document text.
    pub fn get_text(&self) -> (s: String)
        ensures
            s@ == self.spec_state().buffer@,
    {
        self.state.buffer.get_text()
    }

    /// Replace the entire document with new text; the cursor goes back to
    /// the start and the history and highlighting are dropped.
    pub fn set_text(&mut self, text: String)
        ensures
            final(self).spec_state().buffer@ == text@,
            final(self).spec_state().buffer.spec_path() == old(self).spec_state().buffer.spec_path(),
            final(self).spec_state().buffer.spec_dirty() == (dirty_for(old(
                self,
            ).spec_state().buffer.spec_saved(), text@)),
            final(self).spec_state().cursor == (Cursor {
                pos: cursor::Position { line: 0, col: 0 },
                anchor: None,
                preferred_col: 0,
            }),
            final(self).spec_state().history@.undo.len() == 0,
            final(self).spec_state().history@.redo.len() == 0,
            final(self).spec_state().highlight_cache@.len() == 0,
            final(self).spec_state().viewport == old(self).spec_state().viewport,
            final(self).spec_state().overlay == old(self).spec_state().overlay,
            final(self).spec_state().config == old(self).spec_state().config,
    {
        self.state.buffer.set_text(text);
        self.state.cursor = Cursor::default();
        self.state.history = History::new();
        self.state.highlight_cache.clear();
    }

    /// Process an input event: keys go to the key map, everything else is
    /// ignored.
    pub fn handle_event(&mut self, event: InputEvent) -> (r: EditorResult)
        requires
            event matches InputEvent::Key(key) ==> key_defined(key, &old(self).spec_state()),
        ensures
            match event {
                InputEvent::Key(key) => handled_key(key, old(self).spec_state(), final(self).spec_state(), r),
                _ => r == EditorResult::Ignored && final(self).spec_state() == old(self).spec_state(),
            },
    {
        match event {
            InputEvent::Key(key) => self.handle_key_event(key),
            InputEvent::Mouse(mouse) => self.handle_mouse_event(mouse),
            InputEvent::Other => EditorResult::Ignored,
        }
    }

    /// Process a key event: a bound key runs its action, an unbound one is
    /// ignored.
    pub fn handle_key_event(&mut self, key: KeyEvent) -> (r: EditorResult)
        requires
            key_defined(key, &old(self).spec_state()),
        ensures
            handled_key(key, old(self).spec_state(), final(self).spec_state(), r),
    {
        match map_key_event(key) {
            Some(action) => dispatch_action(action, &mut self.state),
            None => EditorResult::Ignored,
        }
    }

    /// Whether handling `key` can run to its end on the current state (see
    /// `key_defined`).
    pub fn key_is_defined(&self, key: KeyEvent) -> (r: bool)
        ensures
            r == key_defined(key, &self.spec_state()),
    {
        match map_key_event(key) {
            Some(action) => action_is_defined(&action, &self.state),
            None => true,
        }
    }

    /// Process a mouse event; mouse input is not handled yet.
    pub fn handle_mouse_event(&mut self, mouse: MouseEvent) -> (r: EditorResult)
        ensures
            r == EditorResult::Ignored,
            final(self).spec_state() == old(self).spec_state(),
    {
        EditorResult::Ignored
    }

    /// Return `true` if the buffer has unsaved changes.
    pub fn is_dirty(&self) -> (r: bool)
        ensures
            r == self.spec_state().buffer.spec_dirty(),
    {
        self.state.buffer.is_dirty()
    }

    /// Register a custom slash command.
    pub fn register_slash_command(&mut self, command: SlashCommand)
        ensures
            final(self).spec_state().overlay.spec_slash_commands() == old(
                self,
            ).spec_state().overlay.spec_slash_commands().push(command),
            final(self).spec_state().buffer == old(self).spec_state().buffer,
            final(self).spec_state().cursor == old(self).spec_state().cursor,
            final(self).spec_state().config == old(self).spec_state().config,
    {
        self.state.overlay.register_slash_command(command);
    }

    /// Supply a mention provider so that the `@` overlay can resolve names.
    pub fn set_mention_provider(&mut self, provider: Box<dyn MentionProvider>)
        ensures
            final(self).spec_state().overlay.spec_has_provider(),
            final(self).spec_state().buffer == old(self).spec_state().buffer,
            final(self).spec_state().cursor == old(self).spec_state().cursor,
            final(self).spec_state().config == old(self).spec_state().config,
    {
        self.state.overlay.set_mention_provider(provider);
    }

    /// Show or hide the Markdown preview pane.
    pub fn set_preview_visible(&mut self, visible: bool)
        ensures
            final(self).spec_state().config == (EditorConfig {
                show_preview: visible,
                ..old(self).spec_state().config
            }),
            final(self).spec_state().buffer == old(self).spec_state().buffer,
            final(self).spec_state().cursor == old(self).spec_state().cursor,
    {
        self.state.config.show_preview = visible;
    }

    /// Show or hide line numbers.
    pub fn set_line_numbers_visible(&mut self, visible: bool)
        ensures
            final(self).spec_state().config == (EditorConfig {
                show_line_numbers: visible,
                ..old(self).spec_state().config
            }),
            final(self).spec_state().buffer == old(self).spec_state().buffer,
            final(self).spec_state().cursor == old(self).spec_state().cursor,
    {
        self.state.config.show_line_numbers = visible;
    }

    /// Drive periodic tasks; the buffer has none of its own.
    pub fn tick(&mut self)
        ensures
            final(self).spec_state() == old(self).spec_state(),
    {
        self.state.buffer.tick();
    }

    /// Expose the internal state so the renderer can borrow it.
    pub fn state(&self) -> (s: &MarkdownEditorState)
        ensures
            *s == self.spec_state(),
    {
        &self.state
    }

    /// Expose the internal state mutably so the renderer can borrow it.
    pub fn state_mut(&mut self) -> (s: &mut MarkdownEditorState)
        ensures
            *s == old(self).spec_state(),
            final(self).spec_state() == *final(s),
    {
        &mut self.state
    }
}

impl Default for MarkdownEditor {
    fn default() -> (e: Self)
        ensures
            e.spec_state().buffer@ == Seq::<char>::empty(),
            fresh_state(e.spec_state(), e.spec_state().buffer),
    {
        MarkdownEditor::new()
    }
}

/// What handling `key` does: an unbound key changes nothing and is
/// ignored; a bound one does what its action does (see `dispatch`).
pub open spec fn handled_key(
    key: KeyEvent,
    before: MarkdownEditorState,
    after: MarkdownEditorState,
    r: EditorResult,
) -> bool {
    match key_action(key) {
        None => r == EditorResult::Ignored && after == before,
        Some(a) => {
            &&& model_of(&after) == step(a, model_of(&before)).model
            &&& r == step(a, model_of(&before)).result
            &&& after.history == before.history
            &&& after.viewport == before.viewport
            &&& after.highlight_cache == before.highlight_cache
            &&& after.overlay == before.overlay
            &&& after.config == (EditorConfig {
                show_preview: after.config.show_preview,
                show_line_numbers: after.config.show_line_numbers,
                ..before.config
            })
            &&& after.buffer.spec_path() == before.buffer.spec_path()
            &&& after.buffer.spec_saved() == before.buffer.spec_saved()
            &&& after.buffer.spec_dirty() == if step(a, model_of(&before)).edited {
                dirty_for(before.buffer.spec_saved(), after.buffer@)
            } else {
                before.buffer.spec_dirty()
            }
        },
    }
}

} // verus!
