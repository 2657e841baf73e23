# text_editor

The core of a modeless, nano-like Markdown editor for the terminal, written
in Verus: the rope-backed text buffer with dirty tracking, the cursor and
its movements, undo/redo history with time-based grouping, key bindings,
word wrap, Markdown highlighting and preview, the slash-command and mention
popups, crash-recovery timing, and the layout of everything the editor
widget draws.  Each public function states its behaviour in `requires` /
`ensures`, and the properties that span several calls stand as `law_*`
proof functions beside the code they are about.

Layout:

- `src/` — the verified library (`editor::*`, `ui::*`, `text`, `app`).
- `tests/` — tests run against the compiled library.
- `app/` — the terminal program: event loop, crossterm/ratatui drawing,
  clipboard and file access.
