use vstd::prelude::*;

verus! {

/// A character-based position within the document (0-indexed).
#[derive(Debug, Clone, Copy, PartialEq, Eq, Structural, PartialOrd, Ord)]
pub struct Position {
    /// Logical (unwrapped) line index.
    pub line: usize,
    /// Character column within the logical line.
    pub col: usize,
}

/// Positions are ordered by line, then by column.
pub open spec fn pos_le(a: Position, b: Position) -> bool {
    a.line < b.line || (a.line == b.line && a.col <= b.col)
}

impl Position {
    pub fn new(line: usize, col: usize) -> (p: Self)
        ensures
            p.line == line,
            p.col == col,
    {
        Position { line, col }
    }

    /// Returns `true` when `self` comes no later than `other` in the document.
    pub fn is_before_or_at(&self, other: &Position) -> (r: bool)
        ensures
            r == pos_le(*self, *other),
    {
        self.line < other.line || (self.line == other.line && self.col <= other.col)
    }
}

impl Default for Position {
    fn default() -> (p: Self)
        ensures
            p.line == 0,
            p.col == 0,
    {
        Position { line: 0, col: 0 }
    }
}

/// Cursor state: current position, optional selection anchor, and preferred
/// column for vertical movement.
#[derive(Debug, Clone)]
pub struct Cursor {
    /// The active cursor position (insertion point).
    pub pos: Position,
    /// The fixed end of a selection; `None` when there is no selection.
    pub anchor: Option<Position>,
    /// Preferred column for up/down movement (sticky column).
    pub preferred_col: usize,
}

impl Default for Cursor {
    fn default() -> (c: Self)
        ensures
            c.pos == (Position { line: 0, col: 0 }),
            c.anchor.is_none(),
            c.preferred_col == 0,
    {
        Cursor { pos: Position { line: 0, col: 0 }, anchor: None, preferred_col: 0 }
    }
}

impl Cursor {
    /// Move the cursor to `pos`, clearing any selection.
    pub fn move_to(&mut self, pos: Position)
        ensures
            final(self).pos == pos,
            final(self).anchor.is_none(),
            final(self).preferred_col == pos.col,
    {
        self.pos = pos;
        self.anchor = None;
        self.preferred_col = pos.col;
    }

    /// Begin or extend a selection.  The anchor is set to the current position
    /// before the first call; subsequent calls only update `pos`.
    pub fn start_selection(&mut self)
        ensures
            final(self).pos == old(self).pos,
            final(self).preferred_col == old(self).preferred_col,
            final(self).anchor == (match old(self).anchor {
                Some(a) => Some(a),
                None => Some(old(self).pos),
            }),
    {
        if self.anchor.is_none() {
            self.anchor = Some(self.pos);
        }
    }

    /// Clear the selection without moving the cursor.
    pub fn clear_selection(&mut self)
        ensures
            final(self).pos == old(self).pos,
            final(self).preferred_col == old(self).preferred_col,
            final(self).anchor.is_none(),
    {
        self.anchor = None;
    }

    /// Return `true` if a selection is active.
    pub fn has_selection(&self) -> (r: bool)
        ensures
            r == self.anchor.is_some(),
    {
        self.anchor.is_some()
    }

    /// Return the ordered `(start, end)` range of the current selection.
    /// Returns `None` when there is no selection.
    pub fn selection_range(&self) -> (r: Option<(Position, Position)>)
        ensures
            r == (match self.anchor {
                None => None,
                Some(a) => if pos_le(a, self.pos) {
                    Some((a, self.pos))
                } else {
                    Some((self.pos, a))
                },
            }),
            r matches Some((start, end)) ==> pos_le(start, end),
    {
        match self.anchor {
            None => None,
            Some(anchor) => {
                if anchor.is_before_or_at(&self.pos) {
                    Some((anchor, self.pos))
                } else {
                    Some((self.pos, anchor))
                }
            },
        }
    }
}

} // verus!
