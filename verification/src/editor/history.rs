use vstd::prelude::*;

use crate::editor::cursor::Position;

verus! {

/// The coalescing window, in milliseconds, for grouping rapid edits into a
/// single undo step.
pub const GROUP_TIMEOUT_MS: u64 = 300;

/// The kind of change recorded in an edit entry.
#[derive(Debug, Clone, Copy, PartialEq, Eq, Structural)]
pub enum EditKind {
    Insert,
    Delete,
    Replace,
}

/// A single recorded change to the buffer.
#[derive(Debug, Clone)]
pub struct Edit {
    pub kind: EditKind,
    /// Text that was in place before the edit (used for undo).
    pub old_text: String,
    /// Text after the edit (used for redo).
    pub new_text: String,
    /// Character index in the rope where the change started.
    pub char_idx: usize,
    pub cursor_before: Position,
    pub cursor_after: Position,
    /// Reading of a monotonic clock, in milliseconds, when the edit was made.
    pub timestamp: u64,
}

impl Edit {
    /// An identical copy of this edit.
    pub fn duplicate(&self) -> (r: Edit)
        ensures
            r == *self,
    {
        Edit {
            kind: self.kind,
            old_text: self.old_text.clone(),
            new_text: self.new_text.clone(),
            char_idx: self.char_idx,
            cursor_before: self.cursor_before,
            cursor_after: self.cursor_after,
            timestamp: self.timestamp,
        }
    }
}

/// A group of edits that should be undone/redone together.
#[derive(Debug, Clone)]
pub struct EditGroup {
    pub edits: Vec<Edit>,
    /// Timestamp of the last edit appended to this group.
    pub last_edit_time: u64,
}

/// The mathematical content of an edit group: its edits in order and the
/// time of the last one.
pub struct GroupView {
    pub edits: Seq<Edit>,
    pub last_edit_time: u64,
}

impl View for EditGroup {
    type V = GroupView;

    open spec fn view(&self) -> GroupView {
        GroupView { edits: self.edits@, last_edit_time: self.last_edit_time }
    }
}

/// A group is well formed when it holds at least one edit and its time is
/// that of its last edit.
pub open spec fn group_wf(g: GroupView) -> bool {
    g.edits.len() > 0 && g.last_edit_time == g.edits.last().timestamp
}

/// `edit` is close enough in time to the group's last edit to join it.
/// (An edit stamped earlier than the group counts as zero elapsed time.)
pub open spec fn within_window(g: GroupView, edit: Edit) -> bool {
    edit.timestamp - g.last_edit_time <= GROUP_TIMEOUT_MS
}

/// The group formed by a single edit.
pub open spec fn single_group(edit: Edit) -> GroupView {
    GroupView { edits: seq![edit], last_edit_time: edit.timestamp }
}

/// The group `g` with `edit` appended.
pub open spec fn extended_group(g: GroupView, edit: Edit) -> GroupView {
    GroupView { edits: g.edits.push(edit), last_edit_time: edit.timestamp }
}

impl EditGroup {
    fn new(edit: Edit) -> (g: Self)
        ensures
            g@ == single_group(edit),
    {
        let ts = edit.timestamp;
        let mut edits = Vec::new();
        edits.push(edit);
        EditGroup { edits, last_edit_time: ts }
    }

    /// Return `true` if `edit` is close enough in time to be coalesced.
    fn can_coalesce(&self, edit: &Edit) -> (r: bool)
        ensures
            r == within_window(self@, *edit),
    {
        edit.timestamp.saturating_sub(self.last_edit_time) <= GROUP_TIMEOUT_MS
    }

    fn push(&mut self, edit: Edit)
        ensures
            final(self)@ == extended_group(old(self)@, edit),
    {
        self.last_edit_time = edit.timestamp;
        self.edits.push(edit);
    }

    /// An identical copy of this group.
    pub fn duplicate(&self) -> (r: EditGroup)
        ensures
            r@ == self@,
    {
        let mut edits: Vec<Edit> = Vec::new();
        let mut i: usize = 0;
        while i < self.edits.len()
            invariant
                i <= self.edits.len(),
                edits@ == self.edits@.take(i as int),
            decreases self.edits.len() - i,
        {
            edits.push(self.edits[i].duplicate());
            assert(self.edits@.take(i + 1) == self.edits@.take(i as int).push(self.edits@[i as int]));
            i = i + 1;
        }
        assert(self.edits@.take(self.edits.len() as int) == self.edits@);
        EditGroup { edits, last_edit_time: self.last_edit_time }
    }
}

/// The content of an optional group.
pub open spec fn opt_group_view(g: Option<EditGroup>) -> Option<GroupView> {
    match g {
        Some(g) => Some(g@),
        None => None,
    }
}

/// The content of a history: the undo stack and the redo stack, bottom first.
pub struct HistoryView {
    pub undo: Seq<GroupView>,
    pub redo: Seq<GroupView>,
}

/// What recording `edit` does to a history.
pub open spec fn push_transition(before: HistoryView, edit: Edit) -> HistoryView {
    let undo = if before.undo.len() > 0 && within_window(before.undo.last(), edit) {
        before.undo.drop_last().push(extended_group(before.undo.last(), edit))
    } else {
        before.undo.push(single_group(edit))
    };
    HistoryView { undo, redo: Seq::empty() }
}

/// What taking one step back does: the newest undo group moves to the redo
/// stack and is handed out; with nothing to undo, nothing changes.
pub open spec fn undo_transition(
    before: HistoryView,
    after: HistoryView,
    popped: Option<GroupView>,
) -> bool {
    if before.undo.len() == 0 {
        popped is None && after == before
    } else {
        &&& popped == Some(before.undo.last())
        &&& after.undo == before.undo.drop_last()
        &&& after.redo == before.redo.push(before.undo.last())
    }
}

/// What taking one step forward does: the newest redo group moves back to
/// the undo stack and is handed out; with nothing to redo, nothing changes.
pub open spec fn redo_transition(
    before: HistoryView,
    after: HistoryView,
    popped: Option<GroupView>,
) -> bool {
    if before.redo.len() == 0 {
        popped is None && after == before
    } else {
        &&& popped == Some(before.redo.last())
        &&& after.redo == before.redo.drop_last()
        &&& after.undo == before.undo.push(before.redo.last())
    }
}

/// Unlimited undo/redo history.
pub struct History {
    undo_stack: Vec<EditGroup>,
    redo_stack: Vec<EditGroup>,
}

impl View for History {
    type V = HistoryView;

    closed spec fn view(&self) -> HistoryView {
        HistoryView {
            undo: self.undo_stack@.map_values(|g: EditGroup| g@),
            redo: self.redo_stack@.map_values(|g: EditGroup| g@),
        }
    }
}

/// Every group of a history is well formed.
pub open spec fn history_wf(h: HistoryView) -> bool {
    &&& forall|i: int| 0 <= i < h.undo.len() ==> group_wf(#[trigger] h.undo[i])
    &&& forall|i: int| 0 <= i < h.redo.len() ==> group_wf(#[trigger] h.redo[i])
}

impl History {
    pub fn new() -> (h: Self)
        ensures
            h@.undo.len() == 0,
            h@.redo.len() == 0,
            history_wf(h@),
    {
        let h = History { undo_stack: Vec::new(), redo_stack: Vec::new() };
        assert(h@.undo.len() == 0);
        h
    }

    /// Record an edit.  Rapid consecutive edits are coalesced.
    /// Any recorded redo state is discarded when a new edit arrives.
    pub fn push(&mut self, edit: Edit)
        ensures
            final(self)@ == push_transition(old(self)@, edit),
            history_wf(old(self)@) ==> history_wf(final(self)@),
    {
        let ghost before = self@;
        let mut undo: Vec<EditGroup> = Vec::new();
        std::mem::swap(&mut undo, &mut self.undo_stack);
        let mut redo: Vec<EditGroup> = Vec::new();
        std::mem::swap(&mut redo, &mut self.redo_stack);
        assert(undo@.map_values(|g: EditGroup| g@) == before.undo);
        let n = undo.len();
        if n > 0 && undo[n - 1].can_coalesce(&edit) {
            let mut group = undo.pop().unwrap();
            assert(group@ == before.undo.last());
            group.push(edit);
            undo.push(group);
        } else {
            let group = EditGroup::new(edit);
            undo.push(group);
        }
        assert(undo@.map_values(|g: EditGroup| g@) =~= push_transition(before, edit).undo);
        self.undo_stack = undo;
        assert(self@.redo =~= Seq::<GroupView>::empty());
    }

    /// Pop the most recent edit group for undoing.
    pub fn pop_undo(&mut self) -> (r: Option<EditGroup>)
        ensures
            undo_transition(old(self)@, final(self)@, opt_group_view(r)),
            history_wf(old(self)@) ==> history_wf(final(self)@),
    {
        let ghost before = self@;
        if self.undo_stack.len() == 0 {
            return None;
        }
        let mut undo: Vec<EditGroup> = Vec::new();
        std::mem::swap(&mut undo, &mut self.undo_stack);
        let mut redo: Vec<EditGroup> = Vec::new();
        std::mem::swap(&mut redo, &mut self.redo_stack);
        assert(undo@.map_values(|g: EditGroup| g@) == before.undo);
        assert(redo@.map_values(|g: EditGroup| g@) == before.redo);
        let group = undo.pop().unwrap();
        let copy = group.duplicate();
        redo.push(copy);
        assert(undo@.map_values(|g: EditGroup| g@) =~= before.undo.drop_last());
        assert(redo@.map_values(|g: EditGroup| g@) =~= before.redo.push(before.undo.last()));
        self.undo_stack = undo;
        self.redo_stack = redo;
        Some(group)
    }

    /// Pop the most recently undone edit group for redoing.
    pub fn pop_redo(&mut self) -> (r: Option<EditGroup>)
        ensures
            redo_transition(old(self)@, final(self)@, opt_group_view(r)),
            history_wf(old(self)@) ==> history_wf(final(self)@),
    {
        let ghost before = self@;
        if self.redo_stack.len() == 0 {
            return None;
        }
        let mut undo: Vec<EditGroup> = Vec::new();
        std::mem::swap(&mut undo, &mut self.undo_stack);
        let mut redo: Vec<EditGroup> = Vec::new();
        std::mem::swap(&mut redo, &mut self.redo_stack);
        assert(undo@.map_values(|g: EditGroup| g@) == before.undo);
        assert(redo@.map_values(|g: EditGroup| g@) == before.redo);
        let group = redo.pop().unwrap();
        let copy = group.duplicate();
        undo.push(copy);
        assert(redo@.map_values(|g: EditGroup| g@) =~= before.redo.drop_last());
        assert(undo@.map_values(|g: EditGroup| g@) =~= before.undo.push(before.redo.last()));
        self.undo_stack = undo;
        self.redo_stack = redo;
        Some(group)
    }

    /// Return `true` if there are changes that can be undone.
    pub fn can_undo(&self) -> (r: bool)
        ensures
            r == (self@.undo.len() > 0),
    {
        self.undo_stack.len() > 0
    }

    /// Return `true` if there are changes that can be redone.
    pub fn can_redo(&self) -> (r: bool)
        ensures
            r == (self@.redo.len() > 0),
    {
        self.redo_stack.len() > 0
    }
}

/// Undoing a step and then redoing it gives back the history exactly as it
/// was, and both calls hand out the same group (when there is nothing to
/// undo, this holds only if there is nothing to redo either).
pub proof fn law_undo_then_redo_restores(
    h0: HistoryView,
    h1: HistoryView,
    h2: HistoryView,
    undone: Option<GroupView>,
    redone: Option<GroupView>,
)
    requires
        undo_transition(h0, h1, undone),
        redo_transition(h1, h2, redone),
        h0.undo.len() > 0 || h0.redo.len() == 0,
    ensures
        h2 == h0,
        redone == undone,
{
    assert(h2.undo =~= h0.undo);
    assert(h2.redo =~= h0.redo);
}

/// Redoing a step and then undoing it gives back the history exactly as it
/// was, and both calls hand out the same group (when there is nothing to
/// redo, this holds only if there is nothing to undo either).
pub proof fn law_redo_then_undo_restores(
    h0: HistoryView,
    h1: HistoryView,
    h2: HistoryView,
    redone: Option<GroupView>,
    undone: Option<GroupView>,
)
    requires
        redo_transition(h0, h1, redone),
        undo_transition(h1, h2, undone),
        h0.redo.len() > 0 || h0.undo.len() == 0,
    ensures
        h2 == h0,
        redone == undone,
{
    assert(h2.undo =~= h0.undo);
    assert(h2.redo =~= h0.redo);
}

/// After an edit is recorded there is something to undo and nothing to
/// redo, whatever was undone before; the edit is the last one of the newest
/// group.
pub proof fn law_push_enables_undo_and_clears_redo(h: HistoryView, edit: Edit)
    ensures
        push_transition(h, edit).undo.len() > 0,
        push_transition(h, edit).redo.len() == 0,
        push_transition(h, edit).undo.last().edits.last() == edit,
{
}

/// An undo moves one group from one stack to the other: the total number
/// of groups is unchanged, and likewise for a redo.
pub proof fn law_undo_redo_keep_group_count(
    h0: HistoryView,
    h1: HistoryView,
    g: Option<GroupView>,
)
    ensures
        undo_transition(h0, h1, g) ==> h1.undo.len() + h1.redo.len() == h0.undo.len() + h0.redo.len(),
        redo_transition(h0, h1, g) ==> h1.undo.len() + h1.redo.len() == h0.undo.len() + h0.redo.len(),
{
}

/// Two edits recorded at most 300 ms apart (or the second stamped earlier)
/// land in the same undo group: the second adds no group and joins the
/// first at the end of the newest one.
pub proof fn law_rapid_edits_coalesce(h: HistoryView, e1: Edit, e2: Edit)
    requires
        e2.timestamp - e1.timestamp <= GROUP_TIMEOUT_MS,
    ensures
        push_transition(push_transition(h, e1), e2).undo.len() == push_transition(h, e1).undo.len(),
        push_transition(push_transition(h, e1), e2).undo.last().edits.last() == e2,
        ({
            let g = push_transition(push_transition(h, e1), e2).undo.last().edits;
            g.len() >= 2 && g[g.len() - 2] == e1
        }),
{
}

/// An edit recorded more than 300 ms after the previous one starts a new
/// undo group of its own.
pub proof fn law_slow_edits_start_a_group(h: HistoryView, e1: Edit, e2: Edit)
    requires
        e2.timestamp > e1.timestamp + GROUP_TIMEOUT_MS,
    ensures
        push_transition(push_transition(h, e1), e2).undo.len() == push_transition(h, e1).undo.len()
            + 1,
        push_transition(push_transition(h, e1), e2).undo.last() == single_group(e2),
{
}

impl Default for History {
    fn default() -> (h: Self)
        ensures
            h@.undo.len() == 0,
            h@.redo.len() == 0,
    {
        History::new()
    }
}

} // verus!
