use vstd::prelude::*;

use crate::editor::overlay::popup::{pad_string, padded, popup_area, popup_rect, popup_rows_view, PopupRow, PopupRowView};
use crate::editor::view::Rect;
use crate::text::{lowercase, starts_with, to_lowercase};

verus! {

/// The high-level category of action a slash command performs.
#[derive(Debug, Clone)]
pub enum SlashAction {
    /// Insert a Markdown block template at the current cursor position.
    InsertTemplate(String),
    /// Change the block style of the current paragraph.
    SetBlockStyle(BlockStyle),
    /// Asynchronous action (resolved by the host application).
    Async(String),
    /// Fully custom callback (host-supplied).
    Custom,
}

/// Markdown block styles that can be applied via a slash command.
#[derive(Debug, Clone, Copy, PartialEq, Eq, Structural)]
pub enum BlockStyle {
    Heading(u8),
    BulletList,
    NumberedList,
    Checkbox,
    Quote,
    CodeBlock,
    HorizontalRule,
}

/// A single entry in the slash command menu.
#[derive(Debug, Clone)]
pub struct SlashCommand {
    pub name: String,
    pub description: String,
    pub icon: String,
    pub action: SlashAction,
}

/// Whether `c` is the command with the given name, description, icon and
/// action.
pub open spec fn command_is(
    c: SlashCommand,
    name: Seq<char>,
    description: Seq<char>,
    icon: Seq<char>,
    action: SlashAction,
) -> bool {
    &&& c.name@ == name
    &&& c.description@ == description
    &&& c.icon@ == icon
    &&& c.action == action
}

impl SlashCommand {
    pub fn new(name: String, description: String, icon: String, action: SlashAction) -> (c: Self)
        ensures
            c.name == name,
            c.description == description,
            c.icon == icon,
            c.action == action,
    {
        SlashCommand { name, description, icon, action }
    }
}

fn block_command(name: &str, description: &str, icon: &str, style: BlockStyle) -> (c: SlashCommand)
    ensures
        command_is(c, name@, description@, icon@, SlashAction::SetBlockStyle(style)),
{
    SlashCommand::new(
        String::from_str(name),
        String::from_str(description),
        String::from_str(icon),
        SlashAction::SetBlockStyle(style),
    )
}

/// The built-in slash commands, in menu order.
pub open spec fn is_default_command_list(r: Seq<SlashCommand>) -> bool {
    &&& r.len() == 10
    &&& command_is(r[0], "h1"@, "Heading 1"@, "H1"@, SlashAction::SetBlockStyle(BlockStyle::Heading(1)))
    &&& command_is(r[1], "h2"@, "Heading 2"@, "H2"@, SlashAction::SetBlockStyle(BlockStyle::Heading(2)))
    &&& command_is(r[2], "h3"@, "Heading 3"@, "H3"@, SlashAction::SetBlockStyle(BlockStyle::Heading(3)))
    &&& command_is(r[3], "bullet"@, "Bullet list"@, "•"@, SlashAction::SetBlockStyle(BlockStyle::BulletList))
    &&& command_is(r[4], "numbered"@, "Numbered list"@, "1."@, SlashAction::SetBlockStyle(BlockStyle::NumberedList))
    &&& command_is(r[5], "todo"@, "Checkbox (todo)"@, "☐"@, SlashAction::SetBlockStyle(BlockStyle::Checkbox))
    &&& command_is(r[6], "code"@, "Fenced code block"@, "<>"@, SlashAction::SetBlockStyle(BlockStyle::CodeBlock))
    &&& command_is(r[7], "quote"@, "Block quote"@, "❝"@, SlashAction::SetBlockStyle(BlockStyle::Quote))
    &&& command_is(r[8], "divider"@, "Horizontal rule"@, "—"@, SlashAction::SetBlockStyle(BlockStyle::HorizontalRule))
    &&& r[9].name@ == "table"@
    &&& r[9].description@ == "Markdown table"@
    &&& r[9].icon@ == "▦"@
    &&& r[9].action matches SlashAction::InsertTemplate(t) && t@ == "| Col1 | Col2 |\n|------|------|\n| | |\n"@
}

/// Return the built-in default slash commands.
pub fn default_commands() -> (r: Vec<SlashCommand>)
    ensures
        is_default_command_list(r@),
{
    let mut v: Vec<SlashCommand> = Vec::new();
    v.push(block_command("h1", "Heading 1", "H1", BlockStyle::Heading(1)));
    v.push(block_command("h2", "Heading 2", "H2", BlockStyle::Heading(2)));
    v.push(block_command("h3", "Heading 3", "H3", BlockStyle::Heading(3)));
    v.push(block_command("bullet", "Bullet list", "•", BlockStyle::BulletList));
    v.push(block_command("numbered", "Numbered list", "1.", BlockStyle::NumberedList));
    v.push(block_command("todo", "Checkbox (todo)", "☐", BlockStyle::Checkbox));
    v.push(block_command("code", "Fenced code block", "<>", BlockStyle::CodeBlock));
    v.push(block_command("quote", "Block quote", "❝", BlockStyle::Quote));
    v.push(block_command("divider", "Horizontal rule", "—", BlockStyle::HorizontalRule));
    v.push(
        SlashCommand::new(
            String::from_str("table"),
            String::from_str("Markdown table"),
            String::from_str("▦"),
            SlashAction::InsertTemplate(
                String::from_str("| Col1 | Col2 |\n|------|------|\n| | |\n"),
            ),
        ),
    );
    v
}

/// The commands whose lowercased name begins with `filter` (all of them
/// when the filter is empty), in the order given.
pub open spec fn matching_commands(cmds: Seq<SlashCommand>, filter: Seq<char>) -> Seq<SlashCommand>
    decreases cmds.len(),
{
    if cmds.len() == 0 {
        Seq::empty()
    } else if filter.len() == 0 || filter.is_prefix_of(lowercase(cmds.last().name@)) {
        matching_commands(cmds.drop_last(), filter).push(cmds.last())
    } else {
        matching_commands(cmds.drop_last(), filter)
    }
}

/// The commands offered for a filter are exactly those, in the order given,
/// whose lowercased name begins with the filter (all of them for
/// an empty filter): each one offered is among the given ones and matches,
/// and each given one that matches is offered.
pub proof fn law_commands_offered_by_name_prefix(items: Seq<SlashCommand>, filter: Seq<char>)
    ensures
        matching_commands(items, filter) == items.filter(
            |c: SlashCommand| filter.len() == 0 || filter.is_prefix_of(lowercase(c.name@)),
        ),
        forall|k: int|
            0 <= k < matching_commands(items, filter).len() ==> items.contains(
                #[trigger] matching_commands(items, filter)[k],
            ) && (filter.len() == 0 || filter.is_prefix_of(
                lowercase(matching_commands(items, filter)[k].name@),
            )),
        forall|i: int|
            0 <= i < items.len() && (filter.len() == 0 || filter.is_prefix_of(
                lowercase(items[i].name@),
            )) ==> matching_commands(items, filter).contains(#[trigger] items[i]),
    decreases items.len(),
{
    broadcast use vstd::seq_lib::group_filter_ensures;

    reveal(Seq::filter);
    let pred = |c: SlashCommand| filter.len() == 0 || filter.is_prefix_of(lowercase(c.name@));
    if items.len() > 0 {
        law_commands_offered_by_name_prefix(items.drop_last(), filter);
    }
    assert(matching_commands(items, filter) == items.filter(pred));
}

/// The selection after moving down in a list of `len` entries.
pub open spec fn next_index(selected: int, len: int) -> int {
    if len > 0 {
        (selected + 1) % len
    } else {
        selected
    }
}

/// The selection after moving up in a list of `len` entries.
pub open spec fn prev_index(selected: int, len: int) -> int {
    if len > 0 {
        (selected + len - 1) % len
    } else {
        selected
    }
}

/// Moving up from the first entry wraps to the last; otherwise it goes one
/// entry up.
pub proof fn lemma_prev_index(selected: int, len: int)
    requires
        0 <= selected < len,
    ensures
        prev_index(selected, len) == if selected == 0 {
            len - 1
        } else {
            selected - 1
        },
{
    if selected == 0 {
        assert((len - 1) % len == len - 1) by (nonlinear_arith)
            requires
                len > 0,
        ;
    } else {
        assert((selected + len - 1) % len == selected - 1) by (nonlinear_arith)
            requires
                0 < selected < len,
        ;
    }
}

/// In a list that is not empty, moving the selection down and then up (or
/// up and then down) comes back to the entry it started on, and each move
/// lands on an entry of the list.
pub proof fn law_next_then_prev_restores(selected: int, len: int)
    requires
        0 <= selected < len,
    ensures
        0 <= next_index(selected, len) < len,
        0 <= prev_index(selected, len) < len,
        prev_index(next_index(selected, len), len) == selected,
        next_index(prev_index(selected, len), len) == selected,
{
    lemma_prev_index(selected, len);
    if selected + 1 < len {
        assert((selected + 1) % len == selected + 1) by (nonlinear_arith)
            requires
                0 <= selected + 1 < len,
        ;
    } else {
        assert((selected + 1) % len == 0) by (nonlinear_arith)
            requires
                selected + 1 == len,
                len > 0,
        ;
    }
    let n = next_index(selected, len);
    lemma_prev_index(n, len);
    let q = prev_index(selected, len);
    if q + 1 < len {
        assert((q + 1) % len == q + 1) by (nonlinear_arith)
            requires
                0 <= q + 1 < len,
        ;
    } else {
        assert((q + 1) % len == 0) by (nonlinear_arith)
            requires
                q + 1 == len,
                len > 0,
        ;
    }
}

/// The text of a command's row in the popup: its icon, its name padded to
/// twelve characters, and its description, each after a space.
pub open spec fn command_label(c: SlashCommand) -> Seq<char> {
    " "@ + c.icon@ + " "@ + padded(c.name@, 12) + " "@ + c.description@
}

/// The text of a command's row in the popup (see `command_label`).
pub fn command_label_string(c: &SlashCommand) -> (r: String)
    ensures
        r@ == command_label(*c),
{
    proof {
        reveal_strlit(" ");
    }
    let name = pad_string(c.name.as_str(), 12);
    String::from_str(" ").concat(c.icon.as_str()).concat(" ").concat(name.as_str()).concat(
        " ",
    ).concat(c.description.as_str())
}

/// Popup overlay for the slash-command picker.
pub struct SlashCommandOverlay {
    commands: Vec<SlashCommand>,
    filter: String,
    selected: usize,
}

impl SlashCommandOverlay {
    /// The commands the picker offers.
    pub closed spec fn spec_commands(&self) -> Seq<SlashCommand> {
        self.commands@
    }

    /// The current (lowercased) filter.
    pub closed spec fn spec_filter(&self) -> Seq<char> {
        self.filter@
    }

    /// The index of the highlighted entry among the matching commands.
    pub closed spec fn spec_selected(&self) -> int {
        self.selected as int
    }

    /// The commands that match the current filter.
    pub open spec fn spec_filtered(&self) -> Seq<SlashCommand> {
        matching_commands(self.spec_commands(), self.spec_filter())
    }

    #[verifier::type_invariant]
    spec fn inv(&self) -> bool {
        self.selected == 0 || self.selected < matching_commands(self.commands@, self.filter@).len()
    }

    pub fn new(commands: Vec<SlashCommand>) -> (o: Self)
        ensures
            o.spec_commands() == commands@,
            o.spec_filter() == Seq::<char>::empty(),
            o.spec_selected() == 0,
    {
        SlashCommandOverlay { commands, filter: String::new(), selected: 0 }
    }

    /// Update the filter string (typed characters after `/`); the filter is
    /// kept lowercased and the selection goes back to the first entry.
    pub fn set_filter(&mut self, filter: String)
        ensures
            final(self).spec_commands() == old(self).spec_commands(),
            final(self).spec_filter() == lowercase(filter@),
            final(self).spec_selected() == 0,
    {
        let lower = to_lowercase(filter.as_str());
        self.selected = 0;
        self.filter = lower;
    }

    /// Return commands that match the current filter.
    pub fn filtered(&self) -> (r: Vec<&SlashCommand>)
        ensures
            r@.map_values(|c: &SlashCommand| *c) == self.spec_filtered(),
    {
        let mut r: Vec<&SlashCommand> = Vec::new();
        let empty = self.filter.unicode_len() == 0;
        let mut i: usize = 0;
        while i < self.commands.len()
            invariant
                i <= self.commands@.len(),
                empty == (self.filter@.len() == 0),
                r@.map_values(|c: &SlashCommand| *c) == matching_commands(
                    self.commands@.take(i as int),
                    self.filter@,
                ),
            decreases self.commands.len() - i,
        {
            let c = &self.commands[i];
            let keep = if empty {
                true
            } else {
                let name = to_lowercase(c.name.as_str());
                starts_with(name.as_str(), self.filter.as_str())
            };
            proof {
                assert(self.commands@.take(i + 1).drop_last() == self.commands@.take(i as int));
                assert(self.commands@.take(i + 1).last() == *c);
            }
            if keep {
                r.push(c);
            }
            assert(r@.map_values(|c: &SlashCommand| *c) =~= matching_commands(
                self.commands@.take(i + 1),
                self.filter@,
            ));
            i = i + 1;
        }
        assert(self.commands@.take(self.commands.len() as int) == self.commands@);
        r
    }

    /// The index of the highlighted entry among the matching ones.
    pub fn selected(&self) -> (r: usize)
        ensures
            r == self.spec_selected(),
    {
        self.selected
    }

    /// Move the selection down, wrapping around to the first entry.
    pub fn select_next(&mut self)
        ensures
            final(self).spec_commands() == old(self).spec_commands(),
            final(self).spec_filter() == old(self).spec_filter(),
            final(self).spec_selected() == next_index(
                old(self).spec_selected(),
                old(self).spec_filtered().len() as int,
            ),
    {
        proof {
            use_type_invariant(&*self);
        }
        let len = self.filtered().len();
        if len > 0 {
            self.selected = (self.selected + 1) % len;
        }
    }

    /// Move the selection up, wrapping around to the last entry.
    pub fn select_prev(&mut self)
        ensures
            final(self).spec_commands() == old(self).spec_commands(),
            final(self).spec_filter() == old(self).spec_filter(),
            final(self).spec_selected() == prev_index(
                old(self).spec_selected(),
                old(self).spec_filtered().len() as int,
            ),
    {
        proof {
            use_type_invariant(&*self);
        }
        let len = self.filtered().len();
        if len > 0 {
            proof {
                lemma_prev_index(self.selected as int, len as int);
            }
            self.selected = if self.selected == 0 {
                len - 1
            } else {
                self.selected - 1
            };
        }
    }

    /// What the popup shows in `area`: where it goes, and one row per
    /// matching command, the selected one highlighted.
    pub fn popup(&self, area: Rect) -> (r: (Rect, Vec<PopupRow>))
        requires
            self.spec_filtered().len() % 65536 + 2 <= u16::MAX,
        ensures
            r.0 == popup_area(area, self.spec_filtered().len()),
            popup_rows_view(r.1@) == Seq::new(
                self.spec_filtered().len(),
                |i: int|
                    PopupRowView {
                        text: command_label(self.spec_filtered()[i]),
                        highlighted: i == self.spec_selected(),
                    },
            ),
    {
        let items = self.filtered();
        let ghost f = self.spec_filtered();
        assert(items@.len() == f.len());
        let rect = popup_rect(area, items.len());
        let mut rows: Vec<PopupRow> = Vec::new();
        let mut i: usize = 0;
        while i < items.len()
            invariant
                i <= items@.len(),
                items@.len() == f.len(),
                items@.map_values(|c: &SlashCommand| *c) == f,
                popup_rows_view(rows@) == Seq::new(
                    i as nat,
                    |k: int| PopupRowView { text: command_label(f[k]), highlighted: k == self.spec_selected() },
                ),
            decreases items.len() - i,
        {
            let text = command_label_string(items[i]);
            assert(*items@[i as int] == f[i as int]);
            let ghost before = rows@;
            assert(popup_rows_view(before).len() == i);
            assert(before.len() == i);
            let row = PopupRow { text, highlighted: i == self.selected };
            rows.push(row);
            assert(rows@ == before.push(row));
            assert(popup_rows_view(rows@)[i as int] == PopupRowView {
                text: command_label(f[i as int]),
                highlighted: i == self.spec_selected(),
            });
            assert forall|k: int| 0 <= k < i implies popup_rows_view(rows@)[k] == (PopupRowView {
                text: command_label(f[k]),
                highlighted: k == self.spec_selected(),
            }) by {
                assert(rows@[k] == before[k]);
                assert(popup_rows_view(before)[k] == PopupRowView {
                    text: command_label(f[k]),
                    highlighted: k == self.spec_selected(),
                });
            }
            assert(popup_rows_view(rows@) =~= Seq::new(
                (i + 1) as nat,
                |k: int| PopupRowView { text: command_label(f[k]), highlighted: k == self.spec_selected() },
            ));
            i = i + 1;
        }
        (rect, rows)
    }

    /// Return the currently selected command (if any).
    pub fn selected_command(&self) -> (r: Option<&SlashCommand>)
        ensures
            r == (if 0 <= self.spec_selected() < self.spec_filtered().len() {
                Some(&self.spec_filtered()[self.spec_selected()])
            } else {
                None
            }),
            r is Some <==> self.spec_filtered().len() > 0,
    {
        proof {
            use_type_invariant(self);
        }
        let items = self.filtered();
        if self.selected < items.len() {
            Some(items[self.selected])
        } else {
            None
        }
    }
}

} // verus!
