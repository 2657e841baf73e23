use vstd::prelude::*;

use crate::editor::overlay::popup::{popup_area, popup_rect, popup_rows_view, PopupRow, PopupRowView};
use crate::editor::view::Rect;
use crate::text::{lowercase, starts_with, to_lowercase};
use crate::editor::overlay::slash_command::{next_index, prev_index, lemma_prev_index};

verus! {

/// The kind of entity that can be mentioned.
#[derive(Debug, Clone, Copy, PartialEq, Eq, Structural)]
pub enum MentionKind {
    User,
    AiAgent,
    Service,
}

/// A single mentionable entity returned by a `MentionProvider`.
#[derive(Debug, Clone)]
pub struct Mentionable {
    pub id: String,
    pub display_name: String,
    pub kind: MentionKind,
    pub description: Option<String>,
}

/// Trait that the host application implements to supply mention candidates.
pub trait MentionProvider: Send + Sync {
    /// Return all entities whose `display_name` starts with `prefix`.
    fn query(&self, prefix: &str) -> Vec<Mentionable>;
}

/// The entities whose lowercased display name begins with `filter` (all of
/// them when the filter is empty), in the order given.
pub open spec fn matching_mentions(items: Seq<Mentionable>, filter: Seq<char>) -> Seq<Mentionable>
    decreases items.len(),
{
    if items.len() == 0 {
        Seq::empty()
    } else if filter.len() == 0 || filter.is_prefix_of(lowercase(items.last().display_name@)) {
        matching_mentions(items.drop_last(), filter).push(items.last())
    } else {
        matching_mentions(items.drop_last(), filter)
    }
}

/// The entities offered for a filter are exactly those, in the order given,
/// whose lowercased display name begins with the filter (all of them for
/// an empty filter): each one offered is among the given ones and matches,
/// and each given one that matches is offered.
pub proof fn law_mentions_offered_by_display_name_prefix(items: Seq<Mentionable>, filter: Seq<char>)
    ensures
        matching_mentions(items, filter) == items.filter(
            |c: Mentionable| filter.len() == 0 || filter.is_prefix_of(lowercase(c.display_name@)),
        ),
        forall|k: int|
            0 <= k < matching_mentions(items, filter).len() ==> items.contains(
                #[trigger] matching_mentions(items, filter)[k],
            ) && (filter.len() == 0 || filter.is_prefix_of(
                lowercase(matching_mentions(items, filter)[k].display_name@),
            )),
        forall|i: int|
            0 <= i < items.len() && (filter.len() == 0 || filter.is_prefix_of(
                lowercase(items[i].display_name@),
            )) ==> matching_mentions(items, filter).contains(#[trigger] items[i]),
    decreases items.len(),
{
    broadcast use vstd::seq_lib::group_filter_ensures;

    reveal(Seq::filter);
    let pred = |c: Mentionable| filter.len() == 0 || filter.is_prefix_of(lowercase(c.display_name@));
    if items.len() > 0 {
        law_mentions_offered_by_display_name_prefix(items.drop_last(), filter);
    }
    assert(matching_mentions(items, filter) == items.filter(pred));
}

/// The symbol shown for each kind of entity.
pub open spec fn kind_label(k: MentionKind) -> Seq<char> {
    match k {
        MentionKind::User => "👤"@,
        MentionKind::AiAgent => "🤖"@,
        MentionKind::Service => "⚙"@,
    }
}

/// The text of an entity's row in the popup: its kind's symbol and its
/// display name, each after a space.
pub open spec fn mention_label(m: Mentionable) -> Seq<char> {
    " "@ + kind_label(m.kind) + " "@ + m.display_name@
}

/// The text of an entity's row in the popup (see `mention_label`).
pub fn mention_label_string(m: &Mentionable) -> (r: String)
    ensures
        r@ == mention_label(*m),
{
    let symbol = match m.kind {
        MentionKind::User => "👤",
        MentionKind::AiAgent => "🤖",
        MentionKind::Service => "⚙",
    };
    String::from_str(" ").concat(symbol).concat(" ").concat(m.display_name.as_str())
}

/// Popup overlay for the `@`-mention picker.
pub struct MentionOverlay {
    items: Vec<Mentionable>,
    filter: String,
    selected: usize,
}

impl MentionOverlay {
    /// The entities the picker offers.
    pub closed spec fn spec_items(&self) -> Seq<Mentionable> {
        self.items@
    }

    /// The current (lowercased) filter.
    pub closed spec fn spec_filter(&self) -> Seq<char> {
        self.filter@
    }

    /// The index of the highlighted entry among the matching items.
    pub closed spec fn spec_selected(&self) -> int {
        self.selected as int
    }

    /// The items that match the current filter.
    pub open spec fn spec_filtered(&self) -> Seq<Mentionable> {
        matching_mentions(self.spec_items(), self.spec_filter())
    }

    #[verifier::type_invariant]
    spec fn inv(&self) -> bool {
        self.selected == 0 || self.selected < matching_mentions(self.items@, self.filter@).len()
    }

    pub fn new(items: Vec<Mentionable>) -> (o: Self)
        ensures
            o.spec_items() == items@,
            o.spec_filter() == Seq::<char>::empty(),
            o.spec_selected() == 0,
    {
        MentionOverlay { items, filter: String::new(), selected: 0 }
    }

    /// Update the filter string (typed characters after `@`); the filter is
    /// kept lowercased and the selection goes back to the first entry.
    pub fn set_filter(&mut self, filter: String)
        ensures
            final(self).spec_items() == old(self).spec_items(),
            final(self).spec_filter() == lowercase(filter@),
            final(self).spec_selected() == 0,
    {
        let lower = to_lowercase(filter.as_str());
        self.selected = 0;
        self.filter = lower;
    }

    /// Return the entities that match the current filter.
    pub fn filtered(&self) -> (r: Vec<&Mentionable>)
        ensures
            r@.map_values(|c: &Mentionable| *c) == self.spec_filtered(),
    {
        let mut r: Vec<&Mentionable> = Vec::new();
        let empty = self.filter.unicode_len() == 0;
        let mut i: usize = 0;
        while i < self.items.len()
            invariant
                i <= self.items@.len(),
                empty == (self.filter@.len() == 0),
                r@.map_values(|c: &Mentionable| *c) == matching_mentions(
                    self.items@.take(i as int),
                    self.filter@,
                ),
            decreases self.items.len() - i,
        {
            let c = &self.items[i];
            let keep = if empty {
                true
            } else {
                let name = to_lowercase(c.display_name.as_str());
                starts_with(name.as_str(), self.filter.as_str())
            };
            proof {
                assert(self.items@.take(i + 1).drop_last() == self.items@.take(i as int));
                assert(self.items@.take(i + 1).last() == *c);
            }
            if keep {
                r.push(c);
            }
            assert(r@.map_values(|c: &Mentionable| *c) =~= matching_mentions(
                self.items@.take(i + 1),
                self.filter@,
            ));
            i = i + 1;
        }
        assert(self.items@.take(self.items.len() as int) == self.items@);
        r
    }

    /// The index of the highlighted entry among the matching ones.
    pub fn selected(&self) -> (r: usize)
        ensures
            r == self.spec_selected(),
    {
        self.selected
    }

    /// Move the selection down, wrapping around to the first entry.
    pub fn select_next(&mut self)
        ensures
            final(self).spec_items() == old(self).spec_items(),
            final(self).spec_filter() == old(self).spec_filter(),
            final(self).spec_selected() == next_index(
                old(self).spec_selected(),
                old(self).spec_filtered().len() as int,
            ),
    {
        proof {
            use_type_invariant(&*self);
        }
        let len = self.filtered().len();
        if len > 0 {
            self.selected = (self.selected + 1) % len;
        }
    }

    /// Move the selection up, wrapping around to the last entry.
    pub fn select_prev(&mut self)
        ensures
            final(self).spec_items() == old(self).spec_items(),
            final(self).spec_filter() == old(self).spec_filter(),
            final(self).spec_selected() == prev_index(
                old(self).spec_selected(),
                old(self).spec_filtered().len() as int,
            ),
    {
        proof {
            use_type_invariant(&*self);
        }
        let len = self.filtered().len();
        if len > 0 {
            proof {
                lemma_prev_index(self.selected as int, len as int);
            }
            self.selected = if self.selected == 0 {
                len - 1
            } else {
                self.selected - 1
            };
        }
    }

    /// What the popup shows in `area`: where it goes, and one row per
    /// matching entity, the selected one highlighted.
    pub fn popup(&self, area: Rect) -> (r: (Rect, Vec<PopupRow>))
        requires
            self.spec_filtered().len() % 65536 + 2 <= u16::MAX,
        ensures
            r.0 == popup_area(area, self.spec_filtered().len()),
            popup_rows_view(r.1@) == Seq::new(
                self.spec_filtered().len(),
                |i: int|
                    PopupRowView {
                        text: mention_label(self.spec_filtered()[i]),
                        highlighted: i == self.spec_selected(),
                    },
            ),
    {
        let items = self.filtered();
        let ghost f = self.spec_filtered();
        assert(items@.len() == f.len());
        let rect = popup_rect(area, items.len());
        let mut rows: Vec<PopupRow> = Vec::new();
        let mut i: usize = 0;
        while i < items.len()
            invariant
                i <= items@.len(),
                items@.len() == f.len(),
                items@.map_values(|c: &Mentionable| *c) == f,
                popup_rows_view(rows@) == Seq::new(
                    i as nat,
                    |k: int| PopupRowView { text: mention_label(f[k]), highlighted: k == self.spec_selected() },
                ),
            decreases items.len() - i,
        {
            let text = mention_label_string(items[i]);
            assert(*items@[i as int] == f[i as int]);
            let ghost before = rows@;
            assert(popup_rows_view(before).len() == i);
            assert(before.len() == i);
            let row = PopupRow { text, highlighted: i == self.selected };
            rows.push(row);
            assert(rows@ == before.push(row));
            assert(popup_rows_view(rows@)[i as int] == PopupRowView {
                text: mention_label(f[i as int]),
                highlighted: i == self.spec_selected(),
            });
            assert forall|k: int| 0 <= k < i implies popup_rows_view(rows@)[k] == (PopupRowView {
                text: mention_label(f[k]),
                highlighted: k == self.spec_selected(),
            }) by {
                assert(rows@[k] == before[k]);
                assert(popup_rows_view(before)[k] == PopupRowView {
                    text: mention_label(f[k]),
                    highlighted: k == self.spec_selected(),
                });
            }
            assert(popup_rows_view(rows@) =~= Seq::new(
                (i + 1) as nat,
                |k: int| PopupRowView { text: mention_label(f[k]), highlighted: k == self.spec_selected() },
            ));
            i = i + 1;
        }
        (rect, rows)
    }

    /// Return the currently highlighted mention (if any).
    pub fn selected_item(&self) -> (r: Option<&Mentionable>)
        ensures
            r == (if 0 <= self.spec_selected() < self.spec_filtered().len() {
                Some(&self.spec_filtered()[self.spec_selected()])
            } else {
                None
            }),
            r is Some <==> self.spec_filtered().len() > 0,
    {
        proof {
            use_type_invariant(self);
        }
        let items = self.filtered();
        if self.selected < items.len() {
            Some(items[self.selected])
        } else {
            None
        }
    }
}

} // verus!
