use vstd::prelude::*;

use crate::popups::{
    closed_if_kind, same_except_popups, ActiveModalPopupKind, EmojiReactionItem,
    EmojiReactionPickerState, ModalPopup, ReactionUsersPopupState,
};
use crate::selection::{clamp_selected, max_scroll_for, ScrollState, SelectionState};
use crate::state::{AppCommand, DashboardState, MessageState, ReactionEmoji, ReactionInfo};
use crate::unicode::str_eq;

verus! {

impl ReactionEmoji {
    /// A copy of this emoji.
    pub fn duplicate(&self) -> (r: ReactionEmoji)
        ensures
            r == *self,
    {
        match self {
            ReactionEmoji::Unicode(value) => ReactionEmoji::Unicode(value.clone()),
            ReactionEmoji::Custom { id, name, animated } => ReactionEmoji::Custom {
                id: *id,
                name: match name {
                    Some(name) => Some(name.clone()),
                    None => None,
                },
                animated: *animated,
            },
        }
    }
}

impl EmojiReactionItem {
    /// A copy of this item.
    pub fn duplicate(&self) -> (r: EmojiReactionItem)
        ensures
            r == *self,
    {
        EmojiReactionItem { emoji: self.emoji.duplicate(), label: self.label.clone() }
    }
}

fn duplicate_items(items: &Vec<EmojiReactionItem>) -> (r: Vec<EmojiReactionItem>)
    ensures
        r@ == items@,
{
    let mut out: Vec<EmojiReactionItem> = Vec::new();
    let mut i: usize = 0;
    while i < items.len()
        invariant
            i <= items@.len(),
            out@ =~= items@.take(i as int),
        decreases items@.len() - i,
    {
        out.push(items[i].duplicate());
        i = i + 1;
    }
    proof {
        assert(items@.take(items@.len() as int) =~= items@);
    }
    out
}

/// The open emoji reaction picker, if any.
pub open spec fn reaction_picker_of(state: &DashboardState) -> Option<EmojiReactionPickerState> {
    match state.popups.modal {
        Some(ModalPopup::EmojiReactionPicker(p)) => Some(p),
        _ => None,
    }
}

/// The open reaction users popup, if any.
pub open spec fn reaction_users_of(state: &DashboardState) -> Option<ReactionUsersPopupState> {
    match state.popups.modal {
        Some(ModalPopup::ReactionUsers(p)) => Some(p),
        _ => None,
    }
}

/// The open emoji reaction picker after applying `f` to it, everything else as it was.
pub open spec fn reaction_picker_updated(
    before: &DashboardState,
    after: &DashboardState,
    f: spec_fn(EmojiReactionPickerState) -> EmojiReactionPickerState,
) -> bool {
    &&& match before.popups.modal {
        Some(ModalPopup::EmojiReactionPicker(p)) => after.popups.modal == Some(
            ModalPopup::EmojiReactionPicker(f(p)),
        ),
        _ => after.popups.modal == before.popups.modal,
    }
    &&& same_except_popups(before, after)
}

/// The open reaction users popup's scroll after applying `f` to it.
pub open spec fn reaction_users_scroll_updated(
    before: &DashboardState,
    after: &DashboardState,
    f: spec_fn(ScrollState, int) -> ScrollState,
) -> bool {
    &&& match before.popups.modal {
        Some(ModalPopup::ReactionUsers(p)) => after.popups.modal == Some(
            ModalPopup::ReactionUsers(
                ReactionUsersPopupState { scroll: f(p.scroll, p.lines@.len() as int), lines: p.lines },
            ),
        ),
        _ => after.popups.modal == before.popups.modal,
    }
    &&& same_except_popups(before, after)
}

/// A scroll offset kept within `0..=max_scroll_for(total, height)`.
pub open spec fn clamped_scroll(scroll: int, total: int, height: int) -> int {
    if scroll <= max_scroll_for(total, height) {
        scroll
    } else {
        max_scroll_for(total, height)
    }
}

impl DashboardState {
    /// The open reaction users popup.
    pub fn reaction_users_popup(&self) -> (r: Option<&ReactionUsersPopupState>)
        ensures
            match reaction_users_of(self) {
                Some(p) => r == Some(&p),
                None => r is None,
            },
    {
        match &self.popups.modal {
            Some(ModalPopup::ReactionUsers(popup)) => Some(popup),
            _ => None,
        }
    }

    /// The emoji the open picker lists under its current filter.
    pub fn filtered_emoji_reaction_items_slice(&self) -> (r: Option<&[EmojiReactionItem]>)
        ensures
            match reaction_picker_of(self) {
                Some(p) => r matches Some(items) && items@ == p.filtered_items@,
                None => r is None,
            },
    {
        match &self.popups.modal {
            Some(ModalPopup::EmojiReactionPicker(picker)) => Some(picker.filtered_items.as_slice()),
            _ => None,
        }
    }

    /// The open picker's filter text, while it filters.
    pub fn emoji_reaction_filter(&self) -> (r: Option<&str>)
        ensures
            match reaction_picker_of(self) {
                Some(p) => match p.filter {
                    Some(f) => r matches Some(s) && s@ == f@,
                    None => r is None,
                },
                None => r is None,
            },
    {
        match &self.popups.modal {
            Some(ModalPopup::EmojiReactionPicker(picker)) => match &picker.filter {
                Some(filter) => Some(filter.as_str()),
                None => None,
            },
            _ => None,
        }
    }

    /// Reactions the picked message already has; empty when the picker is closed.
    pub fn existing_emoji_reactions(&self) -> (r: &[ReactionEmoji])
        ensures
            match reaction_picker_of(self) {
                Some(p) => r@ == p.existing_reactions@,
                None => r@.len() == 0,
            },
    {
        match &self.popups.modal {
            Some(ModalPopup::EmojiReactionPicker(picker)) => picker.existing_reactions.as_slice(),
            _ => &[],
        }
    }

    /// Reactions of the user on the picked message; empty when the picker is closed.
    pub fn own_emoji_reactions(&self) -> (r: &[ReactionEmoji])
        ensures
            match reaction_picker_of(self) {
                Some(p) => r@ == p.own_reactions@,
                None => r@.len() == 0,
            },
    {
        match &self.popups.modal {
            Some(ModalPopup::EmojiReactionPicker(picker)) => picker.own_reactions.as_slice(),
            _ => &[],
        }
    }

    /// Whether the open picker filters its emoji.
    pub fn is_filtering_emoji_reactions(&self) -> (r: bool)
        ensures
            r == (reaction_picker_of(self) matches Some(p) && p.filter is Some),
    {
        self.emoji_reaction_filter().is_some()
    }

    /// Whether keys go to the open picker's filter text.
    pub fn is_editing_emoji_reaction_filter(&self) -> (r: bool)
        ensures
            r == (reaction_picker_of(self) matches Some(p) && p.filter_editing),
    {
        match &self.popups.modal {
            Some(ModalPopup::EmojiReactionPicker(picker)) => picker.filter_editing,
            _ => false,
        }
    }

    /// Closes the emoji reaction picker if it is open.
    pub fn close_emoji_reaction_picker(&mut self)
        ensures
            closed_if_kind(&*old(self), &*final(self), ActiveModalPopupKind::EmojiReactionPicker),
    {
        self.close_modal_of_kind(ActiveModalPopupKind::EmojiReactionPicker);
    }

    /// Closes the reaction users popup if it is open.
    pub fn close_reaction_users_popup(&mut self)
        ensures
            closed_if_kind(&*old(self), &*final(self), ActiveModalPopupKind::ReactionUsers),
    {
        self.close_modal_of_kind(ActiveModalPopupKind::ReactionUsers);
    }

    /// Scrolls the reaction users popup one line down.
    pub fn scroll_reaction_users_popup_down(&mut self)
        ensures
            reaction_users_scroll_updated(
                &*old(self),
                &*final(self),
                |s: ScrollState, lines: int|
                    ScrollState {
                        scroll: (if s.scroll < max_scroll_for(
                            s.total_lines as int,
                            s.view_height as int,
                        ) {
                            s.scroll + 1
                        } else {
                            max_scroll_for(s.total_lines as int, s.view_height as int)
                        }) as usize,
                        ..s
                    },
            ),
    {
        if let Some(ModalPopup::ReactionUsers(popup)) = &mut self.popups.modal {
            popup.scroll.scroll_down();
        }
    }

    /// Scrolls the reaction users popup one line up.
    pub fn scroll_reaction_users_popup_up(&mut self)
        ensures
            reaction_users_scroll_updated(
                &*old(self),
                &*final(self),
                |s: ScrollState, lines: int|
                    ScrollState {
                        scroll: if s.scroll == 0 {
                            0
                        } else {
                            (s.scroll - 1) as usize
                        },
                        ..s
                    },
            ),
    {
        if let Some(ModalPopup::ReactionUsers(popup)) = &mut self.popups.modal {
            popup.scroll.scroll_up();
        }
    }

    /// Tells the reaction users popup how many lines it shows, and how many it has.
    pub fn set_reaction_users_popup_view_height(&mut self, height: usize)
        ensures
            reaction_users_scroll_updated(
                &*old(self),
                &*final(self),
                |s: ScrollState, lines: int|
                    ScrollState {
                        scroll: clamped_scroll(
                            clamped_scroll(s.scroll as int, s.total_lines as int, height as int),
                            lines,
                            height as int,
                        ) as usize,
                        view_height: height,
                        total_lines: lines as usize,
                    },
            ),
    {
        if let Some(ModalPopup::ReactionUsers(popup)) = &mut self.popups.modal {
            let total_lines = popup.data_line_count();
            popup.scroll.set_view_height(height);
            popup.scroll.set_total_lines(total_lines);
        }
    }

    /// Highlights the next emoji of the open picker, stopping at the last.
    pub fn move_emoji_reaction_down(&mut self)
        ensures
            reaction_picker_updated(
                &*old(self),
                &*final(self),
                |p: EmojiReactionPickerState|
                    EmojiReactionPickerState {
                        selection: SelectionState {
                            selected: (if p.filtered_items@.len() == 0 {
                                0
                            } else if clamp_selected(
                                p.selection.selected as int,
                                p.filtered_items@.len() as int,
                            ) + 1 < p.filtered_items@.len() {
                                clamp_selected(
                                    p.selection.selected as int,
                                    p.filtered_items@.len() as int,
                                ) + 1
                            } else {
                                p.filtered_items@.len() - 1
                            }) as usize,
                        },
                        ..p
                    },
            ),
    {
        if let Some(ModalPopup::EmojiReactionPicker(picker)) = &mut self.popups.modal {
            let len = picker.filtered_items.len();
            picker.selection.move_down(len);
        }
    }

    /// Highlights the previous emoji of the open picker, stopping at the first.
    pub fn move_emoji_reaction_up(&mut self)
        ensures
            reaction_picker_updated(
                &*old(self),
                &*final(self),
                |p: EmojiReactionPickerState|
                    EmojiReactionPickerState {
                        selection: SelectionState {
                            selected: if p.selection.selected == 0 {
                                0
                            } else {
                                (p.selection.selected - 1) as usize
                            },
                        },
                        ..p
                    },
            ),
    {
        if let Some(ModalPopup::EmojiReactionPicker(picker)) = &mut self.popups.modal {
            picker.selection.move_up();
        }
    }

    /// The open picker's highlighted index clamped to a list of `len` entries.
    pub fn selected_emoji_reaction_index_for_len(&self, len: usize) -> (r: Option<usize>)
        ensures
            match reaction_picker_of(self) {
                Some(p) => r == Some(
                    clamp_selected(p.selection.selected as int, len as int) as usize,
                ),
                None => r is None,
            },
    {
        match &self.popups.modal {
            Some(ModalPopup::EmojiReactionPicker(picker)) => Some(
                picker.selection.selected_for_len(len),
            ),
            _ => None,
        }
    }

    /// The highlighted emoji of the open picker, if its filtered list is not empty.
    pub fn selected_emoji_reaction(&self) -> (r: Option<EmojiReactionItem>)
        ensures
            match reaction_picker_of(self) {
                Some(p) => if p.filtered_items@.len() == 0 {
                    r is None
                } else {
                    r == Some(
                        p.filtered_items@[clamp_selected(
                            p.selection.selected as int,
                            p.filtered_items@.len() as int,
                        )],
                    )
                },
                None => r is None,
            },
    {
        match &self.popups.modal {
            Some(ModalPopup::EmojiReactionPicker(picker)) => {
                let len = picker.filtered_items.len();
                if len == 0 {
                    return None;
                }
                let index = picker.selection.selected_for_len(len);
                Some(picker.filtered_items[index].duplicate())
            },
            _ => None,
        }
    }

    /// Starts an empty filter on the open picker, listing every emoji again from the top.
    pub fn start_emoji_reaction_filter(&mut self)
        ensures
            match reaction_picker_of(&*old(self)) {
                Some(p) => final(self).popups.modal matches Some(
                    ModalPopup::EmojiReactionPicker(q),
                ) && q.filter matches Some(f) && f@.len() == 0 && q.filter_editing
                    && q.filtered_items@ == p.items@ && q.selection.selected == 0 && q.items
                    == p.items && q.existing_reactions == p.existing_reactions && q.own_reactions
                    == p.own_reactions && q.guild_id == p.guild_id && q.channel_id == p.channel_id
                    && q.message_id == p.message_id,
                None => final(self).popups.modal == old(self).popups.modal,
            },
            same_except_popups(&*old(self), &*final(self)),
    {
        if let Some(ModalPopup::EmojiReactionPicker(picker)) = &mut self.popups.modal {
            picker.filter = Some(String::new());
            picker.filter_editing = true;
            picker.filtered_items = duplicate_items(&picker.items);
            picker.selection.select(0);
        }
    }

    /// Stops editing the open picker's filter; it keeps filtering.
    pub fn commit_emoji_reaction_filter(&mut self)
        ensures
            reaction_picker_updated(
                &*old(self),
                &*final(self),
                |p: EmojiReactionPickerState| EmojiReactionPickerState { filter_editing: false, ..p },
            ),
    {
        if let Some(ModalPopup::EmojiReactionPicker(picker)) = &mut self.popups.modal {
            picker.filter_editing = false;
        }
    }
}

/// A reaction emoji taken as plain values.
pub enum EmojiView {
    Unicode(Seq<char>),
    Custom { id: u64, name: Option<Seq<char>>, animated: bool },
}

/// The emoji taken as plain values; two emojis are the same when these are.
pub open spec fn emoji_view(e: ReactionEmoji) -> EmojiView {
    match e {
        ReactionEmoji::Unicode(value) => EmojiView::Unicode(value@),
        ReactionEmoji::Custom { id, name, animated } => EmojiView::Custom {
            id,
            name: match name {
                Some(n) => Some(n@),
                None => None,
            },
            animated,
        },
    }
}

/// A picker item taken as plain values: its emoji and label.
pub open spec fn item_view(item: EmojiReactionItem) -> (EmojiView, Seq<char>) {
    (emoji_view(item.emoji), item.label@)
}

/// Picker items taken as plain values.
pub open spec fn items_view(items: Seq<EmojiReactionItem>) -> Seq<(EmojiView, Seq<char>)> {
    items.map_values(|i: EmojiReactionItem| item_view(i))
}

/// Emojis taken as plain values.
pub open spec fn emojis_view(emojis: Seq<ReactionEmoji>) -> Seq<EmojiView> {
    emojis.map_values(|e: ReactionEmoji| emoji_view(e))
}

/// Strings taken as chars.
pub open spec fn labels_view(labels: Seq<String>) -> Seq<Seq<char>> {
    labels.map_values(|l: String| l@)
}

/// Whether one of `items` has emoji `e`.
pub open spec fn has_emoji(items: Seq<(EmojiView, Seq<char>)>, e: EmojiView) -> bool {
    exists|j: int| 0 <= j < items.len() && #[trigger] items[j].0 == e
}

/// Whether `j` is the first of `items` with emoji `e`.
pub open spec fn is_first_match(items: Seq<(EmojiView, Seq<char>)>, e: EmojiView, j: int) -> bool {
    &&& 0 <= j < items.len()
    &&& items[j].0 == e
    &&& forall|k: int| 0 <= k < j ==> #[trigger] items[k].0 != e
}

/// The first of `items` with emoji `e`.
pub open spec fn first_match(items: Seq<(EmojiView, Seq<char>)>, e: EmojiView) -> int {
    choose|j: int| is_first_match(items, e, j)
}

/// The items whose emoji is none of `existing`, in order.
pub open spec fn items_not_in(items: Seq<(EmojiView, Seq<char>)>, existing: Seq<EmojiView>) -> Seq<
    (EmojiView, Seq<char>),
>
    decreases items.len(),
{
    if items.len() == 0 {
        Seq::empty()
    } else {
        items_not_in(items.drop_last(), existing) + if existing.contains(items.last().0) {
            Seq::empty()
        } else {
            seq![items.last()]
        }
    }
}

/// The picker items with a message's existing reactions first: each existing emoji
/// as the first item that has it (or with its own label when no item has it), then
/// the other items in order.
pub open spec fn prioritized_items(
    items: Seq<(EmojiView, Seq<char>)>,
    existing: Seq<EmojiView>,
    existing_labels: Seq<Seq<char>>,
) -> Seq<(EmojiView, Seq<char>)> {
    if existing.len() == 0 {
        items
    } else {
        Seq::new(
            existing.len(),
            |i: int|
                if has_emoji(items, existing[i]) {
                    items[first_match(items, existing[i])]
                } else {
                    (existing[i], existing_labels[i])
                },
        ) + items_not_in(items, existing)
    }
}

/// Whether two emojis are the same.
fn same_emoji(a: &ReactionEmoji, b: &ReactionEmoji) -> (r: bool)
    ensures
        r == (emoji_view(*a) == emoji_view(*b)),
{
    match (a, b) {
        (ReactionEmoji::Unicode(x), ReactionEmoji::Unicode(y)) => str_eq(x.as_str(), y.as_str()),
        (
            ReactionEmoji::Custom { id: i1, name: n1, animated: a1 },
            ReactionEmoji::Custom { id: i2, name: n2, animated: a2 },
        ) => {
            let names = match (n1, n2) {
                (Some(x), Some(y)) => str_eq(x.as_str(), y.as_str()),
                (None, None) => true,
                _ => false,
            };
            *i1 == *i2 && names && *a1 == *a2
        },
        _ => false,
    }
}

/// Whether `e` is one of `emojis`.
fn contains_emoji(emojis: &Vec<ReactionEmoji>, e: &ReactionEmoji) -> (r: bool)
    ensures
        r == emojis_view(emojis@).contains(emoji_view(*e)),
{
    let mut i: usize = 0;
    while i < emojis.len()
        invariant
            i <= emojis@.len(),
            forall|j: int| 0 <= j < i ==> emoji_view(#[trigger] emojis@[j]) != emoji_view(*e),
        decreases emojis@.len() - i,
    {
        if same_emoji(&emojis[i], e) {
            proof {
                assert(emojis_view(emojis@)[i as int] == emoji_view(*e));
            }
            return true;
        }
        i = i + 1;
    }
    proof {
        if emojis_view(emojis@).contains(emoji_view(*e)) {
            let j = choose|j: int| 0 <= j < emojis_view(emojis@).len() && emojis_view(emojis@)[j] == emoji_view(*e);
            assert(emoji_view(emojis@[j]) == emoji_view(*e));
        }
    }
    false
}

proof fn lemma_first_match(items: Seq<(EmojiView, Seq<char>)>, e: EmojiView, j: int)
    requires
        is_first_match(items, e, j),
    ensures
        has_emoji(items, e),
        first_match(items, e) == j,
{
    assert(items[j].0 == e);
    let c = first_match(items, e);
    assert(is_first_match(items, e, c));
    if c < j {
        assert(items[c].0 != e);
    } else if c > j {
        assert(items[j].0 != e);
    }
}

/// The picker items with a message's existing reactions first (see
/// `prioritized_items`); `existing_labels` are the existing emojis' own labels.
pub fn prioritize_existing_reactions(
    items: Vec<EmojiReactionItem>,
    existing: &Vec<ReactionEmoji>,
    existing_labels: &Vec<String>,
) -> (r: Vec<EmojiReactionItem>)
    requires
        existing_labels@.len() == existing@.len(),
    ensures
        items_view(r@) == prioritized_items(
            items_view(items@),
            emojis_view(existing@),
            labels_view(existing_labels@),
        ),
{
    if existing.len() == 0 {
        return items;
    }
    let ghost iv = items_view(items@);
    let ghost ev = emojis_view(existing@);
    let ghost lv = labels_view(existing_labels@);
    let ghost head = Seq::new(
        ev.len(),
        |i: int|
            if has_emoji(iv, ev[i]) {
                iv[first_match(iv, ev[i])]
            } else {
                (ev[i], lv[i])
            },
    );
    let mut out: Vec<EmojiReactionItem> = Vec::new();
    let mut i: usize = 0;
    while i < existing.len()
        invariant
            iv == items_view(items@),
            ev == emojis_view(existing@),
            lv == labels_view(existing_labels@),
            existing_labels@.len() == existing@.len(),
            head.len() == ev.len(),
            forall|m: int| 0 <= m < ev.len() ==> #[trigger] head[m] == (if has_emoji(iv, ev[m]) {
                iv[first_match(iv, ev[m])]
            } else {
                (ev[m], lv[m])
            }),
            i <= existing@.len(),
            items_view(out@) == head.take(i as int),
        decreases existing@.len() - i,
    {
        let mut j: usize = 0;
        let mut found: Option<usize> = None;
        while j < items.len()
            invariant_except_break
                found is None,
            invariant
                iv == items_view(items@),
                i < ev.len(),
                ev == emojis_view(existing@),
                j <= items@.len(),
                forall|k: int| 0 <= k < j ==> #[trigger] iv[k].0 != ev[i as int],
            ensures
                match found {
                    Some(f) => is_first_match(iv, ev[i as int], f as int),
                    None => forall|k: int| 0 <= k < items@.len() ==> #[trigger] iv[k].0 != ev[i as int],
                },
            decreases items@.len() - j,
        {
            proof {
                assert(iv[j as int] == item_view(items@[j as int]));
                assert(ev[i as int] == emoji_view(existing@[i as int]));
            }
            if same_emoji(&items[j].emoji, &existing[i]) {
                found = Some(j);
                break;
            }
            j = j + 1;
        }
        let ghost before = items_view(out@);
        match found {
            Some(f) => {
                proof {
                    lemma_first_match(iv, ev[i as int], f as int);
                }
                let item = items[f].duplicate();
                out.push(item);
                proof {
                    assert(items_view(out@) =~= before.push(iv[f as int]));
                }
            },
            None => {
                proof {
                    if has_emoji(iv, ev[i as int]) {
                        let k = choose|k: int| 0 <= k < iv.len() && #[trigger] iv[k].0 == ev[i as int];
                        assert(iv[k].0 != ev[i as int]);
                    }
                }
                let item = EmojiReactionItem { emoji: existing[i].duplicate(), label: existing_labels[i].clone() };
                out.push(item);
                proof {
                    assert(lv[i as int] == existing_labels@[i as int]@);
                    assert(items_view(out@) =~= before.push((ev[i as int], lv[i as int])));
                }
            },
        }
        proof {
            assert(head.take(i + 1) =~= head.take(i as int).push(head[i as int]));
        }
        i = i + 1;
    }
    proof {
        assert(head.take(i as int) =~= head);
    }
    let ghost start = items_view(out@);
    let mut k: usize = 0;
    while k < items.len()
        invariant
            iv == items_view(items@),
            ev == emojis_view(existing@),
            k <= items@.len(),
            items_view(out@) == start + items_not_in(iv.take(k as int), ev),
        decreases items@.len() - k,
    {
        proof {
            assert(iv.take(k + 1).drop_last() =~= iv.take(k as int));
            assert(iv.take(k + 1).last() == iv[k as int]);
            assert(iv[k as int] == item_view(items@[k as int]));
        }
        let ghost before = items_view(out@);
        if !contains_emoji(existing, &items[k].emoji) {
            out.push(items[k].duplicate());
            proof {
                assert(items_view(out@) =~= before.push(iv[k as int]));
            }
        }
        proof {
            assert(start + items_not_in(iv.take(k + 1), ev) =~= items_view(out@));
        }
        k = k + 1;
    }
    proof {
        assert(iv.take(k as int) =~= iv);
    }
    out
}

/// The emojis of a message's reactions, in order.
pub open spec fn reaction_emojis(reactions: Seq<ReactionInfo>) -> Seq<EmojiView> {
    reactions.map_values(|r: ReactionInfo| emoji_view(r.emoji))
}

/// The emojis of the reactions the user made, in order.
pub open spec fn own_reaction_emojis(reactions: Seq<ReactionInfo>) -> Seq<EmojiView>
    decreases reactions.len(),
{
    if reactions.len() == 0 {
        Seq::empty()
    } else {
        own_reaction_emojis(reactions.drop_last()) + if reactions.last().me {
            seq![emoji_view(reactions.last().emoji)]
        } else {
            Seq::empty()
        }
    }
}

/// The items a reaction picker for `message` offers: where new reactions may be
/// added, `guild_items` with the message's reactions first; otherwise only the
/// message's reactions, each with its label.
pub open spec fn reaction_picker_items(
    message: MessageState,
    can_add_new: bool,
    guild_items: Seq<(EmojiView, Seq<char>)>,
    reaction_labels: Seq<Seq<char>>,
) -> Seq<(EmojiView, Seq<char>)> {
    if can_add_new {
        prioritized_items(guild_items, reaction_emojis(message.reactions@), reaction_labels)
    } else {
        Seq::new(
            message.reactions@.len(),
            |i: int| (emoji_view(message.reactions@[i].emoji), reaction_labels[i]),
        )
    }
}

impl DashboardState {
    /// Opens the emoji reaction picker for `selected_message`, where a picker may be
    /// opened for it (`can_open`). It offers `reaction_picker_items`: `can_add_new`
    /// says whether new reactions may be added, `guild_items` are the emojis the
    /// picker offers in the message's guild (the message's own guild, else
    /// `channel_guild_id`), and `reaction_labels` the labels of the message's
    /// reactions. The picker starts at the top with no filter.
    pub fn open_emoji_reaction_picker(
        &mut self,
        selected_message: Option<&MessageState>,
        can_open: bool,
        can_add_new: bool,
        channel_guild_id: Option<u64>,
        guild_items: Vec<EmojiReactionItem>,
        reaction_labels: &Vec<String>,
    )
        requires
            selected_message matches Some(m) ==> reaction_labels@.len() == m.reactions@.len(),
        ensures
            match selected_message {
                Some(m) => if can_open {
                    let items = reaction_picker_items(
                        *m,
                        can_add_new,
                        items_view(guild_items@),
                        labels_view(reaction_labels@),
                    );
                    &&& same_except_popups(&*old(self), &*final(self))
                    &&& reaction_picker_of(&*final(self)) matches Some(p)
                    &&& p.selection.selected == 0
                    &&& p.filter is None
                    &&& !p.filter_editing
                    &&& items_view(p.items@) == items
                    &&& items_view(p.filtered_items@) == items
                    &&& emojis_view(p.existing_reactions@) == reaction_emojis(m.reactions@)
                    &&& emojis_view(p.own_reactions@) == own_reaction_emojis(m.reactions@)
                    &&& p.guild_id == (if m.guild_id is Some {
                        m.guild_id
                    } else {
                        channel_guild_id
                    })
                    &&& p.channel_id == m.channel_id
                    &&& p.message_id == m.id
                } else {
                    *final(self) == *old(self)
                },
                None => *final(self) == *old(self),
            },
    {
        let message = match selected_message {
            Some(m) => m,
            None => {
                return;
            },
        };
        if !can_open {
            return;
        }
        let guild_id = match message.guild_id {
            Some(g) => Some(g),
            None => channel_guild_id,
        };
        let ghost rs = message.reactions@;
        let mut existing: Vec<ReactionEmoji> = Vec::new();
        let mut own: Vec<ReactionEmoji> = Vec::new();
        let mut i: usize = 0;
        while i < message.reactions.len()
            invariant
                rs == message.reactions@,
                i <= rs.len(),
                emojis_view(existing@) == reaction_emojis(rs.take(i as int)),
                emojis_view(own@) == own_reaction_emojis(rs.take(i as int)),
            decreases rs.len() - i,
        {
            proof {
                assert(rs.take(i + 1).drop_last() =~= rs.take(i as int));
                assert(rs.take(i + 1).last() == rs[i as int]);
            }
            let ghost e0 = emojis_view(existing@);
            let ghost o0 = emojis_view(own@);
            existing.push(message.reactions[i].emoji.duplicate());
            proof {
                assert(emojis_view(existing@) =~= e0.push(emoji_view(rs[i as int].emoji)));
                assert(reaction_emojis(rs.take(i + 1)) =~= reaction_emojis(rs.take(i as int)).push(
                    emoji_view(rs[i as int].emoji),
                ));
            }
            if message.reactions[i].me {
                own.push(message.reactions[i].emoji.duplicate());
                proof {
                    assert(emojis_view(own@) =~= o0.push(emoji_view(rs[i as int].emoji)));
                }
            }
            proof {
                assert(emojis_view(own@) =~= own_reaction_emojis(rs.take(i + 1)));
            }
            i = i + 1;
        }
        proof {
            assert(rs.take(i as int) =~= rs);
        }
        let items = if can_add_new {
            prioritize_existing_reactions(guild_items, &existing, reaction_labels)
        } else {
            let mut out: Vec<EmojiReactionItem> = Vec::new();
            let mut k: usize = 0;
            while k < message.reactions.len()
                invariant
                    rs == message.reactions@,
                    reaction_labels@.len() == rs.len(),
                    k <= rs.len(),
                    items_view(out@) == Seq::new(
                        rs.len(),
                        |j: int| (emoji_view(rs[j].emoji), labels_view(reaction_labels@)[j]),
                    ).take(k as int),
                decreases rs.len() - k,
            {
                let ghost before = items_view(out@);
                out.push(
                    EmojiReactionItem {
                        emoji: message.reactions[k].emoji.duplicate(),
                        label: reaction_labels[k].clone(),
                    },
                );
                proof {
                    let whole = Seq::new(
                        rs.len(),
                        |j: int| (emoji_view(rs[j].emoji), labels_view(reaction_labels@)[j]),
                    );
                    assert(items_view(out@) =~= before.push(whole[k as int]));
                    assert(whole.take(k + 1) =~= whole.take(k as int).push(whole[k as int]));
                }
                k = k + 1;
            }
            proof {
                assert(Seq::new(
                    rs.len(),
                    |j: int| (emoji_view(rs[j].emoji), labels_view(reaction_labels@)[j]),
                ).take(k as int) =~= Seq::new(
                    rs.len(),
                    |j: int| (emoji_view(rs[j].emoji), labels_view(reaction_labels@)[j]),
                ));
            }
            out
        };
        let filtered_items = duplicate_items(&items);
        self.popups.modal = Some(
            ModalPopup::EmojiReactionPicker(
                EmojiReactionPickerState {
                    selection: SelectionState::new(),
                    filter: None,
                    filter_editing: false,
                    filtered_items,
                    items,
                    existing_reactions: existing,
                    own_reactions: own,
                    guild_id,
                    channel_id: message.channel_id,
                    message_id: message.id,
                },
            ),
        );
    }
}

/// A custom emoji the picker may offer: its item, whether it is available, and
/// whether it can be used directly in the message's own guild and in another.
#[derive(Debug)]
pub struct CustomEmojiChoice {
    pub item: EmojiReactionItem,
    pub available: bool,
    pub usable_in_guild: bool,
    pub usable_elsewhere: bool,
}

/// The items of the available choices that can be used (in the guild, or elsewhere
/// when `elsewhere`), in order.
pub open spec fn usable_choices(choices: Seq<CustomEmojiChoice>, elsewhere: bool) -> Seq<
    (EmojiView, Seq<char>),
>
    decreases choices.len(),
{
    if choices.len() == 0 {
        Seq::empty()
    } else {
        let c = choices.last();
        let usable = c.available && if elsewhere {
            c.usable_elsewhere
        } else {
            c.usable_in_guild
        };
        usable_choices(choices.drop_last(), elsewhere) + if usable {
            seq![item_view(c.item)]
        } else {
            Seq::empty()
        }
    }
}

/// Appends the items of the usable `choices` to `out`.
fn push_usable_choices(out: &mut Vec<EmojiReactionItem>, choices: &Vec<CustomEmojiChoice>, elsewhere: bool)
    ensures
        items_view(final(out)@) == items_view(old(out)@) + usable_choices(choices@, elsewhere),
{
    let ghost start = items_view(out@);
    let mut i: usize = 0;
    while i < choices.len()
        invariant
            start == items_view(old(out)@),
            i <= choices@.len(),
            items_view(out@) == start + usable_choices(choices@.take(i as int), elsewhere),
        decreases choices@.len() - i,
    {
        proof {
            assert(choices@.take(i + 1).drop_last() =~= choices@.take(i as int));
            assert(choices@.take(i + 1).last() == choices@[i as int]);
        }
        let c = &choices[i];
        let usable = c.available && if elsewhere {
            c.usable_elsewhere
        } else {
            c.usable_in_guild
        };
        let ghost before = items_view(out@);
        if usable {
            out.push(c.item.duplicate());
            proof {
                assert(items_view(out@) =~= before.push(item_view(c.item)));
            }
        }
        proof {
            assert(start + usable_choices(choices@.take(i + 1), elsewhere) =~= items_view(out@));
        }
        i = i + 1;
    }
    proof {
        assert(choices@.take(i as int) =~= choices@);
    }
}

/// Appends `items` to `out`.
fn push_items(out: &mut Vec<EmojiReactionItem>, items: &Vec<EmojiReactionItem>)
    ensures
        items_view(final(out)@) == items_view(old(out)@) + items_view(items@),
{
    let ghost start = items_view(out@);
    let mut i: usize = 0;
    while i < items.len()
        invariant
            start == items_view(old(out)@),
            i <= items@.len(),
            items_view(out@) == start + items_view(items@.take(i as int)),
        decreases items@.len() - i,
    {
        let ghost before = items_view(out@);
        out.push(items[i].duplicate());
        proof {
            assert(items_view(out@) =~= before.push(item_view(items@[i as int])));
            assert(items_view(items@.take(i + 1)) =~= items_view(items@.take(i as int)).push(
                item_view(items@[i as int]),
            ));
        }
        i = i + 1;
    }
    proof {
        assert(items@.take(i as int) =~= items@);
    }
}

/// The emojis the reaction picker offers in a guild, in order: the quick unicode
/// emojis, the guild's available custom emojis that can be used there, with Nitro
/// the other guilds' available custom emojis that can be used elsewhere, then the
/// remaining unicode emojis. `guild_emojis` are the message guild's custom emojis
/// (none without a guild) and `other_emojis` those of the other guilds.
pub fn emoji_reaction_items_for_guild(
    quick: &Vec<EmojiReactionItem>,
    guild_emojis: &Vec<CustomEmojiChoice>,
    other_emojis: &Vec<CustomEmojiChoice>,
    has_nitro: bool,
    remaining: &Vec<EmojiReactionItem>,
) -> (r: Vec<EmojiReactionItem>)
    ensures
        items_view(r@) == items_view(quick@) + usable_choices(guild_emojis@, false) + (if has_nitro {
            usable_choices(other_emojis@, true)
        } else {
            Seq::empty()
        }) + items_view(remaining@),
{
    let mut items: Vec<EmojiReactionItem> = Vec::new();
    push_items(&mut items, quick);
    push_usable_choices(&mut items, guild_emojis, false);
    let ghost mid = items_view(items@);
    if has_nitro {
        push_usable_choices(&mut items, other_emojis, true);
    } else {
        proof {
            assert(mid + Seq::<(EmojiView, Seq<char>)>::empty() =~= mid);
        }
    }
    push_items(&mut items, remaining);
    proof {
        assert(items_view(Seq::<EmojiReactionItem>::empty()) =~= Seq::<(EmojiView, Seq<char>)>::empty());
    }
    items
}

/// The item the open picker `p` has selected (its list is not empty).
pub open spec fn picker_selected_item(p: EmojiReactionPickerState) -> EmojiReactionItem {
    p.filtered_items@[clamp_selected(p.selection.selected as int, p.filtered_items@.len() as int)]
}

/// Whether `selected_message` is the message picker `p` reacts to.
pub open spec fn is_picker_message(selected_message: Option<&MessageState>, p: EmojiReactionPickerState) -> bool {
    selected_message matches Some(m) && m.channel_id == p.channel_id && m.id == p.message_id
}

/// Whether the user already reacted to `m` with emoji `e`.
pub open spec fn reacted_with(m: MessageState, e: ReactionEmoji) -> bool {
    exists|k: int|
        0 <= k < m.reactions@.len() && m.reactions@[k].me && #[trigger] emoji_view(m.reactions@[k].emoji)
            == emoji_view(e)
}

/// Whether the user already reacted to `m` with emoji `e`.
fn has_own_reaction(m: &MessageState, e: &ReactionEmoji) -> (r: bool)
    ensures
        r == reacted_with(*m, *e),
{
    let mut k: usize = 0;
    while k < m.reactions.len()
        invariant
            k <= m.reactions@.len(),
            forall|j: int|
                0 <= j < k ==> !(m.reactions@[j].me && #[trigger] emoji_view(m.reactions@[j].emoji)
                    == emoji_view(*e)),
        decreases m.reactions@.len() - k,
    {
        if m.reactions[k].me && same_emoji(&m.reactions[k].emoji, e) {
            return true;
        }
        k = k + 1;
    }
    false
}

impl DashboardState {
    /// Reacts with the picker's selected emoji to the picker's message, or takes the
    /// user's reaction back when they already reacted with it, and closes the picker.
    /// `selected_message` is the selected message; where it is the picker's message,
    /// `can_add` says whether the selected emoji may be added to it, and when it may
    /// not, the picker closes with nothing sent. Nothing happens without an open
    /// picker with a selected emoji.
    pub fn activate_selected_emoji_reaction(
        &mut self,
        selected_message: Option<&MessageState>,
        can_add: bool,
    ) -> (r: Option<AppCommand>)
        ensures
            match reaction_picker_of(&*old(self)) {
                Some(p) => if p.filtered_items@.len() == 0 {
                    r is None && *final(self) == *old(self)
                } else {
                    let item = picker_selected_item(p);
                    let target = is_picker_message(selected_message, p);
                    &&& final(self).popups.modal is None
                    &&& same_except_popups(&*old(self), &*final(self))
                    &&& target && !can_add ==> r is None
                    &&& !(target && !can_add) ==> if target && reacted_with(*selected_message->0, item.emoji) {
                        r matches Some(AppCommand::RemoveReaction { channel_id, message_id, emoji })
                            && channel_id == p.channel_id && message_id == p.message_id && emoji
                            == item.emoji
                    } else {
                        r matches Some(AppCommand::AddReaction { channel_id, message_id, emoji })
                            && channel_id == p.channel_id && message_id == p.message_id && emoji
                            == item.emoji
                    }
                },
                None => r is None && *final(self) == *old(self),
            },
    {
        let (channel_id, message_id) = match &self.popups.modal {
            Some(ModalPopup::EmojiReactionPicker(p)) => (p.channel_id, p.message_id),
            _ => {
                return None;
            },
        };
        let reaction = match self.selected_emoji_reaction() {
            Some(r) => r,
            None => {
                return None;
            },
        };
        let target = match selected_message {
            Some(m) => if m.channel_id == channel_id && m.id == message_id {
                Some(m)
            } else {
                None
            },
            None => None,
        };
        if target.is_some() && !can_add {
            self.close_emoji_reaction_picker();
            return None;
        }
        let already = match target {
            Some(m) => has_own_reaction(m, &reaction.emoji),
            None => false,
        };
        let command = if already {
            AppCommand::RemoveReaction { channel_id, message_id, emoji: reaction.emoji }
        } else {
            AppCommand::AddReaction { channel_id, message_id, emoji: reaction.emoji }
        };
        self.close_emoji_reaction_picker();
        Some(command)
    }
}

} // verus!
