use vstd::prelude::*;

use crate::popups::{
    closed_if_kind, same_except_popups, ActiveModalPopupKind, ModalPopup, PollVotePickerItem,
    PollVotePickerState,
};
use crate::selection::{clamp_selected, SelectionState};
use crate::state::{AppCommand, DashboardState, KeyBindings, PollAnswerInfo};
use crate::text_util::{push_chars, push_str};
use crate::unicode::{str_chars, string_from_chars};

verus! {

/// At most one answer is selected.
pub open spec fn at_most_one_selected(answers: Seq<PollVotePickerItem>) -> bool {
    forall|i: int, j: int|
        0 <= i < answers.len() && 0 <= j < answers.len() && #[trigger] answers[i].selected
            && #[trigger] answers[j].selected ==> i == j
}

/// No answer before index `i` is selected.
pub open spec fn none_selected_before(answers: Seq<PollVotePickerItem>, i: int) -> bool {
    forall|j: int| 0 <= j < i ==> !#[trigger] answers[j].selected
}

/// The answers a single-choice poll keeps: only the first selected answer stays selected.
pub open spec fn normalized_answers(
    allow_multiselect: bool,
    answers: Seq<PollVotePickerItem>,
    result: Seq<PollVotePickerItem>,
) -> bool {
    &&& result.len() == answers.len()
    &&& forall|i: int|
        #![trigger result[i]]
        0 <= i < answers.len() ==> {
            &&& result[i].answer_id == answers[i].answer_id
            &&& result[i].label == answers[i].label
            &&& result[i].selected == if allow_multiselect {
                answers[i].selected
            } else {
                answers[i].selected && none_selected_before(answers, i)
            }
        }
}

/// The answers after toggling answer `index`: a multiple-choice poll flips that answer;
/// a single-choice poll selects it alone, or clears everything when it was selected.
pub open spec fn toggled_answers(
    allow_multiselect: bool,
    answers: Seq<PollVotePickerItem>,
    index: int,
    result: Seq<PollVotePickerItem>,
) -> bool {
    let was_selected = 0 <= index < answers.len() && answers[index].selected;
    &&& result.len() == answers.len()
    &&& forall|i: int|
        #![trigger result[i]]
        0 <= i < answers.len() ==> {
            &&& result[i].answer_id == answers[i].answer_id
            &&& result[i].label == answers[i].label
            &&& result[i].selected == if allow_multiselect {
                if i == index {
                    !answers[i].selected
                } else {
                    answers[i].selected
                }
            } else {
                i == index && !was_selected
            }
        }
}

/// The picker for the answers `answers` of a poll.
pub open spec fn picker_items_from_poll(
    answers: Seq<PollAnswerInfo>,
    items: Seq<PollVotePickerItem>,
) -> bool {
    &&& items.len() == answers.len()
    &&& forall|i: int|
        #![trigger items[i]]
        0 <= i < answers.len() ==> {
            &&& items[i].answer_id == answers[i].answer_id
            &&& items[i].label == answers[i].text
            &&& items[i].selected == answers[i].me_voted
        }
}

/// The ids of the selected answers, in order.
pub open spec fn selected_answer_ids(answers: Seq<PollVotePickerItem>) -> Seq<u64>
    decreases answers.len(),
{
    if answers.len() == 0 {
        Seq::empty()
    } else {
        let rest = selected_answer_ids(answers.drop_last());
        if answers.last().selected {
            rest.push(answers.last().answer_id)
        } else {
            rest
        }
    }
}

/// A single-choice poll's picker never has two answers selected: normalizing leaves at
/// most one selected, and toggling an answer keeps it so.
pub proof fn law_single_choice_keeps_one_selection(
    answers: Seq<PollVotePickerItem>,
    normalized: Seq<PollVotePickerItem>,
    index: int,
    toggled: Seq<PollVotePickerItem>,
)
    requires
        normalized_answers(false, answers, normalized),
        toggled_answers(false, normalized, index, toggled),
    ensures
        at_most_one_selected(normalized),
        at_most_one_selected(toggled),
{
    assert forall|i: int, j: int|
        0 <= i < normalized.len() && 0 <= j < normalized.len() && #[trigger] normalized[i].selected
            && #[trigger] normalized[j].selected implies i == j by {
        if i < j {
            assert(answers[i].selected);
            assert(!answers[i].selected);
        } else if j < i {
            assert(answers[j].selected);
            assert(!answers[j].selected);
        }
    }
    assert forall|i: int, j: int|
        0 <= i < toggled.len() && 0 <= j < toggled.len() && #[trigger] toggled[i].selected
            && #[trigger] toggled[j].selected implies i == j by {
        assert(toggled[i].selected == (i == index && !(0 <= index < normalized.len()
            && normalized[index].selected)));
    }
}

/// Toggling the same answer of a multiple-choice poll twice restores the selection.
pub proof fn law_multiple_choice_toggle_twice_restores(
    answers: Seq<PollVotePickerItem>,
    index: int,
    once: Seq<PollVotePickerItem>,
    twice: Seq<PollVotePickerItem>,
)
    requires
        toggled_answers(true, answers, index, once),
        toggled_answers(true, once, index, twice),
    ensures
        twice.len() == answers.len(),
        forall|i: int|
            0 <= i < answers.len() ==> #[trigger] twice[i].selected == answers[i].selected
                && twice[i].answer_id == answers[i].answer_id,
{
    assert forall|i: int| 0 <= i < answers.len() implies #[trigger] twice[i].selected
        == answers[i].selected && twice[i].answer_id == answers[i].answer_id by {
        assert(once[i].selected == if i == index {
            !answers[i].selected
        } else {
            answers[i].selected
        });
    }
}

fn with_selection(item: &PollVotePickerItem, selected: bool) -> (r: PollVotePickerItem)
    ensures
        r.answer_id == item.answer_id,
        r.label == item.label,
        r.selected == selected,
{
    PollVotePickerItem { answer_id: item.answer_id, label: item.label.clone(), selected }
}

/// The answers a picker starts with: for a single-choice poll only the first of the
/// user's votes stays selected.
pub fn normalized_poll_vote_picker_answers(
    allow_multiselect: bool,
    answers: Vec<PollVotePickerItem>,
) -> (r: Vec<PollVotePickerItem>)
    ensures
        normalized_answers(allow_multiselect, answers@, r@),
{
    if allow_multiselect {
        return answers;
    }
    let mut result: Vec<PollVotePickerItem> = Vec::new();
    let mut seen_selected = false;
    let mut i: usize = 0;
    while i < answers.len()
        invariant
            i <= answers.len(),
            result.len() == i,
            seen_selected == !none_selected_before(answers@, i as int),
            forall|k: int|
                #![trigger result@[k]]
                0 <= k < i ==> {
                    &&& result@[k].answer_id == answers@[k].answer_id
                    &&& result@[k].label == answers@[k].label
                    &&& result@[k].selected == (answers@[k].selected && none_selected_before(
                        answers@,
                        k,
                    ))
                },
        decreases answers.len() - i,
    {
        let answer = &answers[i];
        let keep = answer.selected && !seen_selected;
        result.push(with_selection(answer, keep));
        proof {
            if answer.selected {
                assert(!none_selected_before(answers@, i + 1));
            } else if !seen_selected {
                assert forall|j: int| 0 <= j < i + 1 implies !#[trigger] answers@[j].selected by {
                    if j < i {
                        assert(none_selected_before(answers@, i as int));
                    }
                }
            } else {
                let w = choose|j: int| 0 <= j < i && #[trigger] answers@[j].selected;
                assert(0 <= w < i + 1 && answers@[w].selected);
            }
        }
        seen_selected = seen_selected || answer.selected;
        i = i + 1;
    }
    result
}

fn toggle_poll_answer_selection(picker: &mut PollVotePickerState, index: usize)
    ensures
        toggled_answers(
            old(picker).allow_multiselect,
            old(picker).answers@,
            index as int,
            final(picker).answers@,
        ),
        final(picker).allow_multiselect == old(picker).allow_multiselect,
        final(picker).selection == old(picker).selection,
        final(picker).channel_id == old(picker).channel_id,
        final(picker).message_id == old(picker).message_id,
{
    let ghost before = picker.answers@;
    if picker.allow_multiselect {
        if index < picker.answers.len() {
            let flipped = with_selection(&picker.answers[index], !picker.answers[index].selected);
            picker.answers.set(index, flipped);
        }
        return ;
    }
    let was_selected = index < picker.answers.len() && picker.answers[index].selected;
    let mut result: Vec<PollVotePickerItem> = Vec::new();
    let mut i: usize = 0;
    while i < picker.answers.len()
        invariant
            picker.answers@ == before,
            i <= before.len(),
            result.len() == i,
            was_selected == (0 <= index < before.len() && before[index as int].selected),
            forall|k: int|
                #![trigger result@[k]]
                0 <= k < i ==> {
                    &&& result@[k].answer_id == before[k].answer_id
                    &&& result@[k].label == before[k].label
                    &&& result@[k].selected == (k == index && !was_selected)
                },
        decreases before.len() - i,
    {
        result.push(with_selection(&picker.answers[i], i == index && !was_selected));
        i = i + 1;
    }
    picker.answers = result;
}

/// The open poll vote picker, if any.
pub open spec fn poll_picker_of(state: &DashboardState) -> Option<PollVotePickerState> {
    match state.popups.modal {
        Some(ModalPopup::PollVotePicker(p)) => Some(p),
        _ => None,
    }
}

/// The open poll vote picker after applying `f` to it, everything else as it was.
pub open spec fn poll_picker_updated(
    before: &DashboardState,
    after: &DashboardState,
    f: spec_fn(PollVotePickerState) -> PollVotePickerState,
) -> bool {
    &&& match before.popups.modal {
        Some(ModalPopup::PollVotePicker(p)) => after.popups.modal == Some(
            ModalPopup::PollVotePicker(f(p)),
        ),
        _ => after.popups.modal == before.popups.modal,
    }
    &&& same_except_popups(before, after)
}

/// The open poll vote picker now holds `answers` and `selection`, the rest as it was.
pub open spec fn poll_picker_answers_now(
    before: &DashboardState,
    after: &DashboardState,
    selected: int,
    index: int,
) -> bool {
    &&& match before.popups.modal {
        Some(ModalPopup::PollVotePicker(p)) => after.popups.modal matches Some(
            ModalPopup::PollVotePicker(q),
        ) && q.selection.selected == selected && q.allow_multiselect == p.allow_multiselect
            && q.channel_id == p.channel_id && q.message_id == p.message_id && toggled_answers(
            p.allow_multiselect,
            p.answers@,
            index,
            q.answers@,
        ),
        _ => after.popups.modal == before.popups.modal,
    }
    &&& same_except_popups(before, after)
}

/// The lowercase form of an ASCII letter; other chars unchanged.
pub open spec fn ascii_lowercase(c: char) -> char {
    if 'A' <= c <= 'Z' {
        ((c as u32) + 32) as char
    } else {
        c
    }
}

/// The lowercase form of an ASCII letter, as `char::to_ascii_lowercase` gives it.
pub fn to_ascii_lowercase(c: char) -> (r: char)
    ensures
        r == ascii_lowercase(c),
{
    if 'A' <= c && c <= 'Z' {
        let v = (c as u8) + 32;
        v as char
    } else {
        c
    }
}

impl DashboardState {
    /// The answers of the open poll vote picker.
    pub fn poll_vote_picker_items(&self) -> (r: Option<&[PollVotePickerItem]>)
        ensures
            match poll_picker_of(self) {
                Some(p) => r matches Some(a) && a@ == p.answers@,
                None => r is None,
            },
    {
        match &self.popups.modal {
            Some(ModalPopup::PollVotePicker(picker)) => Some(picker.answers()),
            _ => None,
        }
    }

    /// Closes the poll vote picker if it is open.
    pub fn close_poll_vote_picker(&mut self)
        ensures
            closed_if_kind(&*old(self), &*final(self), ActiveModalPopupKind::PollVotePicker),
    {
        self.close_modal_of_kind(ActiveModalPopupKind::PollVotePicker);
    }

    /// Highlights the next answer, stopping at the last.
    pub fn move_poll_vote_picker_down(&mut self)
        ensures
            poll_picker_updated(
                &*old(self),
                &*final(self),
                |p: PollVotePickerState|
                    PollVotePickerState {
                        selection: SelectionState {
                            selected: (if p.answers@.len() == 0 {
                                0
                            } else if clamp_selected(
                                p.selection.selected as int,
                                p.answers@.len() as int,
                            ) + 1 < p.answers@.len() {
                                clamp_selected(p.selection.selected as int, p.answers@.len() as int)
                                    + 1
                            } else {
                                p.answers@.len() - 1
                            }) as usize,
                        },
                        ..p
                    },
            ),
    {
        if let Some(ModalPopup::PollVotePicker(picker)) = &mut self.popups.modal {
            let len = picker.answers.len();
            picker.selection.move_down(len);
        }
    }

    /// Highlights the previous answer, stopping at the first.
    pub fn move_poll_vote_picker_up(&mut self)
        ensures
            poll_picker_updated(
                &*old(self),
                &*final(self),
                |p: PollVotePickerState|
                    PollVotePickerState {
                        selection: SelectionState {
                            selected: if p.selection.selected == 0 {
                                0
                            } else {
                                (p.selection.selected - 1) as usize
                            },
                        },
                        ..p
                    },
            ),
    {
        if let Some(ModalPopup::PollVotePicker(picker)) = &mut self.popups.modal {
            picker.selection.move_up();
        }
    }

    /// Toggles the highlighted answer.
    pub fn toggle_selected_poll_vote_answer(&mut self)
        ensures
            match poll_picker_of(&*old(self)) {
                Some(p) => poll_picker_answers_now(
                    &*old(self),
                    &*final(self),
                    p.selection.selected as int,
                    clamp_selected(p.selection.selected as int, p.answers@.len() as int),
                ),
                None => *final(self) == *old(self),
            },
    {
        if let Some(ModalPopup::PollVotePicker(picker)) = &mut self.popups.modal {
            let index = picker.selection.selected_for_len(picker.answers.len());
            toggle_poll_answer_selection(picker, index);
        }
    }

    /// Highlights and toggles the answer whose shortcut is `shortcut` (case-insensitively
    /// for ASCII letters); does nothing when no answer has that shortcut.
    pub fn toggle_poll_vote_answer_shortcut(&mut self, shortcut: char)
        ensures
            match poll_picker_of(&*old(self)) {
                Some(p) => {
                    let keys = old(self).options.key_bindings.indexed_shortcuts@;
                    let key = ascii_lowercase(shortcut);
                    if exists|i: int|
                        0 <= i < p.answers@.len() && i < keys.len() && #[trigger] keys[i] == key {
                        let i = choose|i: int|
                            0 <= i < p.answers@.len() && i < keys.len() && #[trigger] keys[i] == key
                                && forall|j: int| 0 <= j < i ==> keys[j] != key;
                        poll_picker_answers_now(&*old(self), &*final(self), i, i)
                    } else {
                        *final(self) == *old(self)
                    }
                },
                None => *final(self) == *old(self),
            },
    {
        let key = to_ascii_lowercase(shortcut);
        let ghost keys = self.options.key_bindings.indexed_shortcuts@;
        let ghost before = *self;
        let len = match &self.popups.modal {
            Some(ModalPopup::PollVotePicker(picker)) => picker.answers.len(),
            _ => {
                return ;
            },
        };
        let mut i: usize = 0;
        while i < len && !self.options.key_bindings.shortcut_is(i, key)
            invariant
                i <= len,
                keys == self.options.key_bindings.indexed_shortcuts@,
                forall|j: int| 0 <= j < i && j < keys.len() ==> #[trigger] keys[j] != key,
            decreases len - i,
        {
            i = i + 1;
        }
        if i == len {
            proof {
                assert(!exists|j: int|
                    0 <= j < len && j < keys.len() && #[trigger] keys[j] == key);
            }
            return ;
        }
        let index = i;
        proof {
            let c = choose|c: int|
                0 <= c < len && c < keys.len() && #[trigger] keys[c] == key && forall|j: int|
                    0 <= j < c ==> keys[j] != key;
            assert(0 <= index < len && index < keys.len() && keys[index as int] == key);
            assert(c == index) by {
                if c < index {
                    assert(keys[c] != key);
                } else if c > index {
                    assert(keys[index as int] != key);
                }
            }
        }
        if let Some(ModalPopup::PollVotePicker(picker)) = &mut self.popups.modal {
            picker.selection.select(index);
            toggle_poll_answer_selection(picker, index);
        }
    }

    /// The highlighted answer's index, while the picker is open.
    pub fn selected_poll_vote_picker_index(&self) -> (r: Option<usize>)
        ensures
            match poll_picker_of(self) {
                Some(p) => r == Some(
                    clamp_selected(p.selection.selected as int, p.answers@.len() as int) as usize,
                ),
                None => r is None,
            },
    {
        match &self.popups.modal {
            Some(ModalPopup::PollVotePicker(picker)) => Some(
                picker.selection.selected_for_len(picker.answers.len()),
            ),
            _ => None,
        }
    }

    /// Closes the picker and casts the selected answers as the vote; `None` when the
    /// picker is not open.
    pub fn activate_poll_vote_picker(&mut self) -> (r: Option<AppCommand>)
        ensures
            match poll_picker_of(&*old(self)) {
                Some(p) => {
                    &&& r matches Some(AppCommand::VotePoll { channel_id, message_id, answer_ids })
                    &&& channel_id == p.channel_id
                    &&& message_id == p.message_id
                    &&& answer_ids@ == selected_answer_ids(p.answers@)
                    &&& final(self).popups.modal is None
                },
                None => r is None && final(self).popups.modal == old(self).popups.modal,
            },
            same_except_popups(&*old(self), &*final(self)),
    {
        let is_picker = match &self.popups.modal {
            Some(ModalPopup::PollVotePicker(_)) => true,
            _ => false,
        };
        if !is_picker {
            return None;
        }
        let picker = match self.popups.modal.take() {
            Some(ModalPopup::PollVotePicker(picker)) => picker,
            _ => {
                return None;
            },
        };
        let mut answer_ids: Vec<u64> = Vec::new();
        let mut i: usize = 0;
        while i < picker.answers.len()
            invariant
                i <= picker.answers@.len(),
                answer_ids@ == selected_answer_ids(picker.answers@.take(i as int)),
            decreases picker.answers@.len() - i,
        {
            proof {
                assert(picker.answers@.take(i + 1).drop_last() =~= picker.answers@.take(i as int));
            }
            if picker.answers[i].selected {
                answer_ids.push(picker.answers[i].answer_id);
            }
            i = i + 1;
        }
        proof {
            assert(picker.answers@.take(picker.answers@.len() as int) =~= picker.answers@);
        }
        Some(
            AppCommand::VotePoll {
                channel_id: picker.channel_id,
                message_id: picker.message_id,
                answer_ids,
            },
        )
    }

    /// Opens the poll vote picker on the selected message's poll, with the user's votes
    /// selected (only the first for a single-choice poll); does nothing when no message
    /// with a poll is selected.
    pub fn open_poll_vote_picker(&mut self)
        ensures
            ({
                let msgs = old(self).messages.messages@;
                let i = old(self).messages.selected_message as int;
                if i < msgs.len() && msgs[i].poll is Some {
                    let poll = msgs[i].poll->0;
                    final(self).popups.modal matches Some(ModalPopup::PollVotePicker(p))
                        && p.selection.selected == 0 && p.allow_multiselect == poll.allow_multiselect
                        && p.channel_id == msgs[i].channel_id && p.message_id == msgs[i].id
                        && exists|items: Seq<PollVotePickerItem>|
                        picker_items_from_poll(poll.answers@, items) && normalized_answers(
                            poll.allow_multiselect,
                            items,
                            p.answers@,
                        )
                } else {
                    final(self).popups.modal == old(self).popups.modal
                }
            }),
            same_except_popups(&*old(self), &*final(self)),
    {
        let index = self.messages.selected_message;
        if index >= self.messages.messages.len() {
            return ;
        }
        let message = &self.messages.messages[index];
        let poll = match &message.poll {
            Some(poll) => poll,
            None => {
                return ;
            },
        };
        let mut items: Vec<PollVotePickerItem> = Vec::new();
        let mut i: usize = 0;
        while i < poll.answers.len()
            invariant
                i <= poll.answers@.len(),
                items@.len() == i,
                forall|k: int|
                    #![trigger items@[k]]
                    0 <= k < i ==> {
                        &&& items@[k].answer_id == poll.answers@[k].answer_id
                        &&& items@[k].label == poll.answers@[k].text
                        &&& items@[k].selected == poll.answers@[k].me_voted
                    },
            decreases poll.answers@.len() - i,
        {
            let answer = &poll.answers[i];
            items.push(
                PollVotePickerItem {
                    answer_id: answer.answer_id,
                    label: answer.text.clone(),
                    selected: answer.me_voted,
                },
            );
            i = i + 1;
        }
        let ghost item_seq = items@;
        let allow_multiselect = poll.allow_multiselect;
        let channel_id = message.channel_id;
        let message_id = message.id;
        let answers = normalized_poll_vote_picker_answers(allow_multiselect, items);
        self.popups.modal = Some(
            ModalPopup::PollVotePicker(
                PollVotePickerState {
                    selection: SelectionState::new(),
                    allow_multiselect,
                    channel_id,
                    message_id,
                    answers,
                },
            ),
        );
        proof {
            assert(picker_items_from_poll(
                old(self).messages.messages@[index as int].poll->0.answers@,
                item_seq,
            ));
        }
    }
}


/// One row of the poll vote picker as it is drawn: whether it is highlighted, its
/// shortcut key, and its text (a check box, then the answer).
#[derive(Debug, Clone, PartialEq, Eq)]
pub struct PollVotePickerRow {
    pub selected: bool,
    pub shortcut: Option<char>,
    pub text: String,
}

/// The text of an answer row: `[x]` or `[ ]`, a space, then the answer's label.
pub open spec fn poll_row_text(answer: PollVotePickerItem) -> Seq<char> {
    (if answer.selected {
        "[x] "@
    } else {
        "[ ] "@
    }) + answer.label@
}

/// The row of answer `index` when answer `selected` is highlighted.
pub open spec fn poll_row_matches(
    row: PollVotePickerRow,
    answer: PollVotePickerItem,
    index: int,
    selected: int,
    shortcuts: Seq<char>,
) -> bool {
    &&& row.selected == (index == selected)
    &&& row.shortcut == if index < shortcuts.len() {
        Some(shortcuts[index])
    } else {
        None::<char>
    }
    &&& row.text@ == poll_row_text(answer)
}

/// The rows of the picker over `answers` with answer `selected` highlighted, each
/// with its shortcut from `key_bindings`.
pub fn poll_vote_picker_rows(
    answers: &[PollVotePickerItem],
    selected: usize,
    key_bindings: &KeyBindings,
) -> (r: Vec<PollVotePickerRow>)
    ensures
        r@.len() == answers@.len(),
        forall|i: int|
            0 <= i < answers@.len() ==> poll_row_matches(
                #[trigger] r@[i],
                answers@[i],
                i,
                selected as int,
                key_bindings.indexed_shortcuts@,
            ),
{
    let mut rows: Vec<PollVotePickerRow> = Vec::new();
    let mut i: usize = 0;
    while i < answers.len()
        invariant
            i <= answers@.len(),
            rows@.len() == i,
            forall|k: int|
                0 <= k < i ==> poll_row_matches(
                    #[trigger] rows@[k],
                    answers@[k],
                    k,
                    selected as int,
                    key_bindings.indexed_shortcuts@,
                ),
        decreases answers@.len() - i,
    {
        let answer = &answers[i];
        let mut text: Vec<char> = Vec::new();
        if answer.selected {
            let mark = "[x] ";
            proof {
                reveal_strlit("[x] ");
            }
            push_str(&mut text, mark);
        } else {
            let mark = "[ ] ";
            proof {
                reveal_strlit("[ ] ");
            }
            push_str(&mut text, mark);
        }
        push_chars(&mut text, &str_chars(answer.label.as_str()));
        let row = PollVotePickerRow {
            selected: i == selected,
            shortcut: key_bindings.indexed_shortcut(i),
            text: string_from_chars(text.as_slice()),
        };
        rows.push(row);
        i = i + 1;
    }
    rows
}

impl DashboardState {
    /// The rows the poll vote picker draws: `None` when the picker is not open or has
    /// no answers.
    pub fn poll_vote_picker_view(&self) -> (r: Option<Vec<PollVotePickerRow>>)
        ensures
            match poll_picker_of(self) {
                Some(p) => if p.answers@.len() == 0 {
                    r is None
                } else {
                    r matches Some(rows) && rows@.len() == p.answers@.len() && forall|i: int|
                        0 <= i < p.answers@.len() ==> poll_row_matches(
                            #[trigger] rows@[i],
                            p.answers@[i],
                            i,
                            clamp_selected(p.selection.selected as int, p.answers@.len() as int),
                            self.options.key_bindings.indexed_shortcuts@,
                        )
                },
                None => r is None,
            },
    {
        let answers = match self.poll_vote_picker_items() {
            Some(answers) => answers,
            None => {
                return None;
            },
        };
        if answers.len() == 0 {
            return None;
        }
        let selected = match self.selected_poll_vote_picker_index() {
            Some(index) => index,
            None => 0,
        };
        Some(poll_vote_picker_rows(answers, selected, &self.options.key_bindings))
    }
}

} // verus!
