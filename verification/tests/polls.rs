use concord_tui::polls::{normalized_poll_vote_picker_answers, poll_vote_picker_rows, PollVotePickerRow};
use concord_tui::popups::{ModalPopup, PollVotePickerItem};
use concord_tui::state::{
    AppCommand, DashboardState, KeyBindings, MessageState, PollAnswerInfo, PollInfo,
};

fn answer(answer_id: u64, text: &str, me_voted: bool) -> PollAnswerInfo {
    PollAnswerInfo { answer_id, text: text.to_owned(), me_voted }
}

fn with_poll(allow_multiselect: bool, answers: Vec<PollAnswerInfo>) -> DashboardState {
    let mut state = DashboardState::new();
    state.messages.messages.push(MessageState {
        id: 500,
        channel_id: 40,
        guild_id: Some(1),
        author_id: 9,
        attachments: Vec::new(),
        reactions: Vec::new(),
        poll: Some(PollInfo { allow_multiselect, answers }),
    });
    state
}

fn selected(state: &DashboardState) -> Vec<bool> {
    state.poll_vote_picker_items().unwrap().iter().map(|a| a.selected).collect()
}

#[test]
fn single_choice_picker_keeps_only_the_first_vote() {
    let items = vec![
        PollVotePickerItem { answer_id: 1, label: "a".to_owned(), selected: false },
        PollVotePickerItem { answer_id: 2, label: "b".to_owned(), selected: true },
        PollVotePickerItem { answer_id: 3, label: "c".to_owned(), selected: true },
    ];
    let single: Vec<bool> =
        normalized_poll_vote_picker_answers(false, items).iter().map(|a| a.selected).collect();
    assert_eq!(single, vec![false, true, false]);
}

#[test]
fn multiple_choice_picker_keeps_every_vote() {
    let items = vec![
        PollVotePickerItem { answer_id: 1, label: "a".to_owned(), selected: true },
        PollVotePickerItem { answer_id: 2, label: "b".to_owned(), selected: true },
    ];
    let multi: Vec<bool> =
        normalized_poll_vote_picker_answers(true, items).iter().map(|a| a.selected).collect();
    assert_eq!(multi, vec![true, true]);
}

#[test]
fn picker_opens_on_the_selected_poll_and_votes() {
    let mut state = with_poll(false, vec![answer(11, "yes", false), answer(12, "no", true)]);
    state.open_poll_vote_picker();
    assert_eq!(selected(&state), vec![false, true]);
    assert_eq!(state.selected_poll_vote_picker_index(), Some(0));
    state.toggle_selected_poll_vote_answer();
    assert_eq!(selected(&state), vec![true, false]);
    match state.activate_poll_vote_picker() {
        Some(AppCommand::VotePoll { channel_id, message_id, answer_ids }) => {
            assert_eq!(channel_id, 40);
            assert_eq!(message_id, 500);
            assert_eq!(answer_ids, vec![11]);
        },
        other => panic!("expected a vote, got {other:?}"),
    }
    assert!(state.popups.modal.is_none());
    assert!(state.activate_poll_vote_picker().is_none());
}

#[test]
fn picker_moves_stop_at_the_ends() {
    let mut state = with_poll(true, vec![answer(1, "a", false), answer(2, "b", false)]);
    state.open_poll_vote_picker();
    state.move_poll_vote_picker_up();
    assert_eq!(state.selected_poll_vote_picker_index(), Some(0));
    state.move_poll_vote_picker_down();
    state.move_poll_vote_picker_down();
    assert_eq!(state.selected_poll_vote_picker_index(), Some(1));
    state.move_poll_vote_picker_up();
    assert_eq!(state.selected_poll_vote_picker_index(), Some(0));
}

#[test]
fn shortcuts_toggle_answers_by_number() {
    let mut state = with_poll(true, vec![answer(1, "a", false), answer(2, "b", false)]);
    state.open_poll_vote_picker();
    state.toggle_poll_vote_answer_shortcut('2');
    assert_eq!(selected(&state), vec![false, true]);
    assert_eq!(state.selected_poll_vote_picker_index(), Some(1));
    state.toggle_poll_vote_answer_shortcut('2');
    assert_eq!(selected(&state), vec![false, false]);
    state.toggle_poll_vote_answer_shortcut('9');
    assert_eq!(selected(&state), vec![false, false]);
}

#[test]
fn multiple_choice_toggles_twice_to_restore() {
    let mut state = with_poll(true, vec![answer(1, "a", true), answer(2, "b", false)]);
    state.open_poll_vote_picker();
    state.toggle_selected_poll_vote_answer();
    state.toggle_selected_poll_vote_answer();
    assert_eq!(selected(&state), vec![true, false]);
}

#[test]
fn no_picker_without_a_poll() {
    let mut state = DashboardState::new();
    state.open_poll_vote_picker();
    assert!(state.popups.modal.is_none());
    assert!(state.poll_vote_picker_items().is_none());
    state.close_poll_vote_picker();
    assert!(matches!(state.popups.modal, None));
    let mut open = with_poll(true, vec![answer(1, "a", false)]);
    open.open_poll_vote_picker();
    assert!(matches!(open.popups.modal, Some(ModalPopup::PollVotePicker(_))));
    open.close_poll_vote_picker();
    assert!(open.popups.modal.is_none());
}

#[test]
fn picker_rows_show_check_boxes_shortcuts_and_the_highlight() {
    let answers = vec![
        PollVotePickerItem { answer_id: 1, label: "Tea".to_owned(), selected: true },
        PollVotePickerItem { answer_id: 2, label: "Coffee".to_owned(), selected: false },
    ];
    let bindings = KeyBindings { indexed_shortcuts: vec!['a'] };
    let rows = poll_vote_picker_rows(&answers, 1, &bindings);
    assert_eq!(
        rows,
        vec![
            PollVotePickerRow { selected: false, shortcut: Some('a'), text: "[x] Tea".to_owned() },
            PollVotePickerRow { selected: true, shortcut: None, text: "[ ] Coffee".to_owned() },
        ]
    );
}

#[test]
fn picker_view_needs_an_open_picker_with_answers() {
    let mut state = with_poll(false, vec![answer(1, "only", true)]);
    assert!(state.poll_vote_picker_view().is_none());
    state.open_poll_vote_picker();
    let rows = state.poll_vote_picker_view().unwrap();
    assert_eq!(rows.len(), 1);
    assert!(rows[0].selected);
    assert_eq!(rows[0].shortcut, Some('1'));
    assert_eq!(rows[0].text, "[x] only");
    let mut empty = with_poll(true, Vec::new());
    empty.open_poll_vote_picker();
    assert!(empty.poll_vote_picker_view().is_none());
}
