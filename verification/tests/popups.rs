use concord_tui::popups::{
    ActiveModalPopupKind, EmojiReactionItem, EmojiReactionPickerState, ModalPopup,
    ReactionUsersPopupState, SelectionAction,
};
use concord_tui::selection::{ScrollState, SelectionState};
use concord_tui::state::{DashboardState, ReactionEmoji};

#[test]
fn debug_log_popup_toggles() {
    let mut state = DashboardState::new();
    state.toggle_debug_log_popup();
    assert!(state.is_active_modal_popup(ActiveModalPopupKind::DebugLog));
    state.toggle_debug_log_popup();
    assert!(state.popups.modal.is_none());
    state.open_keymap_help_popup();
    state.close_debug_log_popup();
    assert!(state.is_active_modal_popup(ActiveModalPopupKind::KeymapHelp));
}

#[test]
fn keymap_popup_scrolls_within_its_lines() {
    let mut state = DashboardState::new();
    state.open_keymap_help_popup();
    state.set_keymap_popup_view_height(4);
    state.set_keymap_popup_total_lines(6);
    state.scroll_keymap_popup(SelectionAction::Next);
    state.scroll_keymap_popup(SelectionAction::Next);
    state.scroll_keymap_popup(SelectionAction::Next);
    assert_eq!(state.keymap_popup_scroll(), 2);
    state.scroll_keymap_popup(SelectionAction::Previous);
    assert_eq!(state.keymap_popup_scroll(), 1);
    state.close_keymap_popup();
    assert!(state.popups.modal.is_none());
    assert_eq!(state.keymap_popup_scroll(), 0);
}

fn item(name: &str) -> EmojiReactionItem {
    EmojiReactionItem { emoji: ReactionEmoji::Unicode(name.to_owned()), label: name.to_owned() }
}

fn with_picker() -> DashboardState {
    let mut state = DashboardState::new();
    state.popups.modal = Some(ModalPopup::EmojiReactionPicker(EmojiReactionPickerState {
        selection: SelectionState::new(),
        filter: None,
        filter_editing: false,
        filtered_items: vec![item("a"), item("b"), item("c")],
        items: vec![item("a"), item("b"), item("c")],
        existing_reactions: vec![ReactionEmoji::Unicode("b".to_owned())],
        own_reactions: Vec::new(),
        guild_id: None,
        channel_id: 3,
        message_id: 4,
    }));
    state
}

#[test]
fn reaction_picker_selection_moves_over_filtered_items() {
    let mut state = with_picker();
    assert_eq!(state.filtered_emoji_reaction_items_slice().unwrap().len(), 3);
    state.move_emoji_reaction_down();
    state.move_emoji_reaction_down();
    state.move_emoji_reaction_down();
    assert_eq!(state.selected_emoji_reaction_index_for_len(3), Some(2));
    assert_eq!(state.selected_emoji_reaction().unwrap().label, "c");
    state.move_emoji_reaction_up();
    assert_eq!(state.selected_emoji_reaction().unwrap().label, "b");
    assert_eq!(state.existing_emoji_reactions().len(), 1);
    assert!(state.own_emoji_reactions().is_empty());
}

#[test]
fn reaction_filter_starts_empty_and_commits() {
    let mut state = with_picker();
    assert!(!state.is_filtering_emoji_reactions());
    state.start_emoji_reaction_filter();
    assert!(state.is_filtering_emoji_reactions());
    assert!(state.is_editing_emoji_reaction_filter());
    assert_eq!(state.emoji_reaction_filter(), Some(""));
    state.commit_emoji_reaction_filter();
    assert!(!state.is_editing_emoji_reaction_filter());
    assert!(state.is_filtering_emoji_reactions());
    state.close_emoji_reaction_picker();
    assert!(state.popups.modal.is_none());
    assert!(state.emoji_reaction_filter().is_none());
}

#[test]
fn reaction_users_popup_scrolls_over_its_lines() {
    let mut state = DashboardState::new();
    state.popups.modal = Some(ModalPopup::ReactionUsers(ReactionUsersPopupState {
        scroll: ScrollState::new(),
        lines: vec!["x".to_owned(), "y".to_owned(), "z".to_owned()],
    }));
    state.set_reaction_users_popup_view_height(2);
    state.scroll_reaction_users_popup_down();
    state.scroll_reaction_users_popup_down();
    assert_eq!(state.reaction_users_popup().unwrap().scroll.scroll(), 1);
    state.scroll_reaction_users_popup_up();
    assert_eq!(state.reaction_users_popup().unwrap().scroll.scroll(), 0);
    state.close_reaction_users_popup();
    assert!(state.reaction_users_popup().is_none());
}
