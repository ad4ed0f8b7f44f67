use concord_tui::popups::EmojiReactionItem;
use concord_tui::reactions::{emoji_reaction_items_for_guild, prioritize_existing_reactions, CustomEmojiChoice};
use concord_tui::state::{AppCommand, DashboardState, MessageState, ReactionEmoji, ReactionInfo};

fn unicode(value: &str) -> ReactionEmoji {
    ReactionEmoji::Unicode(value.to_owned())
}

fn item(value: &str, label: &str) -> EmojiReactionItem {
    EmojiReactionItem { emoji: unicode(value), label: label.to_owned() }
}

fn labels(items: &[EmojiReactionItem]) -> Vec<String> {
    items.iter().map(|i| i.label.clone()).collect()
}

#[test]
fn existing_reactions_come_first() {
    let items = vec![item("a", "A"), item("b", "B"), item("c", "C")];
    let existing = vec![unicode("c"), unicode("z")];
    let existing_labels = vec!["c label".to_owned(), "Z".to_owned()];
    let out = prioritize_existing_reactions(items, &existing, &existing_labels);
    assert_eq!(labels(&out), vec!["C", "Z", "A", "B"]);
}

#[test]
fn no_existing_reactions_keep_the_items() {
    let items = vec![item("a", "A"), item("b", "B")];
    let out = prioritize_existing_reactions(items, &vec![], &vec![]);
    assert_eq!(labels(&out), vec!["A", "B"]);
}

fn message_with_reactions() -> MessageState {
    MessageState {
        id: 9,
        channel_id: 3,
        guild_id: None,
        author_id: 1,
        attachments: vec![],
        reactions: vec![
            ReactionInfo { emoji: unicode("b"), count: 2, me: true },
            ReactionInfo { emoji: unicode("x"), count: 1, me: false },
        ],
        poll: None,
    }
}

#[test]
fn opening_the_picker_offers_existing_reactions_first() {
    let mut state = DashboardState::new();
    let message = message_with_reactions();
    let reaction_labels = vec!["B".to_owned(), "X".to_owned()];
    state.open_emoji_reaction_picker(
        Some(&message),
        true,
        true,
        Some(77),
        vec![item("a", "A"), item("b", "B")],
        &reaction_labels,
    );
    let offered = state.filtered_emoji_reaction_items_slice().unwrap();
    assert_eq!(labels(offered), vec!["B", "X", "A"]);
    assert_eq!(state.existing_emoji_reactions().len(), 2);
    assert_eq!(state.own_emoji_reactions().len(), 1);
    assert_eq!(state.emoji_reaction_filter(), None);
}

#[test]
fn picker_without_new_reactions_offers_only_the_message_reactions() {
    let mut state = DashboardState::new();
    let message = message_with_reactions();
    let reaction_labels = vec!["B".to_owned(), "X".to_owned()];
    state.open_emoji_reaction_picker(
        Some(&message),
        true,
        false,
        None,
        vec![item("a", "A")],
        &reaction_labels,
    );
    assert_eq!(labels(state.filtered_emoji_reaction_items_slice().unwrap()), vec!["B", "X"]);
}

#[test]
fn picker_stays_closed_when_it_may_not_open() {
    let mut state = DashboardState::new();
    let message = message_with_reactions();
    let reaction_labels = vec!["B".to_owned(), "X".to_owned()];
    state.open_emoji_reaction_picker(Some(&message), false, true, None, vec![], &reaction_labels);
    assert!(state.filtered_emoji_reaction_items_slice().is_none());
    state.open_emoji_reaction_picker(None, true, true, None, vec![], &vec![]);
    assert!(state.filtered_emoji_reaction_items_slice().is_none());
}

fn choice(label: &str, available: bool, in_guild: bool, elsewhere: bool) -> CustomEmojiChoice {
    CustomEmojiChoice {
        item: EmojiReactionItem {
            emoji: ReactionEmoji::Custom { id: 1, name: Some(label.to_owned()), animated: false },
            label: label.to_owned(),
        },
        available,
        usable_in_guild: in_guild,
        usable_elsewhere: elsewhere,
    }
}

#[test]
fn guild_items_order_quick_guild_other_remaining() {
    let quick = vec![item("q", "Q")];
    let guild = vec![choice("g1", true, true, false), choice("g2", false, true, true), choice("g3", true, false, true)];
    let other = vec![choice("o1", true, false, true), choice("o2", true, true, false)];
    let remaining = vec![item("r", "R")];
    let with_nitro = emoji_reaction_items_for_guild(&quick, &guild, &other, true, &remaining);
    assert_eq!(labels(&with_nitro), vec!["Q", "g1", "o1", "R"]);
    let without = emoji_reaction_items_for_guild(&quick, &guild, &other, false, &remaining);
    assert_eq!(labels(&without), vec!["Q", "g1", "R"]);
}

#[test]
fn activating_the_selected_emoji_adds_or_removes_the_reaction() {
    let message = message_with_reactions();
    let reaction_labels = vec!["B".to_owned(), "X".to_owned()];
    let mut state = DashboardState::new();
    state.open_emoji_reaction_picker(Some(&message), true, true, None, vec![item("a", "A")], &reaction_labels);
    // The first item is the user's own reaction `b`: activating takes it back.
    match state.activate_selected_emoji_reaction(Some(&message), true) {
        Some(AppCommand::RemoveReaction { channel_id: 3, message_id: 9, emoji: ReactionEmoji::Unicode(e) }) => {
            assert_eq!(e, "b")
        },
        other => panic!("unexpected {other:?}"),
    }
    assert!(state.filtered_emoji_reaction_items_slice().is_none());

    let mut state = DashboardState::new();
    state.open_emoji_reaction_picker(Some(&message), true, true, None, vec![item("a", "A")], &reaction_labels);
    state.move_emoji_reaction_down();
    match state.activate_selected_emoji_reaction(Some(&message), true) {
        Some(AppCommand::AddReaction { emoji: ReactionEmoji::Unicode(e), .. }) => assert_eq!(e, "x"),
        other => panic!("unexpected {other:?}"),
    }

    let mut state = DashboardState::new();
    state.open_emoji_reaction_picker(Some(&message), true, true, None, vec![item("a", "A")], &reaction_labels);
    assert!(state.activate_selected_emoji_reaction(Some(&message), false).is_none());
    assert!(state.filtered_emoji_reaction_items_slice().is_none());
}
