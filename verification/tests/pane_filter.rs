use concord_tui::state::{DashboardState, FocusPane};

#[test]
fn guild_filter_edits_its_query() {
    let mut state = DashboardState::new();
    assert!(!state.has_active_pane_filter());
    state.open_pane_filter(FocusPane::Guilds);
    assert!(state.is_guild_pane_filter_active());
    assert!(state.is_pane_filter_editing(FocusPane::Guilds));
    assert!(!state.is_channel_pane_filter_active());
    state.push_pane_filter_char(FocusPane::Guilds, 'r');
    state.push_pane_filter_char(FocusPane::Guilds, 'ü');
    state.push_pane_filter_char(FocusPane::Guilds, 's');
    assert_eq!(state.guild_pane_filter_query(), Some("rüs"));
    assert_eq!(state.guild_pane_filter_cursor(), Some(4));
    state.move_pane_filter_cursor_left(FocusPane::Guilds);
    assert_eq!(state.guild_pane_filter_cursor(), Some(3));
    state.pop_pane_filter_char(FocusPane::Guilds);
    assert_eq!(state.guild_pane_filter_query(), Some("rs"));
    assert_eq!(state.guild_pane_filter_cursor(), Some(1));
    state.move_pane_filter_cursor_right(FocusPane::Guilds);
    assert_eq!(state.guild_pane_filter_cursor(), Some(2));
}

#[test]
fn committed_filter_keeps_its_query_but_stops_editing() {
    let mut state = DashboardState::new();
    state.open_channel_pane_filter();
    state.push_channel_pane_filter_char('g');
    state.commit_pane_filter(FocusPane::Channels);
    assert!(state.is_channel_pane_filter_active());
    assert!(!state.is_pane_filter_editing(FocusPane::Channels));
    assert_eq!(state.channel_pane_filter_query(), Some("g"));
    assert_eq!(state.channel_pane_filter_cursor(), None);
    state.push_pane_filter_char(FocusPane::Channels, 'x');
    assert_eq!(state.channel_pane_filter_query(), Some("gx"));
}

#[test]
fn closing_filters_resets_the_list() {
    let mut state = DashboardState::new();
    state.navigation.channels.list.selected = 4;
    state.navigation.channels.list.scroll = 2;
    state.open_channel_pane_filter();
    state.close_pane_filter(FocusPane::Channels);
    assert!(!state.is_channel_pane_filter_active());
    assert_eq!(state.navigation.channels.list.selected, 0);
    assert_eq!(state.navigation.channels.list.scroll, 0);
    state.open_guild_pane_filter();
    state.open_channel_pane_filter();
    assert!(state.has_active_pane_filter());
    state.close_active_pane_filters();
    assert!(!state.has_active_pane_filter());
}

#[test]
fn message_and_member_panes_have_no_filter() {
    let mut state = DashboardState::new();
    state.open_pane_filter(FocusPane::Messages);
    assert!(!state.is_pane_filter_active(FocusPane::Messages));
    assert!(!state.has_active_pane_filter());
    state.push_pane_filter_char(FocusPane::Members, 'a');
    assert!(!state.is_pane_filter_active(FocusPane::Members));
}
