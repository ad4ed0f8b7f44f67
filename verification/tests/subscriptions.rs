use concord_tui::state::{ActiveGuildScope, ChannelState, DashboardState};

fn channel(id: u64, guild: u64, position: i64) -> ChannelState {
    ChannelState {
        id,
        guild_id: Some(guild),
        parent_id: None,
        position,
        is_category: false,
        is_thread: false,
        is_voice: false,
        viewable: true,
    }
}

#[test]
fn member_buckets_follow_the_scrolled_view() {
    let mut state = DashboardState::new();
    state.navigation.members.list.scroll = 0;
    state.navigation.members.list.view_height = 40;
    assert_eq!(state.member_subscription_top_bucket(), 0);
    assert_eq!(state.member_subscription_ranges(), vec![(0, 99)]);
    state.navigation.members.list.scroll = 180;
    assert_eq!(state.member_subscription_top_bucket(), 2);
    assert_eq!(state.member_subscription_ranges(), vec![(0, 99), (100, 199), (200, 299)]);
    state.navigation.members.list.scroll = 480;
    assert_eq!(state.member_subscription_ranges(), vec![(0, 99), (400, 499), (500, 599)]);
}

#[test]
fn member_list_channel_is_the_first_text_channel_in_sidebar_order() {
    let mut state = DashboardState::new();
    let mut voice = channel(1, 9, 0);
    voice.is_voice = true;
    let mut hidden = channel(2, 9, 0);
    hidden.viewable = false;
    state.discord.channels = vec![voice, hidden, channel(5, 9, 3), channel(4, 9, 2), channel(3, 8, 0)];
    assert_eq!(state.guild_member_list_channel(9), Some(4));
    assert_eq!(state.guild_member_list_channel(7), None);
}

#[test]
fn subscription_target_prefers_the_open_channel() {
    let mut state = DashboardState::new();
    state.discord.channels = vec![channel(4, 9, 2), channel(5, 9, 3)];
    assert_eq!(state.member_list_subscription_target(), None);
    state.navigation.guilds.active = ActiveGuildScope::Guild(9);
    assert_eq!(state.member_list_subscription_target(), Some((9, 4)));
    state.navigation.channels.active_channel_id = Some(5);
    assert_eq!(state.member_list_subscription_target(), Some((9, 5)));
    state.navigation.channels.active_channel_id = Some(77);
    assert_eq!(state.member_list_subscription_target(), Some((9, 4)));
    state.navigation.guilds.active = ActiveGuildScope::DirectMessages;
    assert_eq!(state.member_list_subscription_target(), None);
}
