use concord_tui::local_upload_preview::{
    local_upload_preview_candidate, local_upload_preview_view, LocalUploadPreviewState,
    LocalUploadPreviewStatus, LocalUploadPreviewView,
};
use concord_tui::scheduler::{
    member_list_subscription_request, member_request_commands, message_history_command,
    record_command_channel_closed, CommandSendOutcome, DashboardCommandScheduler,
    MessageHistoryRefreshState,
};
use concord_tui::state::{
    ActiveGuildScope, AppCommand, AttachmentUpload, ChannelState, DashboardState,
};

fn commands_debug(commands: &[AppCommand]) -> Vec<String> {
    commands.iter().map(|c| format!("{c:?}")).collect()
}

#[test]
fn selection_is_reported_once_per_change() {
    let mut scheduler = DashboardCommandScheduler::new();
    let first = scheduler.report_active_selection(Some(1), Some(10));
    assert_eq!(
        commands_debug(&first),
        vec![
            format!("{:?}", AppCommand::SetSelectedGuild { guild_id: Some(1) }),
            format!("{:?}", AppCommand::SetSelectedMessageChannel { channel_id: Some(10) }),
        ]
    );
    assert!(scheduler.report_active_selection(Some(1), Some(10)).is_empty());
    let changed = scheduler.report_active_selection(Some(1), None);
    assert_eq!(
        commands_debug(&changed),
        vec![format!("{:?}", AppCommand::SetSelectedMessageChannel { channel_id: None })]
    );
}

#[test]
fn stale_history_is_refreshed_not_reloaded() {
    assert!(matches!(message_history_command(5, true), AppCommand::RefreshMessageHistory { channel_id: 5 }));
    assert!(matches!(
        message_history_command(5, false),
        AppCommand::LoadMessageHistory { channel_id: 5, before: None }
    ));
}

#[test]
fn member_requests_subscribe_to_the_member_list_channel() {
    let mut state = DashboardState::new();
    assert_eq!(commands_debug(&member_request_commands(&state, 1)), vec![format!("{:?}", AppCommand::LoadGuildMembers { guild_id: 1 })]);
    state.discord.channels.push(ChannelState {
        id: 9,
        guild_id: Some(1),
        parent_id: None,
        position: 0,
        is_category: false,
        is_thread: false,
        is_voice: false,
        viewable: true,
    });
    let commands = member_request_commands(&state, 1);
    assert_eq!(commands.len(), 2);
    assert!(matches!(commands[1], AppCommand::SubscribeGuildChannel { guild_id: 1, channel_id: 9 }));
}

#[test]
fn closed_command_channel_is_recorded_as_gateway_error() {
    let mut state = DashboardState::new();
    assert!(CommandSendOutcome::ChannelClosed.is_channel_closed());
    assert!(!CommandSendOutcome::Sent.is_channel_closed());
    record_command_channel_closed(&mut state);
    assert_eq!(state.gateway_error(), Some("command channel closed"));
}

#[test]
fn history_goes_stale_after_thirty_minutes_away() {
    let mut refresh = MessageHistoryRefreshState::new();
    refresh.mark_stale_if_elapsed(1, 10_000_000);
    assert!(!refresh.is_stale(1));
    refresh.record_channel_left(1, 1_000);
    refresh.mark_stale_if_elapsed(1, 1_000 + 1_799_999);
    assert!(!refresh.is_stale(1));
    refresh.mark_stale_if_elapsed(1, 1_000 + 1_800_000);
    assert!(refresh.is_stale(1));
    refresh.record_refreshed(1);
    assert!(!refresh.is_stale(1));
    refresh.mark_stale_if_elapsed(1, 99_000_000);
    assert!(!refresh.is_stale(1));
}

#[test]
fn image_extensions_get_local_previews() {
    let named = |name: &str| AttachmentUpload::from_bytes(name.to_owned(), Vec::new());
    assert!(local_upload_preview_candidate(&named("cat.PNG")));
    assert!(local_upload_preview_candidate(&named("archive.tar.jpeg")));
    assert!(local_upload_preview_candidate(&named(".tiff")));
    assert!(!local_upload_preview_candidate(&named("notes.txt")));
    assert!(!local_upload_preview_candidate(&named("png")));
    assert!(!local_upload_preview_candidate(&named("trailing.")));
}

fn preview(state: LocalUploadPreviewStatus) -> LocalUploadPreviewState {
    LocalUploadPreviewState { attachment_index: 0, generation: 3, filename: "cat.png".to_owned(), state }
}

#[test]
fn upload_previews_show_loading_ready_or_failure() {
    assert_eq!(
        local_upload_preview_view(&preview(LocalUploadPreviewStatus::Pending)),
        LocalUploadPreviewView::Loading { filename: "cat.png".to_owned() }
    );
    assert_eq!(
        local_upload_preview_view(&preview(LocalUploadPreviewStatus::Loading)),
        LocalUploadPreviewView::Loading { filename: "cat.png".to_owned() }
    );
    assert_eq!(
        local_upload_preview_view(&preview(LocalUploadPreviewStatus::Ready)),
        LocalUploadPreviewView::Ready
    );
    assert_eq!(
        local_upload_preview_view(&preview(LocalUploadPreviewStatus::Failed("bad".to_owned()))),
        LocalUploadPreviewView::Failed { filename: "cat.png".to_owned(), message: "bad".to_owned() }
    );
}

#[test]
fn member_list_subscription_asks_for_the_viewed_buckets() {
    let mut state = DashboardState::new();
    assert_eq!(member_list_subscription_request(&state), None);
    state.discord.channels = vec![ChannelState {
        id: 31,
        guild_id: Some(3),
        parent_id: None,
        position: 0,
        is_category: false,
        is_thread: false,
        is_voice: false,
        viewable: true,
    }];
    state.navigation.guilds.active = ActiveGuildScope::Guild(3);
    state.navigation.members.list.scroll = 250;
    state.navigation.members.list.view_height = 30;
    assert_eq!(
        member_list_subscription_request(&state),
        Some((3, 31, 2, vec![(0, 99), (100, 199), (200, 299)]))
    );
}
