use concord_tui::popups::{AttachmentViewerZoom, ModalPopup};
use concord_tui::state::{
    AppCommand, AttachmentInfo, DashboardState, DownloadAttachmentSource, MessageState,
};

fn attachment(filename: &str, url: Option<&str>, is_video: bool) -> AttachmentInfo {
    AttachmentInfo {
        filename: filename.to_owned(),
        preferred_url: url.map(|u| u.to_owned()),
        size: 1234,
        is_image: !is_video,
        is_video,
        width: None,
        height: None,
    }
}

fn viewer_state() -> DashboardState {
    let mut state = DashboardState::new();
    state.messages.messages.push(MessageState {
        id: 77,
        channel_id: 5,
        guild_id: None,
        author_id: 1,
        attachments: vec![
            attachment("cat.png", Some("https://cdn.example/cat.png"), false),
            attachment("clip.mp4", Some("https://cdn.example/clip.mp4"), true),
            attachment("raw.bin", None, false),
        ],
        reactions: Vec::new(),
        poll: None,
    });
    state
}

#[test]
fn viewer_opens_on_the_first_attachment() {
    let mut state = viewer_state();
    assert!(state.open_attachment_viewer_for_selected_message());
    let item = state.selected_attachment_viewer_item().unwrap();
    assert_eq!((item.index, item.total), (1, 3));
    assert_eq!(item.filename, "cat.png");
    assert_eq!(item.url.as_deref(), Some("https://cdn.example/cat.png"));
    assert_eq!(item.size_bytes, 1234);
    assert_eq!(state.attachment_viewer_zoom(), AttachmentViewerZoom::Default);
}

#[test]
fn viewer_without_attachments_does_not_open() {
    let mut state = DashboardState::new();
    assert!(!state.open_attachment_viewer_for_selected_message());
    assert!(state.popups.modal.is_none());
    assert!(state.selected_attachment_viewer_item().is_none());
}

#[test]
fn viewer_moves_stop_at_both_ends() {
    let mut state = viewer_state();
    state.open_attachment_viewer_for_selected_message();
    state.move_attachment_viewer_previous();
    assert_eq!(state.selected_attachment_viewer_item().unwrap().index, 1);
    state.move_attachment_viewer_next();
    state.move_attachment_viewer_next();
    state.move_attachment_viewer_next();
    assert_eq!(state.selected_attachment_viewer_item().unwrap().index, 3);
    state.move_attachment_viewer_previous();
    assert_eq!(state.selected_attachment_viewer_item().unwrap().filename, "clip.mp4");
}

#[test]
fn viewer_closes_when_its_message_is_gone() {
    let mut state = viewer_state();
    state.open_attachment_viewer_for_selected_message();
    state.messages.messages.clear();
    state.move_attachment_viewer_next();
    assert!(state.popups.modal.is_none());
}

#[test]
fn downloads_take_fresh_ids_and_need_a_url() {
    let mut state = viewer_state();
    state.open_attachment_viewer_for_selected_message();
    let first = state.download_selected_attachment_viewer_attachment();
    match first {
        Some(AppCommand::DownloadAttachment { id, url, filename, source }) => {
            assert_eq!(id, 1);
            assert_eq!(url, "https://cdn.example/cat.png");
            assert_eq!(filename, "cat.png");
            assert_eq!(source, DownloadAttachmentSource::AttachmentViewer);
        },
        other => panic!("expected a download, got {other:?}"),
    }
    match state.download_selected_attachment_viewer_attachment() {
        Some(AppCommand::DownloadAttachment { id, .. }) => assert_eq!(id, 2),
        other => panic!("expected a download, got {other:?}"),
    }
    state.move_attachment_viewer_next();
    state.move_attachment_viewer_next();
    assert!(state.download_selected_attachment_viewer_attachment().is_none());
    assert_eq!(state.next_download_id, 3);
}

#[test]
fn only_videos_with_a_url_play() {
    let mut state = viewer_state();
    state.open_attachment_viewer_for_selected_message();
    assert!(state.play_selected_attachment_viewer_attachment().is_none());
    state.move_attachment_viewer_next();
    match state.play_selected_attachment_viewer_attachment() {
        Some(AppCommand::PlayMedia { target, request_id }) => {
            assert_eq!(target.url, "https://cdn.example/clip.mp4");
            assert_eq!(target.label, "clip.mp4");
            assert_eq!(request_id, None);
        },
        other => panic!("expected playback, got {other:?}"),
    }
    assert!(matches!(state.popups.modal, Some(ModalPopup::AttachmentViewer(_))));
    state.close_attachment_viewer();
    assert!(state.popups.modal.is_none());
}
