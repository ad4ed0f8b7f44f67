use concord_tui::message_text::{
    format_attachment, format_attachment_summary, format_attachment_summary_lines, header_spans,
    truncate_header_error, HeaderStatus, HeaderTone, MessageEvent, MessageRef,
};
use concord_tui::state::{AttachmentInfo, DashboardState};

fn attachment(filename: &str, is_image: bool, is_video: bool, size: Option<(u64, u64)>) -> AttachmentInfo {
    AttachmentInfo {
        filename: filename.to_owned(),
        preferred_url: None,
        size: 0,
        is_image,
        is_video,
        width: size.map(|s| s.0),
        height: size.map(|s| s.1),
    }
}

#[test]
fn attachments_read_as_kind_name_and_size() {
    assert_eq!(format_attachment(&attachment("cat.png", true, false, Some((640, 480)))), "[image: cat.png] 640x480");
    assert_eq!(format_attachment(&attachment("clip.mp4", false, true, None)), "[video: clip.mp4]");
    assert_eq!(format_attachment(&attachment("notes.txt", false, false, None)), "[file: notes.txt]");
}

#[test]
fn attachment_summary_joins_with_bars() {
    let attachments = [attachment("a.png", true, false, None), attachment("b.txt", false, false, None)];
    assert_eq!(format_attachment_summary(&attachments), "[image: a.png] | [file: b.txt]");
    assert_eq!(format_attachment_summary_lines(&attachments).len(), 2);
    assert_eq!(format_attachment_summary(&[]), "");
}

#[test]
fn header_errors_are_cut_after_ninety_six_chars() {
    let short = "gateway closed";
    assert_eq!(truncate_header_error(short), short);
    let exact: String = "x".repeat(96);
    assert_eq!(truncate_header_error(&exact), exact);
    let long: String = "é".repeat(100);
    assert_eq!(truncate_header_error(&long), format!("{}...", "é".repeat(96)));
}

fn status() -> HeaderStatus {
    HeaderStatus {
        current_user: None,
        self_mute: false,
        self_deaf: false,
        update_available_version: None,
        voice_connection_label: None,
    }
}

fn texts(spans: &[(String, HeaderTone)]) -> Vec<&str> {
    spans.iter().map(|s| s.0.as_str()).collect()
}

#[test]
fn header_shows_loading_then_errors_then_the_user() {
    assert_eq!(texts(&header_spans(&status(), None)), vec!["", " Loading... "]);
    assert_eq!(
        texts(&header_spans(&status(), Some("boom"))),
        vec!["", " Connection issue: boom "]
    );
    let mut connected = status();
    connected.current_user = Some("neo".to_owned());
    connected.self_mute = true;
    connected.update_available_version = Some("1.2.3".to_owned());
    connected.voice_connection_label = Some("Lounge".to_owned());
    let spans = header_spans(&connected, Some("ignored"));
    assert_eq!(
        texts(&spans),
        vec!["", " Connected as ", "neo ", "\u{1F507} ", " New version available: v1.2.3 ", " Voice ", "Lounge "]
    );
    assert_eq!(spans[2].1, HeaderTone::User);
    assert_eq!(spans[3].1, HeaderTone::Mark);
    assert_eq!(spans[4].1, HeaderTone::Status);
    assert_eq!(spans[5].1, HeaderTone::Dim);
}

#[test]
fn catch_up_loads_report_the_oldest_newer_message_of_the_open_channel() {
    let mut state = DashboardState::new();
    state.navigation.channels.active_channel_id = Some(5);
    let m = |channel_id, message_id| MessageRef { channel_id, message_id, author_id: 1 };
    let event = MessageEvent::MessageHistoryAfterLoaded {
        channel_id: 5,
        after: 100,
        messages: vec![m(5, 99), m(5, 130), m(6, 101), m(5, 120)],
        catch_up: true,
    };
    assert_eq!(state.active_channel_message_create(&event), Some((5, 120)));
    let not_catch_up = MessageEvent::MessageHistoryAfterLoaded {
        channel_id: 5,
        after: 100,
        messages: vec![m(5, 130)],
        catch_up: false,
    };
    assert_eq!(state.active_channel_message_create(&not_catch_up), None);
    let created = MessageEvent::MessageCreate { message: m(5, 7) };
    assert_eq!(state.active_channel_message_create(&created), Some((5, 7)));
    let elsewhere = MessageEvent::MessageCreate { message: m(6, 7) };
    assert_eq!(state.active_channel_message_create(&elsewhere), None);
    assert_eq!(state.active_channel_message_create(&MessageEvent::Other), None);
}

#[test]
fn own_messages_in_the_open_channel_are_recognized() {
    let mut state = DashboardState::new();
    state.navigation.channels.active_channel_id = Some(5);
    state.discord.current_user_id = Some(1);
    let own = MessageEvent::MessageCreate { message: MessageRef { channel_id: 5, message_id: 2, author_id: 1 } };
    let other = MessageEvent::MessageCreate { message: MessageRef { channel_id: 5, message_id: 2, author_id: 3 } };
    assert!(state.event_is_self_message_in_active_channel(&own));
    assert!(!state.event_is_self_message_in_active_channel(&other));
}
