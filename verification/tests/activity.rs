use concord_tui::activity::{build_activity_render, ActivityKind, ActivityLeading, ActivityRender};

fn render(leading: ActivityLeading, body: &str) -> ActivityRender {
    ActivityRender { leading, body: body.to_owned() }
}

#[test]
fn activity_lines_read_as_icon_and_text() {
    assert_eq!(render(ActivityLeading::Icon('▶'), "Chess").to_display_string(), "▶ Chess");
    assert_eq!(render(ActivityLeading::Icon('♪'), "").to_display_string(), "♪");
    assert_eq!(render(ActivityLeading::Blank, "Competing in Cup").to_display_string(), "Competing in Cup");
    assert_eq!(
        render(ActivityLeading::Image("https://cdn.example/e.png".to_owned()), "busy").to_display_string(),
        "   busy"
    );
    assert_eq!(render(ActivityLeading::Image("u".to_owned()), "").to_display_string(), "  ");
}

#[test]
fn activity_lines_without_mark_or_text_are_empty() {
    assert!(render(ActivityLeading::Blank, " \t ").is_empty());
    assert!(!render(ActivityLeading::Blank, " x ").is_empty());
    assert!(!render(ActivityLeading::Icon('▷'), "").is_empty());
    assert!(!render(ActivityLeading::Image("u".to_owned()), " ").is_empty());
}

#[test]
fn activity_kinds_pick_their_leading_mark() {
    let none: Vec<String> = vec![];
    let playing = build_activity_render(ActivityKind::Playing, "Game", None, None, None, None, &none, false);
    assert_eq!(playing.leading, ActivityLeading::Icon('▶'));
    assert_eq!(playing.body, "Game");
    let streaming = build_activity_render(ActivityKind::Streaming, "Show", None, None, None, None, &none, false);
    assert_eq!(streaming.leading, ActivityLeading::Icon('◉'));
    let watching = build_activity_render(ActivityKind::Watching, "Film", None, None, None, None, &none, false);
    assert_eq!(watching.leading, ActivityLeading::Icon('▷'));
    let competing = build_activity_render(ActivityKind::Competing, "Cup", None, None, None, None, &none, false);
    assert_eq!(competing.leading, ActivityLeading::Blank);
    assert_eq!(competing.body, "Competing in Cup");
    let unknown = build_activity_render(ActivityKind::Unknown, "Thing", None, None, None, None, &none, false);
    assert_eq!(unknown.leading, ActivityLeading::Blank);
    assert_eq!(unknown.body, "Thing");
}

#[test]
fn listening_shows_track_and_artist_when_compact() {
    let none: Vec<String> = vec![];
    let full = build_activity_render(
        ActivityKind::Listening, "Spotify", Some("Song"), Some("Band"), None, None, &none, true,
    );
    assert_eq!(full.leading, ActivityLeading::Icon('♪'));
    assert_eq!(full.body, "Spotify - Song by Band");
    let track = build_activity_render(ActivityKind::Listening, "Spotify", Some("Song"), None, None, None, &none, true);
    assert_eq!(track.body, "Spotify - Song");
    let wide = build_activity_render(
        ActivityKind::Listening, "Spotify", Some("Song"), Some("Band"), None, None, &none, false,
    );
    assert_eq!(wide.body, "Spotify");
}

#[test]
fn custom_status_uses_a_loaded_emoji_image() {
    let loaded = vec!["https://cdn/e.png".to_owned()];
    let image = build_activity_render(
        ActivityKind::Custom, "Custom Status", None, Some("busy"), Some("https://cdn/e.png"), Some(":e:"), &loaded, false,
    );
    assert_eq!(image.leading, ActivityLeading::Image("https://cdn/e.png".to_owned()));
    assert_eq!(image.body, "busy");
    let text = build_activity_render(
        ActivityKind::Custom, "Custom Status", None, Some("busy"), Some("https://cdn/x.png"), Some(":e:"), &loaded, false,
    );
    assert_eq!(text.leading, ActivityLeading::Blank);
    assert_eq!(text.body, ":e: busy");
    let emoji_only = build_activity_render(ActivityKind::Custom, "Custom Status", None, None, None, Some("🙂"), &loaded, false);
    assert_eq!(emoji_only.body, "🙂");
    let empty = build_activity_render(ActivityKind::Custom, "Custom Status", None, None, None, None, &loaded, false);
    assert!(empty.is_empty());
}
