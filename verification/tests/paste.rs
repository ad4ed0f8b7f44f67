use concord_tui::paste::{
    file_uri_path, handle_paste, handle_pasted_file_attachments, handle_pasted_user_profile_avatar,
    hex_value, meaningful_paste_lines, pasted_file_path, pasted_file_paths, pasted_path_candidates,
    percent_decode, shell_path_words,
};
use concord_tui::state::{AttachmentUpload, DashboardState};

#[test]
fn hex_digits_decode_in_both_cases() {
    assert_eq!(hex_value(b'0'), Some(0));
    assert_eq!(hex_value(b'9'), Some(9));
    assert_eq!(hex_value(b'a'), Some(10));
    assert_eq!(hex_value(b'F'), Some(15));
    assert_eq!(hex_value(b'g'), None);
}

#[test]
fn percent_decoding_handles_escapes_and_utf8() {
    assert_eq!(percent_decode("/tmp/a%20b.txt"), Some("/tmp/a b.txt".to_owned()));
    assert_eq!(percent_decode("caf%C3%A9"), Some("café".to_owned()));
    assert_eq!(percent_decode("plain"), Some("plain".to_owned()));
}

#[test]
fn percent_decoding_refuses_bad_escapes() {
    assert_eq!(percent_decode("%2"), None);
    assert_eq!(percent_decode("%zz"), None);
    assert_eq!(percent_decode("%FF"), None);
}

#[test]
fn file_uris_name_absolute_paths() {
    assert_eq!(file_uri_path("/home/me/a%20b.png"), Some("/home/me/a b.png".to_owned()));
    assert_eq!(file_uri_path("localhost/etc/hosts"), Some("/etc/hosts".to_owned()));
    assert_eq!(file_uri_path("server/share"), None);
}

#[test]
fn pasted_values_name_files_by_uri_or_absolute_path() {
    assert_eq!(pasted_file_path("file:///tmp/x.txt"), Some("/tmp/x.txt".to_owned()));
    assert_eq!(pasted_file_path("/tmp/x.txt"), Some("/tmp/x.txt".to_owned()));
    assert_eq!(pasted_file_path("relative/x.txt"), None);
    assert_eq!(pasted_file_path("file://host/x"), None);
}

#[test]
fn paste_lines_drop_file_manager_noise() {
    let lines = meaningful_paste_lines(
        "x-special/gnome-copied-files\ncopy\n  file:///a.txt  \n# comment\n\ncut\n/b.txt\r\n",
    );
    assert_eq!(lines, vec!["file:///a.txt".to_owned(), "/b.txt".to_owned()]);
}

#[test]
fn shell_words_follow_quotes_and_escapes() {
    assert_eq!(
        shell_path_words("/a/b '/c d' \"/e f\" /g\\ h"),
        Some(vec!["/a/b".to_owned(), "/c d".to_owned(), "/e f".to_owned(), "/g h".to_owned()])
    );
    assert_eq!(shell_path_words("'it''s'"), Some(vec!["its".to_owned()]));
    assert_eq!(shell_path_words("  "), Some(vec![]));
}

#[test]
fn shell_words_refuse_open_quotes_and_trailing_backslash() {
    assert_eq!(shell_path_words("'open"), None);
    assert_eq!(shell_path_words("\"open"), None);
    assert_eq!(shell_path_words("end\\"), None);
}

fn upload(name: &str) -> AttachmentUpload {
    AttachmentUpload::from_path(format!("/tmp/{name}"), name.to_owned(), 3)
}

#[test]
fn composer_paste_inserts_text_without_carriage_returns() {
    let mut state = DashboardState::new();
    state.composer.composing = true;
    assert!(handle_paste(&mut state, "a\r\nb", None));
    assert_eq!(state.composer.input.value(), "a\nb");
}

#[test]
fn paste_outside_any_editor_is_ignored() {
    let mut state = DashboardState::new();
    assert!(!handle_paste(&mut state, "text", None));
    assert_eq!(state.composer.input.value(), "");
}

#[test]
fn empty_composer_paste_is_not_used() {
    let mut state = DashboardState::new();
    state.composer.composing = true;
    assert!(!handle_paste(&mut state, "\r\r", None));
}

#[test]
fn pasted_files_become_composer_attachments() {
    let mut state = DashboardState::new();
    state.composer.composing = true;
    state.composer.accepts_attachments = true;
    assert!(handle_paste(&mut state, "/tmp/a.txt", Some(vec![upload("a.txt")])));
    assert_eq!(state.composer.pending_composer_attachments, vec![upload("a.txt")]);
    assert_eq!(state.composer.input.value(), "");
}

#[test]
fn pasted_files_are_text_where_attachments_are_not_taken() {
    let mut state = DashboardState::new();
    state.composer.composing = true;
    assert!(!handle_pasted_file_attachments(&mut state, Some(vec![upload("a.txt")])));
    assert!(handle_paste(&mut state, "/tmp/a.txt", Some(vec![upload("a.txt")])));
    assert_eq!(state.composer.input.value(), "/tmp/a.txt");
}

#[test]
fn waiting_profile_avatar_takes_the_first_pasted_file() {
    let mut state = DashboardState::new();
    state.composer.accepts_user_profile_avatar_paste = true;
    assert!(handle_paste(&mut state, "x", Some(vec![upload("a.png"), upload("b.png")])));
    assert_eq!(state.composer.pending_user_profile_avatar, Some(upload("a.png")));
    assert!(!handle_pasted_user_profile_avatar(&mut state, Some(vec![])));
}

#[test]
fn profile_field_paste_goes_to_the_profile_editor() {
    let mut state = DashboardState::new();
    state.composer.user_profile_popup_editing = true;
    state.composer.composing = true;
    assert!(handle_paste(&mut state, "bio\r", None));
    assert_eq!(state.composer.profile_edit.value(), "bio");
    assert_eq!(state.composer.input.value(), "");
}

#[test]
fn forum_post_paste_takes_files_or_text() {
    let mut state = DashboardState::new();
    state.composer.forum_post_composer_active = true;
    assert!(!handle_paste(&mut state, "ignored", None));
    state.composer.forum_post_editing = true;
    assert!(handle_paste(&mut state, "post", None));
    assert_eq!(state.composer.forum_post_input.value(), "post");
    state.composer.forum_post_accepts_attachment_paste = true;
    assert!(handle_paste(&mut state, "/tmp/a.txt", Some(vec![upload("a.txt")])));
    assert_eq!(state.composer.pending_forum_post_attachments, vec![upload("a.txt")]);
}

#[test]
fn thread_title_paste_goes_to_the_title_editor() {
    let mut state = DashboardState::new();
    state.composer.thread_edit_title_editing = true;
    assert!(handle_paste(&mut state, "title", None));
    assert_eq!(state.composer.thread_edit_input.value(), "title");
}

#[test]
fn pasted_paths_need_every_named_file_to_exist() {
    let text = "copy\nfile:///tmp/a%20b.txt\n'/home/u/x y.png' /home/u/z.png\n";
    let candidates = pasted_path_candidates(text);
    assert_eq!(
        candidates,
        vec![
            "/tmp/a b.txt".to_owned(),
            "/tmp/a b.txt".to_owned(),
            "/tmp/a b.txt".to_owned(),
            "/home/u/x y.png".to_owned(),
            "/home/u/z.png".to_owned(),
        ]
    );
    let all = vec!["/tmp/a b.txt".to_owned(), "/home/u/x y.png".to_owned(), "/home/u/z.png".to_owned()];
    assert_eq!(
        pasted_file_paths(text, &all),
        Some(vec!["/tmp/a b.txt".to_owned(), "/home/u/x y.png".to_owned(), "/home/u/z.png".to_owned()])
    );
    let missing_one = vec!["/tmp/a b.txt".to_owned(), "/home/u/z.png".to_owned()];
    assert_eq!(pasted_file_paths(text, &missing_one), None);
    assert_eq!(pasted_file_paths("just some text", &all), None);
}

#[test]
fn a_whole_line_path_wins_over_its_shell_words() {
    let text = "/home/u/my file.txt";
    let existing = vec!["/home/u/my file.txt".to_owned()];
    assert_eq!(pasted_file_paths(text, &existing), Some(vec!["/home/u/my file.txt".to_owned()]));
    // Split as shell words it names `/home/u/my` and `file.txt`, which is no path.
    assert_eq!(pasted_file_paths(text, &vec![]), None);
}
