use concord_tui::composer_keys::{handle_composer_key, ComposerAction, ComposerKeyOutcome};
use concord_tui::state::{AttachmentUpload, DashboardState};

fn composing() -> DashboardState {
    let mut state = DashboardState::new();
    state.composer.composing = true;
    state
}

#[test]
fn typed_chars_and_newlines_edit_the_composer() {
    let mut state = composing();
    assert_eq!(handle_composer_key(&mut state, ComposerAction::InsertChar('h')), ComposerKeyOutcome::Done);
    handle_composer_key(&mut state, ComposerAction::InsertNewline);
    handle_composer_key(&mut state, ComposerAction::InsertChar('i'));
    assert_eq!(state.composer.input.value(), "h\ni");
    handle_composer_key(&mut state, ComposerAction::MoveCursorHome);
    handle_composer_key(&mut state, ComposerAction::InsertChar('>'));
    assert_eq!(state.composer.input.value(), ">h\ni");
    handle_composer_key(&mut state, ComposerAction::MoveCursorEnd);
    handle_composer_key(&mut state, ComposerAction::DeletePreviousChar);
    assert_eq!(state.composer.input.value(), ">h\n");
    handle_composer_key(&mut state, ComposerAction::ClearInput);
    assert_eq!(state.composer.input.value(), "");
}

#[test]
fn colon_and_submit_are_left_to_the_caller() {
    let mut state = composing();
    assert_eq!(handle_composer_key(&mut state, ComposerAction::InsertChar(':')), ComposerKeyOutcome::ColonTyped);
    assert_eq!(state.composer.input.value(), "");
    assert_eq!(handle_composer_key(&mut state, ComposerAction::Submit), ComposerKeyOutcome::Submit);
    state.push_composer_char(':');
    assert_eq!(state.composer.input.value(), ":");
}

#[test]
fn composer_requests_and_close_set_flags() {
    let mut state = composing();
    handle_composer_key(&mut state, ComposerAction::OpenInEditor);
    assert!(state.runtime.open_composer_in_editor_requested);
    handle_composer_key(&mut state, ComposerAction::PasteClipboard);
    assert!(state.runtime.paste_clipboard_requested);
    handle_composer_key(&mut state, ComposerAction::Close);
    assert!(!state.composer.composing);
}

#[test]
fn remove_last_attachment_pops_one() {
    let mut state = composing();
    let a = AttachmentUpload::from_bytes("a".to_owned(), vec![1]);
    let b = AttachmentUpload::from_bytes("b".to_owned(), vec![2]);
    state.composer.pending_composer_attachments = vec![a.clone(), b];
    handle_composer_key(&mut state, ComposerAction::RemoveLastAttachment);
    assert_eq!(state.composer.pending_composer_attachments, vec![a]);
    handle_composer_key(&mut state, ComposerAction::RemoveLastAttachment);
    handle_composer_key(&mut state, ComposerAction::RemoveLastAttachment);
    assert!(state.composer.pending_composer_attachments.is_empty());
}

#[test]
fn word_moves_and_deletes_work_on_words() {
    let mut state = composing();
    for c in "hello world".chars() {
        handle_composer_key(&mut state, ComposerAction::InsertChar(c));
    }
    handle_composer_key(&mut state, ComposerAction::DeletePreviousWord);
    assert_eq!(state.composer.input.value(), "hello ");
    handle_composer_key(&mut state, ComposerAction::MoveCursorWordLeft);
    assert_eq!(state.composer.input.cursor_byte_index(), 0);
    handle_composer_key(&mut state, ComposerAction::Ignore);
    assert_eq!(state.composer.input.value(), "hello ");
}
