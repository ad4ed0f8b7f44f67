use vstd::prelude::*;

use crate::state::{ComposerState, DashboardState, RuntimeState};
use crate::text_input::{max_text_bytes, next_word_end, previous_word_start, vertical_target};
use crate::unicode::{next_grapheme_end, previous_grapheme_start, utf8_len};

verus! {

/// What a key does in the message composer, as the key bindings map it.
#[derive(Clone, Copy, Debug, PartialEq, Eq, Structural)]
pub enum ComposerAction {
    OpenInEditor,
    PasteClipboard,
    InsertNewline,
    Submit,
    Close,
    ClearInput,
    RemoveLastAttachment,
    DeletePreviousChar,
    DeletePreviousWord,
    MoveCursorUp,
    MoveCursorDown,
    MoveCursorWordLeft,
    MoveCursorLeft,
    MoveCursorWordRight,
    MoveCursorRight,
    MoveCursorHome,
    MoveCursorEnd,
    InsertChar(char),
    Ignore,
}

/// What remains to be done after a composer key: nothing, sending the message, or
/// (for a typed `:`) trying the `+:` reaction shortcut, typing the `:` when it does
/// not apply.
#[derive(Clone, Copy, Debug, PartialEq, Eq, Structural)]
pub enum ComposerKeyOutcome {
    Done,
    Submit,
    ColonTyped,
}

/// Whether `after` is `before` with only the composer's text input changed.
pub open spec fn only_input_changed(before: DashboardState, after: DashboardState) -> bool {
    &&& after.discord == before.discord
    &&& after.runtime == before.runtime
    &&& after.navigation == before.navigation
    &&& after.popups == before.popups
    &&& after.messages == before.messages
    &&& after.options == before.options
    &&& after.next_download_id == before.next_download_id
    &&& after.composer.composing == before.composer.composing
    &&& after.composer.pending_composer_attachments == before.composer.pending_composer_attachments
    &&& after.composer.forum_post_composer_active == before.composer.forum_post_composer_active
    &&& after.composer.user_profile_popup_editing == before.composer.user_profile_popup_editing
    &&& after.composer.accepts_user_profile_avatar_paste
        == before.composer.accepts_user_profile_avatar_paste
    &&& after.composer.accepts_attachments == before.composer.accepts_attachments
    &&& after.composer.profile_edit == before.composer.profile_edit
    &&& after.composer.pending_user_profile_avatar == before.composer.pending_user_profile_avatar
    &&& after.composer.forum_post_editing == before.composer.forum_post_editing
    &&& after.composer.forum_post_accepts_attachment_paste
        == before.composer.forum_post_accepts_attachment_paste
    &&& after.composer.forum_post_input == before.composer.forum_post_input
    &&& after.composer.pending_forum_post_attachments
        == before.composer.pending_forum_post_attachments
    &&& after.composer.thread_edit_title_editing == before.composer.thread_edit_title_editing
    &&& after.composer.thread_edit_input == before.composer.thread_edit_input
}

/// The composer text and cursor a text-editing action leaves, from `text` and
/// `cursor`.
pub open spec fn edited(action: ComposerAction, text: Seq<char>, cursor: int) -> (Seq<char>, int) {
    match action {
        ComposerAction::InsertNewline => (text.insert(cursor, '\n'), cursor + 1),
        ComposerAction::InsertChar(c) => (text.insert(cursor, c), cursor + 1),
        ComposerAction::ClearInput => (Seq::empty(), 0),
        ComposerAction::DeletePreviousChar => if cursor > 0 {
            let start = previous_grapheme_start(text, cursor);
            (text.take(start) + text.skip(cursor), start)
        } else {
            (text, 0)
        },
        ComposerAction::DeletePreviousWord => if cursor > 0 {
            let start = previous_word_start(text, cursor);
            (text.take(start) + text.skip(cursor), start)
        } else {
            (text, 0)
        },
        ComposerAction::MoveCursorUp => (text, match vertical_target(text, cursor, true) {
            Some(t) => t,
            None => cursor,
        }),
        ComposerAction::MoveCursorDown => (text, match vertical_target(text, cursor, false) {
            Some(t) => t,
            None => cursor,
        }),
        ComposerAction::MoveCursorWordLeft => (text, previous_word_start(text, cursor)),
        ComposerAction::MoveCursorLeft => (text, if cursor > 0 {
            previous_grapheme_start(text, cursor)
        } else {
            0
        }),
        ComposerAction::MoveCursorWordRight => (text, next_word_end(text, cursor)),
        ComposerAction::MoveCursorRight => (text, if cursor < text.len() {
            next_grapheme_end(text, cursor)
        } else {
            cursor
        }),
        ComposerAction::MoveCursorHome => (text, 0),
        ComposerAction::MoveCursorEnd => (text, text.len() as int),
        _ => (text, cursor),
    }
}

/// Whether `action` only edits the composer's text or moves its cursor.
pub open spec fn is_text_edit(action: ComposerAction) -> bool {
    match action {
        ComposerAction::InsertNewline | ComposerAction::ClearInput
        | ComposerAction::DeletePreviousChar | ComposerAction::DeletePreviousWord
        | ComposerAction::MoveCursorUp | ComposerAction::MoveCursorDown
        | ComposerAction::MoveCursorWordLeft | ComposerAction::MoveCursorLeft
        | ComposerAction::MoveCursorWordRight | ComposerAction::MoveCursorRight
        | ComposerAction::MoveCursorHome | ComposerAction::MoveCursorEnd => true,
        ComposerAction::InsertChar(c) => c != ':',
        _ => false,
    }
}

impl DashboardState {
    /// Types `value` at the composer's cursor.
    pub fn push_composer_char(&mut self, value: char)
        requires
            utf8_len(old(self).composer.input.text()) + 4 <= max_text_bytes(),
        ensures
            final(self).composer.input.text() == old(self).composer.input.text().insert(
                old(self).composer.input.cursor(),
                value,
            ),
            final(self).composer.input.cursor() == old(self).composer.input.cursor() + 1,
            only_input_changed(*old(self), *final(self)),
    {
        self.composer.input.insert_char(value);
    }
}

/// Carries out composer action `action`: edits the text or moves the cursor, asks
/// for the external editor or a clipboard paste, closes the composer or drops the
/// last pending attachment; what is left for the caller is said in the outcome.
pub fn handle_composer_key(state: &mut DashboardState, action: ComposerAction) -> (r:
    ComposerKeyOutcome)
    requires
        utf8_len(old(state).composer.input.text()) + 4 <= max_text_bytes(),
    ensures
        is_text_edit(action) ==> r == ComposerKeyOutcome::Done && only_input_changed(
            *old(state),
            *final(state),
        ) && (final(state).composer.input.text(), final(state).composer.input.cursor())
            == edited(action, old(state).composer.input.text(), old(state).composer.input.cursor()),
        action == ComposerAction::InsertChar(':') ==> r == ComposerKeyOutcome::ColonTyped
            && *final(state) == *old(state),
        action == ComposerAction::Submit ==> r == ComposerKeyOutcome::Submit && *final(state)
            == *old(state),
        action == ComposerAction::Ignore ==> r == ComposerKeyOutcome::Done && *final(state) == *old(
            state),
        action == ComposerAction::OpenInEditor ==> r == ComposerKeyOutcome::Done && *final(state)
            == (DashboardState {
            runtime: RuntimeState { open_composer_in_editor_requested: true, ..old(state).runtime },
            ..*old(state)
        }),
        action == ComposerAction::PasteClipboard ==> r == ComposerKeyOutcome::Done && *final(state)
            == (DashboardState {
            runtime: RuntimeState { paste_clipboard_requested: true, ..old(state).runtime },
            ..*old(state)
        }),
        action == ComposerAction::Close ==> r == ComposerKeyOutcome::Done && *final(state) == (
        DashboardState { composer: ComposerState { composing: false, ..old(state).composer }, ..*old(state) }),
        action == ComposerAction::RemoveLastAttachment ==> r == ComposerKeyOutcome::Done && final(
            state).composer.pending_composer_attachments@ == (if old(
            state).composer.pending_composer_attachments@.len() > 0 {
            old(state).composer.pending_composer_attachments@.drop_last()
        } else {
            old(state).composer.pending_composer_attachments@
        }) && *final(state) == (DashboardState {
            composer: ComposerState {
                pending_composer_attachments: final(state).composer.pending_composer_attachments,
                ..old(state).composer
            },
            ..*old(state)
        }),
{
    state.composer.input.well_formed();
    match action {
        ComposerAction::OpenInEditor => {
            state.request_open_composer_in_editor();
            ComposerKeyOutcome::Done
        },
        ComposerAction::PasteClipboard => {
            state.request_paste_clipboard();
            ComposerKeyOutcome::Done
        },
        ComposerAction::InsertNewline => {
            state.push_composer_char('\n');
            ComposerKeyOutcome::Done
        },
        ComposerAction::Submit => ComposerKeyOutcome::Submit,
        ComposerAction::Close => {
            state.composer.composing = false;
            ComposerKeyOutcome::Done
        },
        ComposerAction::ClearInput => {
            state.composer.input.clear();
            ComposerKeyOutcome::Done
        },
        ComposerAction::RemoveLastAttachment => {
            state.composer.pending_composer_attachments.pop();
            ComposerKeyOutcome::Done
        },
        ComposerAction::DeletePreviousChar => {
            state.composer.input.delete_previous_grapheme();
            ComposerKeyOutcome::Done
        },
        ComposerAction::DeletePreviousWord => {
            state.composer.input.delete_previous_word();
            ComposerKeyOutcome::Done
        },
        ComposerAction::MoveCursorUp => {
            state.composer.input.move_up();
            ComposerKeyOutcome::Done
        },
        ComposerAction::MoveCursorDown => {
            state.composer.input.move_down();
            ComposerKeyOutcome::Done
        },
        ComposerAction::MoveCursorWordLeft => {
            state.composer.input.move_word_left();
            ComposerKeyOutcome::Done
        },
        ComposerAction::MoveCursorLeft => {
            state.composer.input.move_left();
            ComposerKeyOutcome::Done
        },
        ComposerAction::MoveCursorWordRight => {
            state.composer.input.move_word_right();
            ComposerKeyOutcome::Done
        },
        ComposerAction::MoveCursorRight => {
            state.composer.input.move_right();
            ComposerKeyOutcome::Done
        },
        ComposerAction::MoveCursorHome => {
            state.composer.input.move_home();
            ComposerKeyOutcome::Done
        },
        ComposerAction::MoveCursorEnd => {
            state.composer.input.move_end();
            ComposerKeyOutcome::Done
        },
        ComposerAction::InsertChar(value) => {
            if value == ':' {
                ComposerKeyOutcome::ColonTyped
            } else {
                state.push_composer_char(value);
                ComposerKeyOutcome::Done
            }
        },
        ComposerAction::Ignore => ComposerKeyOutcome::Done,
    }
}

} // verus!
