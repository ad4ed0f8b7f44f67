use vstd::prelude::*;

use crate::pane_filter::PaneFilterState;
use crate::popups::ModalPopup;
use crate::selection::ListState;
use crate::text_input::TextInputState;

verus! {

/// The dashboard pane that has keyboard focus.
#[derive(Clone, Copy, Debug, PartialEq, Eq, Structural)]
pub enum FocusPane {
    Guilds,
    Channels,
    Messages,
    Members,
}

/// Which guild (server) the channel pane shows.
#[derive(Clone, Copy, Debug, PartialEq, Eq, Structural)]
pub enum ActiveGuildScope {
    Unset,
    DirectMessages,
    Guild(u64),
}

/// Where the bytes of an upload come from.
#[derive(Debug, Clone, PartialEq, Eq)]
pub enum UploadSource {
    /// A file on disk.
    Path(String),
    /// Bytes held in memory, such as a pasted image.
    Bytes(Vec<u8>),
}

/// A file queued for upload with the next message.
#[derive(Debug, Clone, PartialEq, Eq)]
pub struct AttachmentUpload {
    pub filename: String,
    pub source: UploadSource,
    pub size_bytes: u64,
}

impl AttachmentUpload {
    /// An upload of in-memory `bytes` named `filename`.
    pub fn from_bytes(filename: String, bytes: Vec<u8>) -> (r: Self)
        ensures
            r.filename == filename,
            r.source == UploadSource::Bytes(bytes),
            r.size_bytes == bytes@.len(),
    {
        let size_bytes = bytes.len() as u64;
        AttachmentUpload { filename, source: UploadSource::Bytes(bytes), size_bytes }
    }

    /// An upload of the file at `path`, named `filename`, of `size_bytes` bytes.
    pub fn from_path(path: String, filename: String, size_bytes: u64) -> (r: Self)
        ensures
            r.filename == filename,
            r.source == UploadSource::Path(path),
            r.size_bytes == size_bytes,
    {
        AttachmentUpload { filename, source: UploadSource::Path(path), size_bytes }
    }
}

/// An attachment of a message, with what the client derived from its metadata.
#[derive(Debug)]
pub struct AttachmentInfo {
    pub filename: String,
    /// The URL the client prefers for fetching the attachment, if any.
    pub preferred_url: Option<String>,
    pub size: u64,
    pub is_image: bool,
    pub is_video: bool,
    pub width: Option<u64>,
    pub height: Option<u64>,
}

/// An emoji used as a message reaction.
#[derive(Debug)]
pub enum ReactionEmoji {
    Unicode(String),
    Custom { id: u64, name: Option<String>, animated: bool },
}

/// A reaction on a message: its emoji, how many reacted and whether the user did.
#[derive(Debug)]
pub struct ReactionInfo {
    pub emoji: ReactionEmoji,
    pub count: u64,
    pub me: bool,
}

/// One answer of a poll.
#[derive(Debug)]
pub struct PollAnswerInfo {
    pub answer_id: u64,
    pub text: String,
    pub me_voted: bool,
}

/// A poll attached to a message.
#[derive(Debug)]
pub struct PollInfo {
    pub allow_multiselect: bool,
    pub answers: Vec<PollAnswerInfo>,
}

/// A message as the message pane holds it.
#[derive(Debug)]
pub struct MessageState {
    pub id: u64,
    pub channel_id: u64,
    pub guild_id: Option<u64>,
    pub author_id: u64,
    /// Attachments in the order the client displays them.
    pub attachments: Vec<AttachmentInfo>,
    pub reactions: Vec<ReactionInfo>,
    pub poll: Option<PollInfo>,
}

/// A channel as the cache holds it, with the viewer's permission to see it.
#[derive(Debug)]
pub struct ChannelState {
    pub id: u64,
    pub guild_id: Option<u64>,
    pub parent_id: Option<u64>,
    pub position: i64,
    pub is_category: bool,
    pub is_thread: bool,
    pub is_voice: bool,
    pub viewable: bool,
}

/// Where an attachment download was started from.
#[derive(Clone, Copy, Debug, PartialEq, Eq, Structural)]
pub enum DownloadAttachmentSource {
    AttachmentViewer,
}

/// Where media playback was started from.
#[derive(Clone, Copy, Debug, PartialEq, Eq, Structural)]
pub enum MediaPlaybackSource {
    AttachmentViewer,
}

/// Media to hand to an external player.
#[derive(Debug)]
pub struct MediaPlaybackTarget {
    pub url: String,
    pub label: String,
    pub source: MediaPlaybackSource,
}

/// Requests the dashboard hands to the Discord client.
#[derive(Debug)]
pub enum AppCommand {
    VotePoll { channel_id: u64, message_id: u64, answer_ids: Vec<u64> },
    DownloadAttachment {
        id: u64,
        url: String,
        filename: String,
        source: DownloadAttachmentSource,
    },
    PlayMedia { target: MediaPlaybackTarget, request_id: Option<u64> },
    AddReaction { channel_id: u64, message_id: u64, emoji: ReactionEmoji },
    RemoveReaction { channel_id: u64, message_id: u64, emoji: ReactionEmoji },
    LoadAttachmentPreview { url: String },
    SetSelectedGuild { guild_id: Option<u64> },
    SetSelectedMessageChannel { channel_id: Option<u64> },
    LoadMessageHistory { channel_id: u64, before: Option<u64> },
    RefreshMessageHistory { channel_id: u64 },
    LoadGuildMembers { guild_id: u64 },
    SubscribeGuildChannel { guild_id: u64, channel_id: u64 },
    LoadPinnedMessages { channel_id: u64 },
    LoadThreadPreview { channel_id: u64, message_id: u64 },
    UpdateMemberListSubscription { guild_id: u64, channel_id: u64, ranges: Vec<(u32, u32)> },
}

/// Shortcut keys shown beside indexed popup entries.
#[derive(Debug)]
pub struct KeyBindings {
    pub indexed_shortcuts: Vec<char>,
}

impl KeyBindings {
    /// Whether entry `index` has `key` as its shortcut.
    pub fn shortcut_is(&self, index: usize, key: char) -> (r: bool)
        ensures
            r == (index < self.indexed_shortcuts@.len() && self.indexed_shortcuts@[index as int]
                == key),
    {
        index < self.indexed_shortcuts.len() && self.indexed_shortcuts[index] == key
    }

    /// The shortcut key of entry `index`, if it has one.
    pub fn indexed_shortcut(&self, index: usize) -> (r: Option<char>)
        ensures
            index < self.indexed_shortcuts.len() ==> r == Some(self.indexed_shortcuts[index as int]),
            index >= self.indexed_shortcuts.len() ==> r is None,
    {
        if index < self.indexed_shortcuts.len() {
            Some(self.indexed_shortcuts[index])
        } else {
            None
        }
    }
}

/// Server-side data the dashboard shows.
#[derive(Debug)]
pub struct DiscordState {
    pub update_available_version: Option<String>,
    pub current_user_id: Option<u64>,
    pub channels: Vec<ChannelState>,
}

/// Requests and status flags the runtime loop consumes.
#[derive(Debug)]
pub struct RuntimeState {
    pub gateway_error: Option<String>,
    pub open_composer_in_editor_requested: bool,
    pub paste_clipboard_requested: bool,
    pub clipboard_paste_pending: bool,
}

/// Which text editors are open and what waits to be uploaded.
#[derive(Debug)]
pub struct ComposerState {
    /// The message composer is open.
    pub composing: bool,
    /// The forum post composer is open.
    pub forum_post_composer_active: bool,
    /// A field of the user profile popup is being edited.
    pub user_profile_popup_editing: bool,
    /// The user profile popup waits for a new avatar image.
    pub accepts_user_profile_avatar_paste: bool,
    pub pending_composer_attachments: Vec<AttachmentUpload>,
    /// The message being written.
    pub input: TextInputState,
    /// The open channel takes attachments with messages.
    pub accepts_attachments: bool,
    /// The user profile field being edited.
    pub profile_edit: TextInputState,
    /// The avatar image chosen for the user profile.
    pub pending_user_profile_avatar: Option<AttachmentUpload>,
    /// The forum post composer edits its text (and is not picking a tag or title).
    pub forum_post_editing: bool,
    /// The forum post composer takes pasted files as attachments.
    pub forum_post_accepts_attachment_paste: bool,
    /// The forum post being written.
    pub forum_post_input: TextInputState,
    pub pending_forum_post_attachments: Vec<AttachmentUpload>,
    /// The title of a thread is being edited.
    pub thread_edit_title_editing: bool,
    /// The thread title being written.
    pub thread_edit_input: TextInputState,
}

/// The guild pane.
#[derive(Debug)]
pub struct GuildPaneState {
    pub active: ActiveGuildScope,
    pub list: ListState,
    pub filter: Option<PaneFilterState>,
}

/// The channel pane.
#[derive(Debug)]
pub struct ChannelPaneState {
    pub active_channel_id: Option<u64>,
    pub list: ListState,
    pub filter: Option<PaneFilterState>,
}

/// The member sidebar.
#[derive(Debug)]
pub struct MemberPaneState {
    pub list: ListState,
}

/// The sidebars and which pane has focus.
#[derive(Debug)]
pub struct NavigationState {
    pub focus: FocusPane,
    pub guilds: GuildPaneState,
    pub channels: ChannelPaneState,
    pub members: MemberPaneState,
}

/// The open modal popup, if any.
#[derive(Debug)]
pub struct PopupState {
    pub modal: Option<ModalPopup>,
}

/// The loaded messages of the open channel and the message pane's position.
#[derive(Debug)]
pub struct MessagePaneState {
    pub messages: Vec<MessageState>,
    pub selected_message: usize,
    pub message_scroll: usize,
    pub message_line_scroll: usize,
}

/// User options.
#[derive(Debug)]
pub struct OptionsState {
    pub key_bindings: KeyBindings,
}

/// The whole state of the dashboard screen.
#[derive(Debug)]
pub struct DashboardState {
    pub discord: DiscordState,
    pub runtime: RuntimeState,
    pub composer: ComposerState,
    pub navigation: NavigationState,
    pub popups: PopupState,
    pub messages: MessagePaneState,
    pub options: OptionsState,
    pub next_download_id: u64,
}

impl DashboardState {
    /// A dashboard with nothing loaded, nothing open and the guild pane focused.
    pub fn new() -> (r: Self)
        ensures
            r.discord.update_available_version is None,
            r.discord.current_user_id is None,
            r.discord.channels@.len() == 0,
            r.runtime.gateway_error is None,
            !r.runtime.open_composer_in_editor_requested,
            !r.runtime.paste_clipboard_requested,
            !r.runtime.clipboard_paste_pending,
            !r.composer.composing,
            !r.composer.forum_post_composer_active,
            !r.composer.user_profile_popup_editing,
            !r.composer.accepts_user_profile_avatar_paste,
            r.composer.pending_composer_attachments@.len() == 0,
            r.composer.input.text().len() == 0 && r.composer.input.cursor() == 0,
            !r.composer.accepts_attachments,
            r.composer.profile_edit.text().len() == 0 && r.composer.profile_edit.cursor() == 0,
            r.composer.pending_user_profile_avatar is None,
            !r.composer.forum_post_editing,
            !r.composer.forum_post_accepts_attachment_paste,
            r.composer.forum_post_input.text().len() == 0 && r.composer.forum_post_input.cursor() == 0,
            r.composer.pending_forum_post_attachments@.len() == 0,
            !r.composer.thread_edit_title_editing,
            r.composer.thread_edit_input.text().len() == 0 && r.composer.thread_edit_input.cursor() == 0,
            r.navigation.focus == FocusPane::Guilds,
            r.navigation.guilds.active == ActiveGuildScope::Unset,
            r.navigation.guilds.filter is None,
            r.navigation.guilds.list.selected == 0 && r.navigation.guilds.list.scroll == 0,
            r.navigation.channels.active_channel_id is None,
            r.navigation.channels.filter is None,
            r.navigation.channels.list.selected == 0 && r.navigation.channels.list.scroll == 0,
            r.navigation.members.list.scroll == 0 && r.navigation.members.list.view_height == 0,
            r.popups.modal is None,
            r.messages.messages@.len() == 0,
            r.messages.selected_message == 0,
            r.messages.message_scroll == 0,
            r.messages.message_line_scroll == 0,
            r.next_download_id == 1,
    {
        let mut shortcuts: Vec<char> = Vec::new();
        shortcuts.push('1');
        shortcuts.push('2');
        shortcuts.push('3');
        shortcuts.push('4');
        shortcuts.push('5');
        shortcuts.push('6');
        shortcuts.push('7');
        shortcuts.push('8');
        shortcuts.push('9');
        DashboardState {
            discord: DiscordState {
                update_available_version: None,
                current_user_id: None,
                channels: Vec::new(),
            },
            runtime: RuntimeState {
                gateway_error: None,
                open_composer_in_editor_requested: false,
                paste_clipboard_requested: false,
                clipboard_paste_pending: false,
            },
            composer: ComposerState {
                composing: false,
                forum_post_composer_active: false,
                user_profile_popup_editing: false,
                accepts_user_profile_avatar_paste: false,
                pending_composer_attachments: Vec::new(),
                input: TextInputState::new(),
                accepts_attachments: false,
                profile_edit: TextInputState::new(),
                pending_user_profile_avatar: None,
                forum_post_editing: false,
                forum_post_accepts_attachment_paste: false,
                forum_post_input: TextInputState::new(),
                pending_forum_post_attachments: Vec::new(),
                thread_edit_title_editing: false,
                thread_edit_input: TextInputState::new(),
            },
            navigation: NavigationState {
                focus: FocusPane::Guilds,
                guilds: GuildPaneState {
                    active: ActiveGuildScope::Unset,
                    list: ListState::new(),
                    filter: None,
                },
                channels: ChannelPaneState {
                    active_channel_id: None,
                    list: ListState::new(),
                    filter: None,
                },
                members: MemberPaneState { list: ListState::new() },
            },
            popups: PopupState { modal: None },
            messages: MessagePaneState {
                messages: Vec::new(),
                selected_message: 0,
                message_scroll: 0,
                message_line_scroll: 0,
            },
            options: OptionsState { key_bindings: KeyBindings { indexed_shortcuts: shortcuts } },
            next_download_id: 1,
        }
    }

    /// The newer release the update check found, if any.
    pub fn update_available_version(&self) -> (r: Option<&str>)
        ensures
            r is Some <==> self.discord.update_available_version is Some,
            r matches Some(v) ==> v@ == self.discord.update_available_version->0@,
    {
        match &self.discord.update_available_version {
            Some(version) => Some(version.as_str()),
            None => None,
        }
    }

    /// The last gateway error, if any.
    pub fn gateway_error(&self) -> (r: Option<&str>)
        ensures
            r is Some <==> self.runtime.gateway_error is Some,
            r matches Some(v) ==> v@ == self.runtime.gateway_error->0@,
    {
        match &self.runtime.gateway_error {
            Some(error) => Some(error.as_str()),
            None => None,
        }
    }

    /// Asks the runtime to open the composer in an external editor.
    pub fn request_open_composer_in_editor(&mut self)
        ensures
            final(self).runtime.open_composer_in_editor_requested,
            final(self).runtime.paste_clipboard_requested == old(self).runtime.paste_clipboard_requested,
            final(self).runtime.clipboard_paste_pending == old(self).runtime.clipboard_paste_pending,
            final(self).runtime.gateway_error == old(self).runtime.gateway_error,
            final(self).composer == old(self).composer,
            final(self).discord == old(self).discord,
            final(self).navigation == old(self).navigation,
            final(self).popups == old(self).popups,
            final(self).messages == old(self).messages,
            *final(self) == (DashboardState {
                runtime: RuntimeState { open_composer_in_editor_requested: true, ..old(self).runtime },
                ..*old(self)
            }),
    {
        self.runtime.open_composer_in_editor_requested = true;
    }

    /// Whether an editor request is pending; the request is consumed.
    pub fn take_open_composer_in_editor_request(&mut self) -> (r: bool)
        ensures
            r == old(self).runtime.open_composer_in_editor_requested,
            !final(self).runtime.open_composer_in_editor_requested,
            final(self).runtime.paste_clipboard_requested == old(self).runtime.paste_clipboard_requested,
            *final(self) == (DashboardState {
                runtime: RuntimeState { open_composer_in_editor_requested: false, ..old(self).runtime },
                ..*old(self)
            }),
    {
        let requested = self.runtime.open_composer_in_editor_requested;
        self.runtime.open_composer_in_editor_requested = false;
        requested
    }

    /// Asks the runtime to read the clipboard and paste it.
    pub fn request_paste_clipboard(&mut self)
        ensures
            final(self).runtime.paste_clipboard_requested,
            final(self).runtime.open_composer_in_editor_requested == old(self).runtime.open_composer_in_editor_requested,
            final(self).runtime.clipboard_paste_pending == old(self).runtime.clipboard_paste_pending,
            final(self).runtime.gateway_error == old(self).runtime.gateway_error,
            final(self).composer == old(self).composer,
            final(self).discord == old(self).discord,
            final(self).navigation == old(self).navigation,
            final(self).popups == old(self).popups,
            final(self).messages == old(self).messages,
            *final(self) == (DashboardState {
                runtime: RuntimeState { paste_clipboard_requested: true, ..old(self).runtime },
                ..*old(self)
            }),
    {
        self.runtime.paste_clipboard_requested = true;
    }

    /// Whether a paste request is pending; the request is consumed.
    pub fn take_paste_clipboard_request(&mut self) -> (r: bool)
        ensures
            r == old(self).runtime.paste_clipboard_requested,
            !final(self).runtime.paste_clipboard_requested,
            final(self).runtime.open_composer_in_editor_requested == old(self).runtime.open_composer_in_editor_requested,
            *final(self) == (DashboardState {
                runtime: RuntimeState { paste_clipboard_requested: false, ..old(self).runtime },
                ..*old(self)
            }),
    {
        let requested = self.runtime.paste_clipboard_requested;
        self.runtime.paste_clipboard_requested = false;
        requested
    }

    /// Whether some open editor takes clipboard content.
    pub open spec fn accepts_clipboard_paste_spec(&self) -> bool {
        self.composer.composing || self.composer.forum_post_composer_active
            || self.composer.user_profile_popup_editing
            || self.composer.accepts_user_profile_avatar_paste
    }

    /// Whether some open editor takes clipboard content.
    pub fn accepts_clipboard_paste(&self) -> (r: bool)
        ensures
            r == self.accepts_clipboard_paste_spec(),
    {
        self.composer.composing || self.composer.forum_post_composer_active
            || self.composer.user_profile_popup_editing
            || self.composer.accepts_user_profile_avatar_paste
    }

    /// Marks a clipboard paste as running; `false`, changing nothing, where nothing takes
    /// a paste or one is already running.
    pub fn begin_clipboard_paste(&mut self) -> (started: bool)
        ensures
            started == (old(self).accepts_clipboard_paste_spec()
                && !old(self).runtime.clipboard_paste_pending),
            final(self).runtime.clipboard_paste_pending == (old(self).runtime.clipboard_paste_pending || started),
            final(self).composer == old(self).composer,
            *final(self) == (DashboardState {
                runtime: RuntimeState {
                    clipboard_paste_pending: old(self).runtime.clipboard_paste_pending || started,
                    ..old(self).runtime
                },
                ..*old(self)
            }),
    {
        if !self.accepts_clipboard_paste() || self.runtime.clipboard_paste_pending {
            return false;
        }
        self.runtime.clipboard_paste_pending = true;
        true
    }

    /// Marks the running clipboard paste as done.
    pub fn finish_clipboard_paste(&mut self)
        ensures
            !final(self).runtime.clipboard_paste_pending,
            final(self).composer == old(self).composer,
            *final(self) == clipboard_paste_finished(*old(self)),
    {
        self.runtime.clipboard_paste_pending = false;
    }

    /// Whether a clipboard paste is running.
    pub fn clipboard_paste_pending(&self) -> (r: bool)
        ensures
            r == self.runtime.clipboard_paste_pending,
    {
        self.runtime.clipboard_paste_pending
    }

    /// Lines the composer shows for uploads: one per queued file plus one while a
    /// clipboard paste runs.
    pub fn pending_composer_upload_line_count(&self) -> (r: usize)
        requires
            self.composer.pending_composer_attachments@.len() < usize::MAX,
        ensures
            r == upload_line_count(*self),
    {
        self.composer.pending_composer_attachments.len() + if self.runtime.clipboard_paste_pending {
            1
        } else {
            0
        }
    }
}

/// The dashboard once a running clipboard paste is marked done: only the pending
/// flag is cleared.
pub open spec fn clipboard_paste_finished(state: DashboardState) -> DashboardState {
    DashboardState {
        runtime: RuntimeState { clipboard_paste_pending: false, ..state.runtime },
        ..state
    }
}

/// The upload lines the composer shows: one per queued file and one while a
/// clipboard paste runs.
pub open spec fn upload_line_count(state: DashboardState) -> int {
    state.composer.pending_composer_attachments@.len() + if state.runtime.clipboard_paste_pending {
        1int
    } else {
        0int
    }
}

/// Marking a clipboard paste done twice is marking it done once, and it takes away
/// the one upload line the running paste showed (none when no paste ran).
pub proof fn law_finishing_a_clipboard_paste(state: DashboardState)
    ensures
        clipboard_paste_finished(clipboard_paste_finished(state)) == clipboard_paste_finished(state),
        upload_line_count(clipboard_paste_finished(state)) == upload_line_count(state) - if state.runtime.clipboard_paste_pending {
            1int
        } else {
            0int
        },
{
}

} // verus!
