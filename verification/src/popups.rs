use vstd::prelude::*;

use crate::selection::{max_scroll_for, ScrollState, SelectionState};
use crate::state::{DashboardState, ReactionEmoji};

verus! {

/// How large the attachment viewer draws the selected attachment.
#[derive(Clone, Copy, Debug, PartialEq, Eq, Structural)]
pub enum AttachmentViewerZoom {
    Default,
    Large,
    Fullscreen,
}

impl Default for AttachmentViewerZoom {
    fn default() -> (r: Self)
        ensures
            r == AttachmentViewerZoom::Default,
    {
        AttachmentViewerZoom::Default
    }
}

/// One step larger, stopping at fullscreen.
pub open spec fn zoomed_in(zoom: AttachmentViewerZoom) -> AttachmentViewerZoom {
    match zoom {
        AttachmentViewerZoom::Default => AttachmentViewerZoom::Large,
        _ => AttachmentViewerZoom::Fullscreen,
    }
}

/// One step smaller, stopping at the default size.
pub open spec fn zoomed_out(zoom: AttachmentViewerZoom) -> AttachmentViewerZoom {
    match zoom {
        AttachmentViewerZoom::Fullscreen => AttachmentViewerZoom::Large,
        _ => AttachmentViewerZoom::Default,
    }
}

/// Fullscreen back to the default size; any other size to fullscreen.
pub open spec fn fullscreen_toggled(zoom: AttachmentViewerZoom) -> AttachmentViewerZoom {
    match zoom {
        AttachmentViewerZoom::Fullscreen => AttachmentViewerZoom::Default,
        _ => AttachmentViewerZoom::Fullscreen,
    }
}

impl AttachmentViewerZoom {
    /// One step larger, stopping at fullscreen.
    pub fn zoom_in(self) -> (r: Self)
        ensures
            r == zoomed_in(self),
    {
        match self {
            AttachmentViewerZoom::Default => AttachmentViewerZoom::Large,
            AttachmentViewerZoom::Large => AttachmentViewerZoom::Fullscreen,
            AttachmentViewerZoom::Fullscreen => AttachmentViewerZoom::Fullscreen,
        }
    }

    /// One step smaller, stopping at the default size.
    pub fn zoom_out(self) -> (r: Self)
        ensures
            r == zoomed_out(self),
    {
        match self {
            AttachmentViewerZoom::Default => AttachmentViewerZoom::Default,
            AttachmentViewerZoom::Large => AttachmentViewerZoom::Default,
            AttachmentViewerZoom::Fullscreen => AttachmentViewerZoom::Large,
        }
    }

    /// Fullscreen back to the default size; any other size to fullscreen.
    pub fn toggle_fullscreen(self) -> (r: Self)
        ensures
            r == fullscreen_toggled(self),
    {
        match self {
            AttachmentViewerZoom::Fullscreen => AttachmentViewerZoom::Default,
            _ => AttachmentViewerZoom::Fullscreen,
        }
    }
}

/// Zoom steps go default, large, fullscreen and back, and stop at both ends: zooming
/// out undoes zooming in below fullscreen, and zooming in undoes zooming out above the
/// default size.
pub proof fn law_zoom_steps_invert(zoom: AttachmentViewerZoom)
    ensures
        zoomed_in(AttachmentViewerZoom::Fullscreen) == AttachmentViewerZoom::Fullscreen,
        zoomed_out(AttachmentViewerZoom::Default) == AttachmentViewerZoom::Default,
        zoom != AttachmentViewerZoom::Fullscreen ==> zoomed_out(zoomed_in(zoom)) == zoom,
        zoom != AttachmentViewerZoom::Default ==> zoomed_in(zoomed_out(zoom)) == zoom,
{
}

/// Toggling fullscreen always lands on fullscreen or the default size, and toggling
/// twice comes back to where it started from either of those.
pub proof fn law_fullscreen_toggle_round_trips(zoom: AttachmentViewerZoom)
    ensures
        fullscreen_toggled(zoom) == AttachmentViewerZoom::Fullscreen || fullscreen_toggled(zoom)
            == AttachmentViewerZoom::Default,
        zoom != AttachmentViewerZoom::Large ==> fullscreen_toggled(fullscreen_toggled(zoom))
            == zoom,
        fullscreen_toggled(fullscreen_toggled(zoom)) != AttachmentViewerZoom::Large,
{
}

/// The keymap help popup.
#[derive(Debug)]
pub struct KeymapPopupState {
    pub scroll: ScrollState,
}

/// The attachment viewer over one message's attachments.
#[derive(Debug)]
pub struct AttachmentViewerState {
    pub message_id: u64,
    pub selection: SelectionState,
    pub zoom: AttachmentViewerZoom,
}

/// One answer in the poll vote picker.
#[derive(Debug)]
pub struct PollVotePickerItem {
    pub answer_id: u64,
    pub label: String,
    pub selected: bool,
}

/// The poll vote picker over one message's poll.
#[derive(Debug)]
pub struct PollVotePickerState {
    pub selection: SelectionState,
    pub allow_multiselect: bool,
    pub channel_id: u64,
    pub message_id: u64,
    pub answers: Vec<PollVotePickerItem>,
}

impl PollVotePickerState {
    /// The answers in display order.
    pub fn answers(&self) -> (r: &[PollVotePickerItem])
        ensures
            r@ == self.answers@,
    {
        self.answers.as_slice()
    }
}

/// An emoji offered by the reaction picker.
#[derive(Debug)]
pub struct EmojiReactionItem {
    pub emoji: ReactionEmoji,
    pub label: String,
}

/// The emoji reaction picker for one message.
#[derive(Debug)]
pub struct EmojiReactionPickerState {
    pub selection: SelectionState,
    pub filter: Option<String>,
    pub filter_editing: bool,
    pub filtered_items: Vec<EmojiReactionItem>,
    pub items: Vec<EmojiReactionItem>,
    pub existing_reactions: Vec<ReactionEmoji>,
    pub own_reactions: Vec<ReactionEmoji>,
    pub guild_id: Option<u64>,
    pub channel_id: u64,
    pub message_id: u64,
}

/// The list of users who reacted to a message.
#[derive(Debug)]
pub struct ReactionUsersPopupState {
    pub scroll: ScrollState,
    pub lines: Vec<String>,
}

impl ReactionUsersPopupState {
    /// Lines of content the popup draws.
    pub fn data_line_count(&self) -> (r: usize)
        ensures
            r == self.lines@.len(),
    {
        self.lines.len()
    }
}

/// The modal popup drawn over the dashboard.
#[derive(Debug)]
pub enum ModalPopup {
    DebugLog,
    Keymap(KeymapPopupState),
    AttachmentViewer(AttachmentViewerState),
    PollVotePicker(PollVotePickerState),
    EmojiReactionPicker(EmojiReactionPickerState),
    ReactionUsers(ReactionUsersPopupState),
}

/// Kinds of modal popup.
#[derive(Clone, Copy, Debug, PartialEq, Eq, Structural)]
pub enum ActiveModalPopupKind {
    DebugLog,
    KeymapHelp,
    AttachmentViewer,
    PollVotePicker,
    EmojiReactionPicker,
    ReactionUsers,
}

/// The kind of `popup`.
pub open spec fn popup_kind(popup: ModalPopup) -> ActiveModalPopupKind {
    match popup {
        ModalPopup::DebugLog => ActiveModalPopupKind::DebugLog,
        ModalPopup::Keymap(_) => ActiveModalPopupKind::KeymapHelp,
        ModalPopup::AttachmentViewer(_) => ActiveModalPopupKind::AttachmentViewer,
        ModalPopup::PollVotePicker(_) => ActiveModalPopupKind::PollVotePicker,
        ModalPopup::EmojiReactionPicker(_) => ActiveModalPopupKind::EmojiReactionPicker,
        ModalPopup::ReactionUsers(_) => ActiveModalPopupKind::ReactionUsers,
    }
}

/// Whether the open modal popup is of kind `kind`.
pub open spec fn modal_is(state: &DashboardState, kind: ActiveModalPopupKind) -> bool {
    state.popups.modal matches Some(p) && popup_kind(p) == kind
}

/// Everything but the modal popup is left as it was.
pub open spec fn same_except_popups(a: &DashboardState, b: &DashboardState) -> bool {
    &&& a.discord == b.discord
    &&& a.runtime == b.runtime
    &&& a.composer == b.composer
    &&& a.navigation == b.navigation
    &&& a.messages == b.messages
    &&& a.options == b.options
    &&& a.next_download_id == b.next_download_id
}

/// Closing a popup of `kind`: it goes if it is the open one, and any other stays.
pub open spec fn closed_if_kind(
    before: &DashboardState,
    after: &DashboardState,
    kind: ActiveModalPopupKind,
) -> bool {
    &&& modal_is(before, kind) ==> after.popups.modal is None
    &&& !modal_is(before, kind) ==> after.popups.modal == before.popups.modal
    &&& same_except_popups(before, after)
}

/// Direction of a step through a list or view.
#[derive(Clone, Copy, Debug, PartialEq, Eq, Structural)]
pub enum SelectionAction {
    Next,
    Previous,
}

impl DashboardState {
    /// Whether the open modal popup is of kind `kind`.
    pub fn is_active_modal_popup(&self, kind: ActiveModalPopupKind) -> (r: bool)
        ensures
            r == modal_is(self, kind),
    {
        let open = match &self.popups.modal {
            Some(ModalPopup::DebugLog) => ActiveModalPopupKind::DebugLog,
            Some(ModalPopup::Keymap(_)) => ActiveModalPopupKind::KeymapHelp,
            Some(ModalPopup::AttachmentViewer(_)) => ActiveModalPopupKind::AttachmentViewer,
            Some(ModalPopup::PollVotePicker(_)) => ActiveModalPopupKind::PollVotePicker,
            Some(ModalPopup::EmojiReactionPicker(_)) => ActiveModalPopupKind::EmojiReactionPicker,
            Some(ModalPopup::ReactionUsers(_)) => ActiveModalPopupKind::ReactionUsers,
            None => {
                return false;
            },
        };
        open == kind
    }

    /// Closes the popup of `kind` if it is the open one.
    pub fn close_modal_of_kind(&mut self, kind: ActiveModalPopupKind)
        ensures
            closed_if_kind(&*old(self), &*final(self), kind),
    {
        if self.is_active_modal_popup(kind) {
            self.popups.modal = None;
        }
    }

    /// Opens the debug log popup, or closes it if it is open.
    pub fn toggle_debug_log_popup(&mut self)
        ensures
            modal_is(&*old(self), ActiveModalPopupKind::DebugLog) ==> final(self).popups.modal is None,
            !modal_is(&*old(self), ActiveModalPopupKind::DebugLog) ==> final(self).popups.modal
                == Some(ModalPopup::DebugLog),
            same_except_popups(&*old(self), &*final(self)),
    {
        if self.is_active_modal_popup(ActiveModalPopupKind::DebugLog) {
            self.popups.modal = None;
        } else {
            self.popups.modal = Some(ModalPopup::DebugLog);
        }
    }

    /// Closes the debug log popup if it is open.
    pub fn close_debug_log_popup(&mut self)
        ensures
            closed_if_kind(&*old(self), &*final(self), ActiveModalPopupKind::DebugLog),
    {
        self.close_modal_of_kind(ActiveModalPopupKind::DebugLog);
    }

    /// Opens the keymap help popup scrolled to the top.
    pub fn open_keymap_help_popup(&mut self)
        ensures
            final(self).popups.modal matches Some(ModalPopup::Keymap(k)) && k.scroll.scroll == 0
                && k.scroll.view_height == 0 && k.scroll.total_lines == 0,
            same_except_popups(&*old(self), &*final(self)),
    {
        self.popups.modal = Some(ModalPopup::Keymap(KeymapPopupState { scroll: ScrollState::new() }));
    }

    /// Closes the keymap help popup if it is open.
    pub fn close_keymap_popup(&mut self)
        ensures
            closed_if_kind(&*old(self), &*final(self), ActiveModalPopupKind::KeymapHelp),
    {
        self.close_modal_of_kind(ActiveModalPopupKind::KeymapHelp);
    }

    /// Scroll offset of the keymap help popup; 0 when it is not open.
    pub fn keymap_popup_scroll(&self) -> (r: usize)
        ensures
            match self.popups.modal {
                Some(ModalPopup::Keymap(k)) => r == if k.scroll.scroll <= max_scroll_for(
                    k.scroll.total_lines as int,
                    k.scroll.view_height as int,
                ) {
                    k.scroll.scroll as int
                } else {
                    max_scroll_for(k.scroll.total_lines as int, k.scroll.view_height as int)
                },
                _ => r == 0,
            },
    {
        match &self.popups.modal {
            Some(ModalPopup::Keymap(popup)) => popup.scroll.scroll(),
            _ => 0,
        }
    }

    /// Scrolls the keymap help popup one line in the direction of `action`.
    pub fn scroll_keymap_popup(&mut self, action: SelectionAction)
        ensures
            match old(self).popups.modal {
                Some(ModalPopup::Keymap(k)) => final(self).popups.modal matches Some(
                    ModalPopup::Keymap(k2),
                ) && k2.scroll.view_height == k.scroll.view_height && k2.scroll.total_lines
                    == k.scroll.total_lines && k2.scroll.scroll == match action {
                    SelectionAction::Next => if k.scroll.scroll < max_scroll_for(
                        k.scroll.total_lines as int,
                        k.scroll.view_height as int,
                    ) {
                        k.scroll.scroll + 1
                    } else {
                        max_scroll_for(k.scroll.total_lines as int, k.scroll.view_height as int)
                    },
                    SelectionAction::Previous => if k.scroll.scroll == 0 {
                        0
                    } else {
                        k.scroll.scroll - 1
                    },
                },
                _ => final(self).popups.modal == old(self).popups.modal,
            },
            same_except_popups(&*old(self), &*final(self)),
    {
        if let Some(ModalPopup::Keymap(popup)) = &mut self.popups.modal {
            match action {
                SelectionAction::Next => popup.scroll.scroll_down(),
                SelectionAction::Previous => popup.scroll.scroll_up(),
            }
        }
    }

    /// Tells the keymap help popup how many lines it shows.
    pub fn set_keymap_popup_view_height(&mut self, height: usize)
        ensures
            match old(self).popups.modal {
                Some(ModalPopup::Keymap(k)) => final(self).popups.modal matches Some(
                    ModalPopup::Keymap(k2),
                ) && k2.scroll.view_height == height && k2.scroll.total_lines
                    == k.scroll.total_lines && k2.scroll.scroll <= k.scroll.scroll,
                _ => final(self).popups.modal == old(self).popups.modal,
            },
            same_except_popups(&*old(self), &*final(self)),
    {
        if let Some(ModalPopup::Keymap(popup)) = &mut self.popups.modal {
            popup.scroll.set_view_height(height);
        }
    }

    /// Tells the keymap help popup how many lines it has.
    pub fn set_keymap_popup_total_lines(&mut self, total_lines: usize)
        ensures
            match old(self).popups.modal {
                Some(ModalPopup::Keymap(k)) => final(self).popups.modal matches Some(
                    ModalPopup::Keymap(k2),
                ) && k2.scroll.total_lines == total_lines && k2.scroll.view_height
                    == k.scroll.view_height && k2.scroll.scroll <= k.scroll.scroll,
                _ => final(self).popups.modal == old(self).popups.modal,
            },
            same_except_popups(&*old(self), &*final(self)),
    {
        if let Some(ModalPopup::Keymap(popup)) = &mut self.popups.modal {
            popup.scroll.set_total_lines(total_lines);
        }
    }
}

} // verus!
