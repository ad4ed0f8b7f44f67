use vstd::prelude::*;

use crate::popups::{
    closed_if_kind, fullscreen_toggled, modal_is, same_except_popups, zoomed_in, zoomed_out,
    ActiveModalPopupKind, AttachmentViewerState, AttachmentViewerZoom, ModalPopup,
};
use crate::selection::{clamp_selected, SelectionState};
use crate::state::{
    AppCommand, AttachmentInfo, DashboardState, DownloadAttachmentSource, MediaPlaybackSource,
    MediaPlaybackTarget, MessageState,
};

verus! {

/// What the attachment viewer shows about the selected attachment.
#[derive(Debug)]
pub struct AttachmentViewerItem {
    /// Position of the attachment, counting from 1.
    pub index: usize,
    pub total: usize,
    pub filename: String,
    pub url: Option<String>,
    pub size_bytes: u64,
    pub is_image: bool,
    pub is_video: bool,
}

/// `i` is the first index of `msgs` holding the message with id `id`.
pub open spec fn is_first_with_id(msgs: Seq<MessageState>, id: u64, i: int) -> bool {
    &&& 0 <= i < msgs.len()
    &&& msgs[i].id == id
    &&& forall|j: int| 0 <= j < i ==> #[trigger] msgs[j].id != id
}

/// The first index of `msgs` holding the message with id `id`, if any.
pub open spec fn first_index_with_id(msgs: Seq<MessageState>, id: u64) -> Option<int> {
    if exists|i: int| is_first_with_id(msgs, id, i) {
        Some(choose|i: int| is_first_with_id(msgs, id, i))
    } else {
        None
    }
}

/// The message the attachment viewer is open on and the attachment it selects, as
/// indexes: none when the viewer is closed, its message is not loaded or it has no
/// attachments.
pub open spec fn viewer_selection(state: &DashboardState) -> Option<(int, int)> {
    match state.popups.modal {
        Some(ModalPopup::AttachmentViewer(v)) => match first_index_with_id(
            state.messages.messages@,
            v.message_id,
        ) {
            Some(i) => {
                let len = state.messages.messages@[i].attachments@.len();
                if len == 0 {
                    None
                } else {
                    Some((i, clamp_selected(v.selection.selected as int, len as int)))
                }
            },
            None => None,
        },
        _ => None,
    }
}

/// The attachment at `(message, attachment)` indexes.
pub open spec fn attachment_at(state: &DashboardState, at: (int, int)) -> AttachmentInfo {
    state.messages.messages@[at.0].attachments@[at.1]
}

/// Number of attachments of the message the viewer is open on (0 when not loaded).
pub open spec fn viewer_attachment_count(state: &DashboardState, message_id: u64) -> int {
    match first_index_with_id(state.messages.messages@, message_id) {
        Some(i) => state.messages.messages@[i].attachments@.len() as int,
        None => 0,
    }
}

/// The viewer's selection after applying `f` to it, everything else as it was.
pub open spec fn viewer_updated(
    before: &DashboardState,
    after: &DashboardState,
    f: spec_fn(AttachmentViewerState) -> AttachmentViewerState,
) -> bool {
    &&& match before.popups.modal {
        Some(ModalPopup::AttachmentViewer(v)) => after.popups.modal == Some(
            ModalPopup::AttachmentViewer(f(v)),
        ),
        _ => after.popups.modal == before.popups.modal,
    }
    &&& same_except_popups(before, after)
}

impl DashboardState {
    fn find_message_index(&self, message_id: u64) -> (r: Option<usize>)
        ensures
            match r {
                Some(i) => is_first_with_id(self.messages.messages@, message_id, i as int)
                    && first_index_with_id(self.messages.messages@, message_id) == Some(i as int),
                None => first_index_with_id(self.messages.messages@, message_id) is None,
            },
    {
        let ghost msgs = self.messages.messages@;
        let mut i: usize = 0;
        while i < self.messages.messages.len()
            invariant
                msgs == self.messages.messages@,
                i <= msgs.len(),
                forall|j: int| 0 <= j < i ==> #[trigger] msgs[j].id != message_id,
            decreases msgs.len() - i,
        {
            if self.messages.messages[i].id == message_id {
                proof {
                    assert(is_first_with_id(msgs, message_id, i as int));
                    let c = choose|c: int| is_first_with_id(msgs, message_id, c);
                    assert(c == i) by {
                        if c < i {
                            assert(msgs[c].id != message_id);
                        } else if c > i {
                            assert(msgs[i as int].id != message_id);
                        }
                    }
                }
                return Some(i);
            }
            i = i + 1;
        }
        None
    }

    /// Opens the attachment viewer on the selected message at its first attachment;
    /// `false`, changing nothing, when no message is selected or it has no attachments.
    pub fn open_attachment_viewer_for_selected_message(&mut self) -> (opened: bool)
        ensures
            opened == (old(self).messages.selected_message < old(self).messages.messages@.len()
                && old(self).messages.messages@[old(self).messages.selected_message as int].attachments@.len()
                > 0),
            opened ==> final(self).popups.modal == Some(
                ModalPopup::AttachmentViewer(
                    AttachmentViewerState {
                        message_id: old(self).messages.messages@[old(self).messages.selected_message as int].id,
                        selection: SelectionState { selected: 0 },
                        zoom: AttachmentViewerZoom::Default,
                    },
                ),
            ),
            !opened ==> final(self).popups.modal == old(self).popups.modal,
            same_except_popups(&*old(self), &*final(self)),
    {
        let index = self.messages.selected_message;
        if index >= self.messages.messages.len() {
            return false;
        }
        let message = &self.messages.messages[index];
        if message.attachments.len() == 0 {
            return false;
        }
        let message_id = message.id;
        self.popups.modal = Some(
            ModalPopup::AttachmentViewer(
                AttachmentViewerState {
                    message_id,
                    selection: SelectionState::new(),
                    zoom: AttachmentViewerZoom::Default,
                },
            ),
        );
        true
    }

    /// Closes the attachment viewer if it is open.
    pub fn close_attachment_viewer(&mut self)
        ensures
            closed_if_kind(&*old(self), &*final(self), ActiveModalPopupKind::AttachmentViewer),
    {
        self.close_modal_of_kind(ActiveModalPopupKind::AttachmentViewer);
    }

    /// The viewer's zoom; the default size when it is closed.
    pub fn attachment_viewer_zoom(&self) -> (r: AttachmentViewerZoom)
        ensures
            r == match self.popups.modal {
                Some(ModalPopup::AttachmentViewer(v)) => v.zoom,
                _ => AttachmentViewerZoom::Default,
            },
    {
        match &self.popups.modal {
            Some(ModalPopup::AttachmentViewer(viewer)) => viewer.zoom,
            _ => AttachmentViewerZoom::Default,
        }
    }

    /// Toggles the viewer between fullscreen and the default size.
    pub fn toggle_attachment_viewer_fullscreen(&mut self)
        ensures
            viewer_updated(
                &*old(self),
                &*final(self),
                |v: AttachmentViewerState|
                    AttachmentViewerState { zoom: fullscreen_toggled(v.zoom), ..v },
            ),
    {
        if let Some(ModalPopup::AttachmentViewer(viewer)) = &mut self.popups.modal {
            viewer.zoom = viewer.zoom.toggle_fullscreen();
        }
    }

    /// Zooms the viewer one step in.
    pub fn zoom_attachment_viewer_in(&mut self)
        ensures
            viewer_updated(
                &*old(self),
                &*final(self),
                |v: AttachmentViewerState| AttachmentViewerState { zoom: zoomed_in(v.zoom), ..v },
            ),
    {
        if let Some(ModalPopup::AttachmentViewer(viewer)) = &mut self.popups.modal {
            viewer.zoom = viewer.zoom.zoom_in();
        }
    }

    /// Zooms the viewer one step out.
    pub fn zoom_attachment_viewer_out(&mut self)
        ensures
            viewer_updated(
                &*old(self),
                &*final(self),
                |v: AttachmentViewerState| AttachmentViewerState { zoom: zoomed_out(v.zoom), ..v },
            ),
    {
        if let Some(ModalPopup::AttachmentViewer(viewer)) = &mut self.popups.modal {
            viewer.zoom = viewer.zoom.zoom_out();
        }
    }

    /// Selects the previous attachment, stopping at the first.
    pub fn move_attachment_viewer_previous(&mut self)
        ensures
            viewer_updated(
                &*old(self),
                &*final(self),
                |v: AttachmentViewerState|
                    AttachmentViewerState {
                        selection: SelectionState {
                            selected: if v.selection.selected == 0 {
                                0
                            } else {
                                (v.selection.selected - 1) as usize
                            },
                        },
                        ..v
                    },
            ),
    {
        if let Some(ModalPopup::AttachmentViewer(viewer)) = &mut self.popups.modal {
            viewer.selection.move_up();
        }
    }

    /// Selects the next attachment, stopping at the last; closes the viewer when its
    /// message is gone or has no attachments.
    pub fn move_attachment_viewer_next(&mut self)
        ensures
            match old(self).popups.modal {
                Some(ModalPopup::AttachmentViewer(v)) => {
                    let count = viewer_attachment_count(&*old(self), v.message_id);
                    let step = if v.selection.selected + 1 < count - 1 {
                        v.selection.selected + 1
                    } else {
                        count - 1
                    };
                    &&& count == 0 ==> final(self).popups.modal is None
                    &&& count > 0 ==> final(self).popups.modal == Some(
                        ModalPopup::AttachmentViewer(
                            AttachmentViewerState {
                                selection: SelectionState { selected: step as usize },
                                ..v
                            },
                        ),
                    )
                },
                _ => final(self).popups.modal == old(self).popups.modal,
            },
            same_except_popups(&*old(self), &*final(self)),
    {
        let (message_id, selected) = match &self.popups.modal {
            Some(ModalPopup::AttachmentViewer(viewer)) => (viewer.message_id, viewer.selection.selected()),
            _ => {
                return ;
            },
        };
        let count = match self.find_message_index(message_id) {
            Some(i) => self.messages.messages[i].attachments.len(),
            None => 0,
        };
        if count == 0 {
            self.close_attachment_viewer();
            return ;
        }
        let next = selected.saturating_add(1);
        let last = count - 1;
        let target = if next < last {
            next
        } else {
            last
        };
        if let Some(ModalPopup::AttachmentViewer(viewer)) = &mut self.popups.modal {
            viewer.selection.select(target);
        }
    }

    fn selected_attachment_viewer_position(&self) -> (r: Option<(usize, usize)>)
        ensures
            match viewer_selection(self) {
                Some(at) => r matches Some(p) && p.0 == at.0 && p.1 == at.1 && 0 <= at.0
                    < self.messages.messages@.len() && 0 <= at.1
                    < self.messages.messages@[at.0].attachments@.len(),
                None => r is None,
            },
    {
        let viewer = match &self.popups.modal {
            Some(ModalPopup::AttachmentViewer(viewer)) => viewer,
            _ => {
                return None;
            },
        };
        let message_index = match self.find_message_index(viewer.message_id) {
            Some(i) => i,
            None => {
                return None;
            },
        };
        let len = self.messages.messages[message_index].attachments.len();
        if len == 0 {
            return None;
        }
        let index = viewer.selection.selected_for_len(len);
        Some((message_index, index))
    }

    /// What the viewer shows about its selected attachment, if one is selected.
    pub fn selected_attachment_viewer_item(&self) -> (r: Option<AttachmentViewerItem>)
        ensures
            match viewer_selection(self) {
                Some(at) => r matches Some(item) && {
                    let att = attachment_at(self, at);
                    &&& item.index == at.1 + 1
                    &&& item.total == self.messages.messages@[at.0].attachments@.len()
                    &&& item.filename == att.filename
                    &&& item.url == att.preferred_url
                    &&& item.size_bytes == att.size
                    &&& item.is_image == att.is_image
                    &&& item.is_video == att.is_video
                },
                None => r is None,
            },
    {
        let (message_index, index) = match self.selected_attachment_viewer_position() {
            Some(p) => p,
            None => {
                return None;
            },
        };
        let attachments = &self.messages.messages[message_index].attachments;
        let attachment = &attachments[index];
        let url = match &attachment.preferred_url {
            Some(url) => Some(url.clone()),
            None => None,
        };
        Some(
            AttachmentViewerItem {
                index: index.saturating_add(1),
                total: attachments.len(),
                filename: attachment.filename.clone(),
                url,
                size_bytes: attachment.size,
                is_image: attachment.is_image,
                is_video: attachment.is_video,
            },
        )
    }

    /// Hands out the next attachment download id.
    pub fn next_attachment_download_id(&mut self) -> (id: u64)
        ensures
            id == old(self).next_download_id,
            final(self).next_download_id == (if old(self).next_download_id == u64::MAX {
                0
            } else {
                old(self).next_download_id + 1
            }),
            final(self).popups == old(self).popups,
            final(self).messages == old(self).messages,
            *final(self) == (DashboardState { next_download_id: final(self).next_download_id, ..*old(self) }),
    {
        let id = self.next_download_id;
        self.next_download_id = if id == u64::MAX {
            0
        } else {
            id + 1
        };
        id
    }

    /// A download of the selected attachment, where it has a URL; takes a download id.
    pub fn download_selected_attachment_viewer_attachment(&mut self) -> (r: Option<AppCommand>)
        ensures
            match viewer_selection(&*old(self)) {
                Some(at) => match attachment_at(&*old(self), at).preferred_url {
                    Some(url) => r matches Some(AppCommand::DownloadAttachment { id, url: u, filename, source })
                        && id == old(self).next_download_id && u == url && filename
                        == attachment_at(&*old(self), at).filename && source
                        == DownloadAttachmentSource::AttachmentViewer
                        && final(self).next_download_id != old(self).next_download_id,
                    None => r is None && final(self).next_download_id == old(
                        self,
                    ).next_download_id,
                },
                None => r is None && final(self).next_download_id == old(self).next_download_id,
            },
            final(self).popups == old(self).popups,
            final(self).messages == old(self).messages,
            r is None ==> *final(self) == *old(self),
            r is Some ==> *final(self) == (DashboardState {
                next_download_id: if old(self).next_download_id == u64::MAX {
                    0
                } else {
                    (old(self).next_download_id + 1) as u64
                },
                ..*old(self)
            }),
    {
        let item = match self.selected_attachment_viewer_item() {
            Some(item) => item,
            None => {
                return None;
            },
        };
        let url = match item.url {
            Some(url) => url,
            None => {
                return None;
            },
        };
        let id = self.next_attachment_download_id();
        Some(
            AppCommand::DownloadAttachment {
                id,
                url,
                filename: item.filename,
                source: DownloadAttachmentSource::AttachmentViewer,
            },
        )
    }

    /// Playback of the selected attachment, where it is a video with a URL.
    pub fn play_selected_attachment_viewer_attachment(&mut self) -> (r: Option<AppCommand>)
        ensures
            match viewer_selection(&*old(self)) {
                Some(at) => {
                    let att = attachment_at(&*old(self), at);
                    if att.is_video && att.preferred_url is Some {
                        r matches Some(AppCommand::PlayMedia { target, request_id })
                            && target.url == att.preferred_url->0 && target.label == att.filename
                            && target.source == MediaPlaybackSource::AttachmentViewer
                            && request_id is None
                    } else {
                        r is None
                    }
                },
                None => r is None,
            },
            *final(self) == *old(self),
    {
        let item = match self.selected_attachment_viewer_item() {
            Some(item) => item,
            None => {
                return None;
            },
        };
        if !item.is_video {
            return None;
        }
        let url = match item.url {
            Some(url) => url,
            None => {
                return None;
            },
        };
        Some(
            AppCommand::PlayMedia {
                target: MediaPlaybackTarget {
                    url,
                    label: item.filename,
                    source: MediaPlaybackSource::AttachmentViewer,
                },
                request_id: None,
            },
        )
    }
}

} // verus!
