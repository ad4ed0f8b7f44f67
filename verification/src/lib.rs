//! Verified state and text-handling logic of a terminal chat client: text
//! inputs, list selection and scrolling, pane filters, popups, message row
//! metrics, paste parsing and media cache bookkeeping.
use vstd::prelude::*;

pub mod unicode;
pub mod text_util;
pub mod text_input;
pub mod selection;
pub mod state;
pub mod pane_filter;
pub mod popups;
pub mod attachment_viewer;
pub mod polls;
pub mod reactions;
pub mod subscriptions;
pub mod member_grouping;
pub mod clipboard;
pub mod media;
pub mod keybindings;
pub mod paste;
pub mod media_cache;
pub mod media_images;
pub mod message_layout;
pub mod highlights;
pub mod channel_tree;
pub mod scheduler;
pub mod message_text;
pub mod composer_keys;
pub mod local_upload_preview;
pub mod activity;

verus! {

} // verus!
