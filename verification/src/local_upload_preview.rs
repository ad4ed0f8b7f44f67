use vstd::prelude::*;

use crate::keybindings::ascii_lower_seq;
use crate::polls::{ascii_lowercase, to_ascii_lowercase};
use crate::state::AttachmentUpload;
use crate::text_util::next_index_of;
use crate::unicode::str_chars;

verus! {

/// The extension of `filename`: what follows its last `.`, when it has one.
pub open spec fn file_extension(filename: Seq<char>) -> Option<Seq<char>> {
    let r = filename.reverse();
    let k = next_index_of(r, '.', 0);
    if k >= r.len() {
        None
    } else {
        Some(filename.skip(filename.len() - k))
    }
}

/// Whether an attachment named `filename` gets a local image preview: its extension,
/// in any ASCII case, is that of a common image format.
pub open spec fn is_preview_candidate(filename: Seq<char>) -> bool {
    match file_extension(filename) {
        None => false,
        Some(ext) => {
            let e = ascii_lower_seq(ext);
            e == "png"@ || e == "jpg"@ || e == "jpeg"@ || e == "gif"@ || e == "webp"@ || e == "bmp"@
                || e == "tif"@ || e == "tiff"@
        },
    }
}

/// Whether a queued upload gets a local image preview, by its file name.
pub fn local_upload_preview_candidate(attachment: &AttachmentUpload) -> (r: bool)
    ensures
        r == is_preview_candidate(attachment.filename@),
{
    let chars = str_chars(attachment.filename.as_str());
    let n = chars.len();
    let mut k: usize = 0;
    let ghost rev = chars@.reverse();
    while k < n && chars[n - 1 - k] != '.'
        invariant
            n == chars@.len(),
            rev == chars@.reverse(),
            k <= n,
            next_index_of(rev, '.', k as int) == next_index_of(rev, '.', 0),
        decreases n - k,
    {
        proof {
            assert(rev[k as int] == chars@[n - 1 - k]);
        }
        k = k + 1;
    }
    proof {
        if k < n {
            assert(rev[k as int] == chars@[n - 1 - k]);
        }
    }
    if k >= n {
        return false;
    }
    let mut ext: Vec<char> = Vec::new();
    let mut i: usize = n - k;
    while i < n
        invariant
            n == chars@.len(),
            k < n,
            n - k <= i <= n,
            ext@ == ascii_lower_seq(chars@.subrange(n - k, i as int)),
        decreases n - i,
    {
        ext.push(to_ascii_lowercase(chars[i]));
        i = i + 1;
        proof {
            assert(ascii_lower_seq(chars@.subrange(n - k, i as int)) =~= ascii_lower_seq(
                chars@.subrange(n - k, i - 1),
            ).push(ascii_lowercase(chars@[i - 1])));
        }
    }
    proof {
        assert(chars@.subrange(n - k, n as int) =~= chars@.skip(n - k));
    }
    crate::text_util::chars_eq(&ext, &str_chars("png")) || crate::text_util::chars_eq(
        &ext,
        &str_chars("jpg"),
    ) || crate::text_util::chars_eq(&ext, &str_chars("jpeg")) || crate::text_util::chars_eq(
        &ext,
        &str_chars("gif"),
    ) || crate::text_util::chars_eq(&ext, &str_chars("webp")) || crate::text_util::chars_eq(
        &ext,
        &str_chars("bmp"),
    ) || crate::text_util::chars_eq(&ext, &str_chars("tif")) || crate::text_util::chars_eq(
        &ext,
        &str_chars("tiff"),
    )
}

/// How far the local preview of a queued image upload has come. A ready preview's
/// terminal protocol is kept by whoever draws it.
#[derive(Debug, Clone, PartialEq, Eq)]
pub enum LocalUploadPreviewStatus {
    Pending,
    Loading,
    Ready,
    Failed(String),
}

/// The local preview of the queued upload at `attachment_index`, from load
/// `generation`.
#[derive(Debug)]
pub struct LocalUploadPreviewState {
    pub attachment_index: usize,
    pub generation: u64,
    pub filename: String,
    pub state: LocalUploadPreviewStatus,
}

/// What the composer shows for a local upload preview.
#[derive(Debug, Clone, PartialEq, Eq)]
pub enum LocalUploadPreviewView {
    Loading { filename: String },
    Ready,
    Failed { filename: String, message: String },
}

/// The view of `preview`: loading while it waits or loads, the image once ready, the
/// file name and message when it failed.
pub fn local_upload_preview_view(preview: &LocalUploadPreviewState) -> (r: LocalUploadPreviewView)
    ensures
        r == match preview.state {
            LocalUploadPreviewStatus::Pending | LocalUploadPreviewStatus::Loading => {
                LocalUploadPreviewView::Loading { filename: preview.filename }
            },
            LocalUploadPreviewStatus::Ready => LocalUploadPreviewView::Ready,
            LocalUploadPreviewStatus::Failed(message) => LocalUploadPreviewView::Failed {
                filename: preview.filename,
                message,
            },
        },
{
    match &preview.state {
        LocalUploadPreviewStatus::Pending | LocalUploadPreviewStatus::Loading => {
            LocalUploadPreviewView::Loading { filename: preview.filename.clone() }
        },
        LocalUploadPreviewStatus::Ready => LocalUploadPreviewView::Ready,
        LocalUploadPreviewStatus::Failed(message) => LocalUploadPreviewView::Failed {
            filename: preview.filename.clone(),
            message: message.clone(),
        },
    }
}

} // verus!
