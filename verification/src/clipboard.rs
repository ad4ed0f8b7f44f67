use image::ImageEncoder;
use vstd::prelude::*;

use crate::state::AttachmentUpload;
use crate::paste::string_views;
use crate::text_util::{
    decimal, join_with, lemma_join_push, meaningful_lines_from, newline_piece_bounds, newline_pieces, push_decimal, push_str, slice_chars,
    trim_range, trimmed, trimmed_nonempty_lines,
};
use crate::unicode::{str_chars, string_from_chars};

verus! {

/// Name given to an image pasted from the clipboard.
pub const CLIPBOARD_IMAGE_FILENAME: &'static str = "clipboard-image.png";

/// A way of writing text to the system clipboard.
#[derive(Clone, Copy, Debug, PartialEq, Eq, Structural)]
pub enum CopyTextBackend {
    /// The platform clipboard.
    Native,
    /// The OSC 52 terminal escape sequence.
    Osc52,
}

/// Why the clipboard could not be read or written.
#[derive(Debug, PartialEq, Eq)]
pub struct ClipboardError {
    pub details: String,
}

impl ClipboardError {
    /// An error with the message `details`.
    pub fn new(details: String) -> (r: Self)
        ensures
            r.details == details,
    {
        ClipboardError { details }
    }

    /// The error's message.
    pub fn details(&self) -> (r: &str)
        ensures
            r@ == self.details@,
    {
        self.details.as_str()
    }
}

/// What a clipboard paste brings: files, else an image, else text; exactly one is set.
#[derive(Debug)]
pub struct ClipboardPasteData {
    pub file_attachments: Option<Vec<AttachmentUpload>>,
    pub text: Option<String>,
    pub image_attachment: Option<AttachmentUpload>,
}

/// The order in which to try clipboard backends for copying text: over SSH the
/// terminal escape first, since the remote host's clipboard is not the user's.
pub fn copy_text_backend_order(remote_session: bool) -> (r: [CopyTextBackend; 2])
    ensures
        remote_session ==> r@ == seq![CopyTextBackend::Osc52, CopyTextBackend::Native],
        !remote_session ==> r@ == seq![CopyTextBackend::Native, CopyTextBackend::Osc52],
{
    if remote_session {
        [CopyTextBackend::Osc52, CopyTextBackend::Native]
    } else {
        [CopyTextBackend::Native, CopyTextBackend::Osc52]
    }
}

/// Combines what was read from the clipboard, preferring files over an image and an
/// image over text; an error when there is none of them.
pub fn paste_data_from_parts(
    file_attachments: Option<Vec<AttachmentUpload>>,
    image_attachment: Option<AttachmentUpload>,
    text: Option<String>,
) -> (r: Result<ClipboardPasteData, ClipboardError>)
    ensures
        file_attachments is Some ==> (r matches Ok(d) && d.file_attachments == file_attachments
            && d.image_attachment is None && d.text is None),
        file_attachments is None && image_attachment is Some ==> (r matches Ok(d)
            && d.image_attachment == image_attachment && d.file_attachments is None
            && d.text is None),
        file_attachments is None && image_attachment is None && text is Some ==> (r matches Ok(d)
            && d.text == text && d.file_attachments is None && d.image_attachment is None),
        r is Err <==> (file_attachments is None && image_attachment is None && text is None),
        r matches Err(e) ==> e.details@ == "native clipboard has no pasteable content"@,
{
    if let Some(files) = file_attachments {
        return Ok(
            ClipboardPasteData { file_attachments: Some(files), text: None, image_attachment: None },
        );
    }
    if let Some(image) = image_attachment {
        return Ok(
            ClipboardPasteData { file_attachments: None, text: None, image_attachment: Some(image) },
        );
    }
    if let Some(text) = text {
        return Ok(
            ClipboardPasteData { file_attachments: None, text: Some(text), image_attachment: None },
        );
    }
    let message = "native clipboard has no pasteable content";
    proof {
        reveal_strlit("native clipboard has no pasteable content");
    }
    Err(ClipboardError::new(String::from_str(message)))
}

/// The error of a clipboard operation whose every attempt failed: the attempts'
/// messages, in order, separated by `; `.
pub fn joined_clipboard_error(failures: &Vec<String>) -> (r: ClipboardError)
    ensures
        r.details@ == join_with(string_views(failures@), "; "@),
{
    let mut out: Vec<char> = Vec::new();
    let mut i: usize = 0;
    while i < failures.len()
        invariant
            i <= failures@.len(),
            out@ == join_with(string_views(failures@.take(i as int)), "; "@),
        decreases failures@.len() - i,
    {
        let ghost parts = string_views(failures@.take(i as int));
        if i > 0 {
            push_str(&mut out, "; ");
        }
        push_str(&mut out, failures[i].as_str());
        proof {
            assert(string_views(failures@.take(i + 1)) =~= parts.push(failures@[i as int]@));
            lemma_join_push(parts, "; "@, failures@[i as int]@);
        }
        i = i + 1;
    }
    proof {
        assert(failures@.take(i as int) =~= failures@);
    }
    ClipboardError::new(string_from_chars(out.as_slice()))
}

/// The file paths in the output of macOS `osascript` reading the clipboard as a file
/// URL: its trimmed, non-empty lines.
pub fn macos_furl_output_paths(output: &str) -> (r: Vec<String>)
    ensures
        r@.len() == trimmed_nonempty_lines(output@).len(),
        forall|i: int| 0 <= i < r@.len() ==> #[trigger] r@[i]@ == trimmed_nonempty_lines(output@)[i],
{
    let chars = str_chars(output);
    let bounds = newline_piece_bounds(&chars);
    let ghost pieces = newline_pieces(chars@);
    let mut paths: Vec<String> = Vec::new();
    let mut k: usize = 0;
    while k < bounds.len()
        invariant
            chars@ == output@,
            pieces == newline_pieces(chars@),
            bounds@.len() == pieces.len(),
            forall|m: int|
                0 <= m < bounds@.len() ==> {
                    let (a, b) = #[trigger] bounds@[m];
                    &&& a <= b <= chars@.len()
                    &&& chars@.subrange(a as int, b as int) == pieces[m]
                },
            k <= bounds@.len(),
            paths@.len() == meaningful_lines_from(pieces.take(k as int)).len(),
            forall|i: int|
                0 <= i < paths@.len() ==> #[trigger] paths@[i]@ == meaningful_lines_from(
                    pieces.take(k as int),
                )[i],
        decreases bounds@.len() - k,
    {
        let (a, b) = bounds[k];
        let (x, y) = trim_range(&chars, a, b);
        proof {
            assert(pieces.take(k + 1).drop_last() =~= pieces.take(k as int));
            assert(pieces.take(k + 1).last() == pieces[k as int]);
            let piece = chars@.subrange(a as int, b as int);
            assert(chars@.subrange(x as int, y as int) =~= trimmed(piece));
        }
        if x < y {
            let line_chars = slice_chars(&chars, x, y);
            let line = string_from_chars(line_chars.as_slice());
            paths.push(line);
        }
        k = k + 1;
    }
    proof {
        assert(pieces.take(pieces.len() as int) =~= pieces);
    }
    paths
}

/// What `PngEncoder::write_image` gives for an 8-bit RGBA image of `width` by `height`
/// pixels: the PNG file it writes, or the text of its error (it refuses, for example,
/// an image with a zero dimension).
pub uninterp spec fn png_rgba8_result(rgba: Seq<u8>, width: u32, height: u32) -> Result<
    Seq<u8>,
    Seq<char>,
>;

/// A PNG encoding's outcome, the bytes or the error text taken by their views.
pub open spec fn png_outcome_view(r: Result<Vec<u8>, String>) -> Result<Seq<u8>, Seq<char>> {
    match r {
        Ok(png) => Ok(png@),
        Err(m) => Err(m@),
    }
}

/// Encodes RGBA pixels as PNG with `PngEncoder::write_image` (image crate), writing
/// into a fresh `Vec`. The encoder asserts that the buffer holds exactly
/// `width * height * 4` bytes, so that is required. Its outcome depends on the
/// arguments alone and is named, not described: the bytes written, or its error's
/// text.
#[verifier::external_body]
fn png_encode_rgba8(rgba: &[u8], width: u32, height: u32) -> (r: Result<Vec<u8>, String>)
    requires
        rgba@.len() == width * height * 4,
    ensures
        png_outcome_view(r) == png_rgba8_result(rgba@, width, height),
{
    let mut png = Vec::new();
    match image::codecs::png::PngEncoder::new(&mut png).write_image(
        rgba,
        width,
        height,
        image::ExtendedColorType::Rgba8,
    ) {
        Ok(()) => Ok(png),
        Err(error) => Err(error.to_string()),
    }
}

/// How the message of a failed PNG encoding starts; the encoder's own error text
/// follows.
pub open spec fn png_failure_prefix() -> Seq<char> {
    "clipboard image PNG encode failed: "@
}

/// The message given when a clipboard image's buffer has the wrong length.
pub open spec fn rgba_length_message(actual: nat, expected: nat) -> Seq<char> {
    "clipboard image has "@ + decimal(actual) + " RGBA bytes, expected "@ + decimal(expected)
}

/// The outcome of encoding a clipboard image, given the PNG encoder's outcome: its
/// bytes, or its error text behind `png_failure_prefix`.
pub open spec fn png_encoding_outcome(encoded: Result<Seq<u8>, Seq<char>>) -> Result<
    Seq<u8>,
    Seq<char>,
> {
    match encoded {
        Ok(png) => Ok(png),
        Err(details) => Err(png_failure_prefix() + details),
    }
}

/// Turns the PNG encoder's outcome into a clipboard image's: the bytes as they are,
/// or the encoder's error text behind `png_failure_prefix`.
pub fn finish_png_encoding(encoded: Result<Vec<u8>, String>) -> (r: Result<Vec<u8>, String>)
    ensures
        png_outcome_view(r) == png_encoding_outcome(png_outcome_view(encoded)),
{
    match encoded {
        Ok(png) => Ok(png),
        Err(details) => {
            let mut message: Vec<char> = Vec::new();
            let prefix = "clipboard image PNG encode failed: ";
            proof {
                reveal_strlit("clipboard image PNG encode failed: ");
            }
            push_str(&mut message, prefix);
            push_str(&mut message, details.as_str());
            Err(string_from_chars(message.as_slice()))
        },
    }
}

/// Encodes a clipboard image (8-bit RGBA, row by row) as PNG. Refuses a buffer whose
/// length is not `width * height * 4`, and dimensions whose byte count overflows.
pub fn encode_image_as_png(width: usize, height: usize, rgba: &[u8]) -> (r: Result<
    Vec<u8>,
    String,
>)
    requires
        width * height * 4 == rgba@.len() ==> (width as u32) * (height as u32) * 4
            == rgba@.len(),
    ensures
        width * height * 4 > usize::MAX ==> (r matches Err(m) && m@
            == "clipboard image dimensions are too large"@),
        width * height * 4 == rgba@.len() ==> png_outcome_view(r) == png_encoding_outcome(
            png_rgba8_result(rgba@, width as u32, height as u32),
        ),
        width * height * 4 <= usize::MAX && width * height * 4 != rgba@.len() ==> (r matches Err(
            m,
        ) && m@ == rgba_length_message(rgba@.len(), (width * height * 4) as nat)),
        r is Ok ==> width * height * 4 == rgba@.len(),
{
    let actual_len = rgba.len();
    let pixels = match width.checked_mul(height) {
        Some(p) => p,
        None => {
            proof {
                assert(width * height * 4 > usize::MAX) by (nonlinear_arith)
                    requires
                        width * height > usize::MAX,
                ;
            }
            let too_large = "clipboard image dimensions are too large";
            proof {
                reveal_strlit("clipboard image dimensions are too large");
            }
            return Err(String::from_str(too_large));
        },
    };
    let expected_len = match pixels.checked_mul(4) {
        Some(n) => n,
        None => {
            let too_large = "clipboard image dimensions are too large";
            proof {
                reveal_strlit("clipboard image dimensions are too large");
            }
            return Err(String::from_str(too_large));
        },
    };
    if rgba.len() != expected_len {
        let mut message: Vec<char> = Vec::new();
        push_str(&mut message, "clipboard image has ");
        push_decimal(&mut message, rgba.len() as u64);
        push_str(&mut message, " RGBA bytes, expected ");
        push_decimal(&mut message, expected_len as u64);
        return Err(string_from_chars(message.as_slice()));
    }
    let w = #[verifier::truncate] (width as u32);
    let h = #[verifier::truncate] (height as u32);
    proof {
        assert(w == width as u32 && h == height as u32);
    }
    let encoded = png_encode_rgba8(rgba, w, h);
    finish_png_encoding(encoded)
}

} // verus!
