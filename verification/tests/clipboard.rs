use concord_tui::clipboard::{
    copy_text_backend_order, encode_image_as_png, finish_png_encoding, joined_clipboard_error, macos_furl_output_paths,
    paste_data_from_parts, CopyTextBackend,
};
use concord_tui::state::AttachmentUpload;
use image::{GenericImageView, ImageFormat};

#[test]
fn local_sessions_try_native_clipboard_before_osc52() {
    assert_eq!(
        copy_text_backend_order(false),
        [CopyTextBackend::Native, CopyTextBackend::Osc52]
    );
}

#[test]
fn remote_sessions_try_osc52_before_native_clipboard() {
    assert_eq!(
        copy_text_backend_order(true),
        [CopyTextBackend::Osc52, CopyTextBackend::Native]
    );
}

#[test]
fn clipboard_paste_data_prefers_image_before_text() {
    let image = AttachmentUpload::from_bytes("clipboard.png".to_owned(), vec![1, 2]);

    let data = paste_data_from_parts(None, Some(image.clone()), Some("plain text".to_owned()))
        .expect("image-backed clipboard data is pasteable");

    assert_eq!(data.image_attachment, Some(image));
    assert_eq!(data.text, None);
    assert_eq!(data.file_attachments, None);
}

#[test]
fn clipboard_paste_data_prefers_file_list_before_image() {
    let file = AttachmentUpload::from_path("/tmp/note.txt".to_owned(), "note.txt".to_owned(), 1);
    let image = AttachmentUpload::from_bytes("clipboard.png".to_owned(), vec![1, 2]);

    let data = paste_data_from_parts(Some(vec![file.clone()]), Some(image), None)
        .expect("file-backed clipboard data is pasteable");

    assert_eq!(data.file_attachments, Some(vec![file]));
    assert_eq!(data.image_attachment, None);
    assert_eq!(data.text, None);
}

#[test]
fn clipboard_paste_data_without_content_is_an_error() {
    let error = paste_data_from_parts(None, None, None).expect_err("nothing to paste");
    assert_eq!(error.details(), "native clipboard has no pasteable content");
}

#[test]
fn clipboard_paste_data_falls_back_to_text() {
    let data = paste_data_from_parts(None, None, Some("hello".to_owned())).expect("text pastes");
    assert_eq!(data.text, Some("hello".to_owned()));
    assert_eq!(data.image_attachment, None);
    assert_eq!(data.file_attachments, None);
}

#[test]
fn encodes_rgba_clipboard_image_as_png() {
    let png = encode_image_as_png(1, 1, &[10, 20, 30, 255]).expect("valid RGBA pixels encode as PNG");

    let decoded = image::load_from_memory_with_format(&png, ImageFormat::Png)
        .expect("encoded clipboard image is a valid PNG");

    assert_eq!(decoded.dimensions(), (1, 1));
    assert_eq!(decoded.to_rgba8().as_raw(), &[10, 20, 30, 255]);
}

#[test]
fn rejects_rgba_clipboard_image_with_wrong_byte_count() {
    let error = encode_image_as_png(2, 1, &[0, 0, 0, 255])
        .expect_err("invalid RGBA length must fail before encoding");

    assert!(error.contains("expected 8"));
}

#[test]
fn rgba_length_error_names_both_counts() {
    let error = encode_image_as_png(2, 1, &[0, 0, 0, 255]).unwrap_err();
    assert_eq!(error, "clipboard image has 4 RGBA bytes, expected 8");
}

#[test]
fn oversized_clipboard_image_dimensions_are_refused() {
    let error = encode_image_as_png(usize::MAX, 2, &[]).unwrap_err();
    assert_eq!(error, "clipboard image dimensions are too large");
}

#[test]
fn parses_macos_furl_paths() {
    let paths = macos_furl_output_paths("/Users/me/Pictures/cat.png\n");

    assert_eq!(
        paths.iter().map(std::path::PathBuf::from).collect::<Vec<_>>(),
        vec![std::path::PathBuf::from("/Users/me/Pictures/cat.png")]
    );
}

#[test]
fn macos_furl_paths_skip_blank_lines_and_trim() {
    let paths = macos_furl_output_paths("  /a/b.png  \n\n\t/c d.txt\r\n");
    assert_eq!(paths, vec!["/a/b.png".to_owned(), "/c d.txt".to_owned()]);
}

#[test]
fn failed_attempts_are_reported_together() {
    let error = joined_clipboard_error(&vec![
        "native clipboard unavailable: no display".to_owned(),
        "OSC52 clipboard write failed: closed".to_owned(),
    ]);
    assert_eq!(
        error.details(),
        "native clipboard unavailable: no display; OSC52 clipboard write failed: closed"
    );
    assert_eq!(joined_clipboard_error(&vec!["only".to_owned()]).details(), "only");
    assert_eq!(joined_clipboard_error(&Vec::new()).details(), "");
}

#[test]
fn empty_paste_data_names_the_reason() {
    let error = paste_data_from_parts(None, None, None).err().unwrap();
    assert_eq!(error.details(), "native clipboard has no pasteable content");
}

#[test]
fn png_encoder_errors_are_prefixed() {
    assert_eq!(
        finish_png_encoding(Err("bad dimensions".to_owned())),
        Err("clipboard image PNG encode failed: bad dimensions".to_owned())
    );
    assert_eq!(finish_png_encoding(Ok(vec![1, 2, 3])), Ok(vec![1, 2, 3]));
}

#[test]
fn zero_sized_clipboard_image_reports_the_encoder_error() {
    match encode_image_as_png(0, 0, &[]) {
        Ok(_) => {},
        Err(message) => assert!(message.starts_with("clipboard image PNG encode failed: ")),
    }
}
