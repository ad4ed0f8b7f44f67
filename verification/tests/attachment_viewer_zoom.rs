use concord_tui::popups::AttachmentViewerZoom;

#[test]
fn zoom_in_steps_default_large_fullscreen_and_caps() {
    let zoom = AttachmentViewerZoom::Default;
    let zoom = zoom.zoom_in();
    assert_eq!(zoom, AttachmentViewerZoom::Large);
    let zoom = zoom.zoom_in();
    assert_eq!(zoom, AttachmentViewerZoom::Fullscreen);
    let zoom = zoom.zoom_in();
    assert_eq!(zoom, AttachmentViewerZoom::Fullscreen);
}

#[test]
fn zoom_out_steps_fullscreen_large_default_and_caps() {
    let zoom = AttachmentViewerZoom::Fullscreen;
    let zoom = zoom.zoom_out();
    assert_eq!(zoom, AttachmentViewerZoom::Large);
    let zoom = zoom.zoom_out();
    assert_eq!(zoom, AttachmentViewerZoom::Default);
    let zoom = zoom.zoom_out();
    assert_eq!(zoom, AttachmentViewerZoom::Default);
}

#[test]
fn toggle_fullscreen_round_trips() {
    let zoom = AttachmentViewerZoom::Default;
    let zoom = zoom.toggle_fullscreen();
    assert_eq!(zoom, AttachmentViewerZoom::Fullscreen);
    let zoom = zoom.toggle_fullscreen();
    assert_eq!(zoom, AttachmentViewerZoom::Default);

    let zoom = AttachmentViewerZoom::Large.toggle_fullscreen();
    assert_eq!(zoom, AttachmentViewerZoom::Fullscreen);
}

#[test]
fn zoom_in_then_out_returns_from_default_and_large() {
    for zoom in [AttachmentViewerZoom::Default, AttachmentViewerZoom::Large] {
        assert_eq!(zoom.zoom_in().zoom_out(), zoom);
    }
}
