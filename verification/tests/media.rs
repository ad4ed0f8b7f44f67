use concord_tui::media::{
    avatar_preview_size, avatar_preview_url, blend_pixel, centered_offset, clipped_preview_geometry,
    emoji_canvas_geometry, shows_play_marker, EmojiCanvas,
    fixed_image_preview_render_info, is_iterm_terminal_values, protocol_type_for_preference,
    AvatarProtocolKey, AvatarTarget, ImageProtocolPreference, PreviewClip, ProtocolKind,
    AVATAR_PREVIEW_HEIGHT, AVATAR_PREVIEW_WIDTH, PROFILE_POPUP_AVATAR_HEIGHT,
    PROFILE_POPUP_AVATAR_WIDTH,
};

#[test]
fn auto_protocol_forces_iterm2_inside_iterm() {
    assert_eq!(
        protocol_type_for_preference(ImageProtocolPreference::Auto, true),
        Some(ProtocolKind::Iterm2)
    );
    assert_eq!(protocol_type_for_preference(ImageProtocolPreference::Auto, false), None);
}

#[test]
fn explicit_protocol_preference_overrides_terminal_detection() {
    let cases = [
        (ImageProtocolPreference::Iterm2, ProtocolKind::Iterm2),
        (ImageProtocolPreference::Kitty, ProtocolKind::Kitty),
        (ImageProtocolPreference::Sixel, ProtocolKind::Sixel),
        (ImageProtocolPreference::Halfblocks, ProtocolKind::Halfblocks),
    ];

    for (preference, expected) in cases {
        assert_eq!(protocol_type_for_preference(preference, true), Some(expected));
        assert_eq!(protocol_type_for_preference(preference, false), Some(expected));
    }
}

#[test]
fn iterm_detection_accepts_term_program_or_lc_terminal() {
    assert!(is_iterm_terminal_values(Some("iTerm.app"), None));
    assert!(is_iterm_terminal_values(None, Some("iTerm2")));
    assert!(!is_iterm_terminal_values(Some("WezTerm"), None));
}

#[test]
fn iterm_detection_is_case_sensitive_and_needs_a_value() {
    assert!(!is_iterm_terminal_values(None, None));
    assert!(!is_iterm_terminal_values(Some("iterm"), Some("ITERM")));
}

#[test]
fn avatar_size_rounds_needed_pixels_up_to_a_power_of_two() {
    // 4 columns need 40 pixels, 2 rows need 60: 64 covers both.
    assert_eq!(avatar_preview_size(4, 2), 64);
    // Tiny previews still ask for the CDN's smallest size.
    assert_eq!(avatar_preview_size(0, 0), 16);
    assert_eq!(avatar_preview_size(1, 0), 16);
    // Exact powers of two stay as they are.
    assert_eq!(avatar_preview_size(0, 4), 128);
    // Huge previews stop at the CDN's largest size.
    assert_eq!(avatar_preview_size(u16::MAX, u16::MAX), 1024);
}

#[test]
fn avatar_url_replaces_the_size_parameter_of_cdn_avatars() {
    let url = "https://cdn.discordapp.com/avatars/1/abc.png?size=4096&quality=lossless";
    assert_eq!(
        avatar_preview_url(url, 4, 2),
        "https://cdn.discordapp.com/avatars/1/abc.png?quality=lossless&size=64"
    );
    assert_eq!(
        avatar_preview_url("https://cdn.discordapp.com/avatars/1/abc.png", 4, 2),
        "https://cdn.discordapp.com/avatars/1/abc.png?size=64"
    );
}

#[test]
fn avatar_url_leaves_other_urls_alone() {
    let url = "https://example.com/a.png?size=10";
    assert_eq!(avatar_preview_url(url, 4, 2), url);
}

#[test]
fn fixed_render_info_shows_the_whole_preview() {
    let info = fixed_image_preview_render_info(6, 3);
    assert_eq!(info.preview_width, 6);
    assert_eq!(info.preview_height, 3);
    assert_eq!(info.visible_preview_height, 3);
    assert_eq!(info.top_clip_rows, 0);
    assert!(!info.viewer);
    assert!(!info.show_play_marker);
    assert!(!info.mask_circular);
    assert_eq!(info.accent_color, None);
}

#[test]
fn avatar_protocol_keys_follow_the_target_clip() {
    let target = AvatarTarget {
        url: "https://example.com/a.png".to_owned(),
        row: 7,
        visible_height: 1,
        top_clip_rows: 1,
    };
    let key = AvatarProtocolKey::message_avatar(&target, true);
    assert_eq!(key.preview_width, AVATAR_PREVIEW_WIDTH);
    assert_eq!(key.preview_height, AVATAR_PREVIEW_HEIGHT);
    assert_eq!(key.visible_preview_height, 1);
    assert_eq!(key.top_clip_rows, 1);
    let info = key.render_info();
    assert!(info.mask_circular);
    assert_eq!(info.visible_preview_height, 1);
    assert_eq!(info.top_clip_rows, 1);

    let popup = AvatarProtocolKey::profile_popup(false);
    assert_eq!(popup.preview_width, PROFILE_POPUP_AVATAR_WIDTH);
    assert_eq!(popup.visible_preview_height, PROFILE_POPUP_AVATAR_HEIGHT);
    assert_eq!(popup.top_clip_rows, 0);
    assert!(!popup.render_info().mask_circular);
}

#[test]
fn clipped_geometry_keeps_the_visible_rows() {
    let whole = clipped_preview_geometry((10, 20), fixed_image_preview_render_info(4, 2));
    assert_eq!(
        whole,
        Some(PreviewClip { full_width: 40, full_height: 40, crop_top: 0, crop_height: 40 })
    );

    let mut clipped = fixed_image_preview_render_info(4, 2);
    clipped.visible_preview_height = 1;
    clipped.top_clip_rows = 1;
    assert_eq!(
        clipped_preview_geometry((10, 20), clipped),
        Some(PreviewClip { full_width: 40, full_height: 40, crop_top: 20, crop_height: 20 })
    );
}

#[test]
fn clipped_geometry_rejects_empty_previews() {
    let mut hidden = fixed_image_preview_render_info(4, 2);
    hidden.visible_preview_height = 0;
    assert_eq!(clipped_preview_geometry((10, 20), hidden), None);

    let mut past_bottom = fixed_image_preview_render_info(4, 2);
    past_bottom.top_clip_rows = 3;
    assert_eq!(clipped_preview_geometry((10, 20), past_bottom), None);

    assert_eq!(clipped_preview_geometry((0, 20), fixed_image_preview_render_info(4, 2)), None);
    assert_eq!(clipped_preview_geometry((10, 20), fixed_image_preview_render_info(0, 2)), None);
}

#[test]
fn blend_pixel_mixes_by_overlay_alpha() {
    let mut pixel = [10u8, 20, 30, 40];
    blend_pixel(&mut pixel, [0, 0, 0, 135]);
    assert_eq!(pixel, [5, 9, 14, 135]);

    let mut opaque = [100u8, 100, 100, 255];
    blend_pixel(&mut opaque, [245, 247, 250, 230]);
    assert_eq!(opaque, [231, 233, 235, 255]);

    let mut untouched = [1u8, 2, 3, 4];
    blend_pixel(&mut untouched, [200, 200, 200, 0]);
    assert_eq!(untouched, [1, 2, 3, 4]);
}

#[test]
fn sizing_an_avatar_url_twice_changes_nothing() {
    let once = avatar_preview_url("https://cdn.discordapp.com/avatars/1/a.png?size=16&x=1", 4, 2);
    assert_eq!(once, "https://cdn.discordapp.com/avatars/1/a.png?x=1&size=64");
    assert_eq!(avatar_preview_url(&once, 4, 2), once);
    let other = avatar_preview_url("https://example.com/a.png?size=16", 4, 2);
    assert_eq!(avatar_preview_url(&other, 4, 2), other);
}

#[test]
fn emoji_canvas_spans_the_thumbnail_cells() {
    assert_eq!(
        emoji_canvas_geometry((8, 16)),
        EmojiCanvas { width: 16, height: 16, max_scaled_height: 12 }
    );
    assert_eq!(
        emoji_canvas_geometry((3, 1)),
        EmojiCanvas { width: 6, height: 1, max_scaled_height: 1 }
    );
}

#[test]
fn centered_offsets_split_the_spare_room() {
    assert_eq!(centered_offset(40, 30), 5);
    assert_eq!(centered_offset(41, 30), 5);
    assert_eq!(centered_offset(30, 40), 0);
}

#[test]
fn play_markers_need_room() {
    assert!(shows_play_marker(24, 100));
    assert!(!shows_play_marker(23, 100));
    assert!(!shows_play_marker(100, 10));
}
