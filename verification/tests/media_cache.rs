use concord_tui::media_cache::{key_is_protected, CacheEntryState, MediaImageCacheCore};
use concord_tui::media::{AvatarTarget, AVATAR_PREVIEW_WIDTH, PROFILE_POPUP_AVATAR_HEIGHT};
use concord_tui::media_images::{AvatarImageCache, EmojiImageCache, PreviewEvent};
use concord_tui::state::AppCommand;

fn keys(cache: &MediaImageCacheCore, names: &[&str]) -> Vec<bool> {
    names.iter().map(|n| cache.contains_key(n)).collect()
}

#[test]
fn loading_entries_are_added_once() {
    let mut cache = MediaImageCacheCore::new();
    assert!(cache.insert_loading("a".to_owned()));
    assert!(!cache.insert_loading("a".to_owned()));
    assert_eq!(cache.len(), 1);
    assert_eq!(cache.get("a").unwrap().state, CacheEntryState::Loading);
    assert_eq!(cache.get("a").unwrap().last_used, 1);
}

#[test]
fn decode_jobs_start_only_for_loading_entries() {
    let mut cache = MediaImageCacheCore::new();
    assert_eq!(cache.start_decode_job("a", true), None);
    cache.insert_loading("a".to_owned());
    assert_eq!(cache.start_decode_job("a", true), Some(1));
    assert_eq!(cache.get("a").unwrap().state, CacheEntryState::Decoding { generation: 1 });
    assert_eq!(cache.start_decode_job("a", true), None);
}

#[test]
fn decode_without_picker_fails_the_entry() {
    let mut cache = MediaImageCacheCore::new();
    cache.insert_loading("a".to_owned());
    assert_eq!(cache.start_decode_job("a", false), None);
    assert_eq!(cache.get("a").unwrap().state, CacheEntryState::Failed);
}

#[test]
fn stale_decode_results_are_dropped() {
    let mut cache = MediaImageCacheCore::new();
    cache.insert_loading("a".to_owned());
    let generation = cache.start_decode_job("a", true).unwrap();
    assert!(!cache.decoded_generation_matches("a", generation + 1));
    cache.store_decoded("a", generation + 1, true);
    assert_eq!(cache.get("a").unwrap().state, CacheEntryState::Decoding { generation });
    assert!(cache.decoded_generation_matches("a", generation));
    cache.store_decoded("a", generation, true);
    assert_eq!(cache.get("a").unwrap().state, CacheEntryState::Ready);
}

#[test]
fn failed_fetches_fail_only_known_entries() {
    let mut cache = MediaImageCacheCore::new();
    cache.store_failed_if_present("missing");
    assert_eq!(cache.len(), 0);
    cache.insert_loading("a".to_owned());
    cache.store_failed_if_present("a");
    assert_eq!(cache.get("a").unwrap().state, CacheEntryState::Failed);
}

#[test]
fn pruning_evicts_least_recently_used_unprotected_entries() {
    let mut cache = MediaImageCacheCore::new();
    for name in ["a", "b", "c", "d"] {
        cache.insert_loading(name.to_owned());
    }
    cache.touch("a");
    cache.prune_to_limit(2, &vec!["b".to_owned()]);
    assert_eq!(cache.len(), 2);
    assert_eq!(keys(&cache, &["a", "b", "c", "d"]), vec![true, true, false, false]);
}

#[test]
fn pruning_keeps_protected_entries_even_over_the_limit() {
    let mut cache = MediaImageCacheCore::new();
    for name in ["a", "b", "c"] {
        cache.insert_loading(name.to_owned());
    }
    let protected = vec!["a".to_owned(), "b".to_owned(), "c".to_owned()];
    cache.prune_to_limit(1, &protected);
    assert_eq!(cache.len(), 3);
    assert!(key_is_protected(&protected, "b"));
    assert!(!key_is_protected(&protected, "z"));
}

#[test]
fn emoji_requests_skip_cached_and_repeated_urls() {
    let mut emoji = EmojiImageCache::new(true);
    let urls = vec!["u1".to_owned(), "u2".to_owned(), "u1".to_owned()];
    let commands = emoji.next_requests(&urls);
    let requested: Vec<String> = commands
        .iter()
        .map(|c| match c {
            AppCommand::LoadAttachmentPreview { url } => url.clone(),
            _ => panic!("unexpected command"),
        })
        .collect();
    assert_eq!(requested, vec!["u1".to_owned(), "u2".to_owned()]);
    assert!(emoji.next_requests(&urls).is_empty());
}

#[test]
fn emoji_requests_need_an_image_protocol() {
    let mut emoji = EmojiImageCache::new(false);
    assert!(emoji.next_requests(&vec!["u1".to_owned()]).is_empty());
    assert_eq!(emoji.cache.len(), 0);
}

#[test]
fn emoji_render_state_lists_ready_targets() {
    let mut emoji = EmojiImageCache::new(true);
    let urls = vec!["u1".to_owned(), "u2".to_owned()];
    emoji.next_requests(&urls);
    let generation = emoji.record_event(&PreviewEvent::Loaded { url: "u2".to_owned() }).unwrap();
    emoji.store_decoded("u2", generation, true);
    emoji.record_event(&PreviewEvent::LoadFailed { url: "u1".to_owned() });
    assert_eq!(emoji.render_state(&urls), vec!["u2".to_owned()]);
    assert_eq!(emoji.cache.get("u1").unwrap().state, CacheEntryState::Failed);
}

#[test]
fn emoji_cache_without_protocol_fails_decoded_images() {
    let mut emoji = EmojiImageCache::new(true);
    emoji.next_requests(&vec!["u".to_owned()]);
    let generation = emoji.record_event(&PreviewEvent::Loaded { url: "u".to_owned() }).unwrap();
    emoji.store_decoded("u", generation, false);
    assert_eq!(emoji.cache.get("u").unwrap().state, CacheEntryState::Failed);
}

#[test]
fn avatar_requests_use_sized_urls() {
    let mut avatars = AvatarImageCache::new(true);
    let url = "https://cdn.discordapp.com/avatars/1/a.png".to_owned();
    let commands = avatars.next_requests(&vec![url.clone()]);
    match &commands[..] {
        [AppCommand::LoadAttachmentPreview { url: sized }] => {
            assert_eq!(sized, "https://cdn.discordapp.com/avatars/1/a.png?size=64");
        },
        _ => panic!("expected one preview request"),
    }
    assert!(avatars.next_requests(&vec![url.clone()]).is_empty());
    let popup = avatars.next_request_for_url(&url);
    match popup {
        Some(AppCommand::LoadAttachmentPreview { url: sized }) => {
            assert_eq!(sized, "https://cdn.discordapp.com/avatars/1/a.png?size=128");
        },
        _ => panic!("expected the popup avatar request"),
    }
}

#[test]
fn avatar_render_targets_record_the_popup_avatar() {
    let mut avatars = AvatarImageCache::new(true);
    let (sized, popup) = avatars.touch_render_targets(
        &vec!["https://example.com/a.png".to_owned()],
        Some("https://cdn.discordapp.com/avatars/1/a.png"),
    );
    assert_eq!(sized, vec!["https://example.com/a.png".to_owned()]);
    assert_eq!(popup, Some("https://cdn.discordapp.com/avatars/1/a.png?size=128".to_owned()));
    assert_eq!(avatars.active_popup_avatar_url, popup);
}

fn make_ready(avatars: &mut AvatarImageCache, sized: &str) {
    assert!(avatars.cache.insert_loading(sized.to_owned()));
    let generation = avatars
        .record_event(&PreviewEvent::Loaded { url: sized.to_owned() })
        .unwrap();
    avatars.store_decoded(sized, generation, true);
    assert_eq!(avatars.cache.get(sized).unwrap().state, CacheEntryState::Ready);
}

#[test]
fn avatar_render_state_draws_only_ready_avatars() {
    let mut avatars = AvatarImageCache::new(true);
    make_ready(&mut avatars, "https://example.com/ready.png");
    make_ready(&mut avatars, "https://cdn.discordapp.com/avatars/1/a.png?size=128");
    let targets = vec![
        AvatarTarget {
            url: "https://example.com/ready.png".to_owned(),
            row: 3,
            visible_height: 1,
            top_clip_rows: 1,
        },
        AvatarTarget {
            url: "https://example.com/missing.png".to_owned(),
            row: 6,
            visible_height: 2,
            top_clip_rows: 0,
        },
    ];
    let (draws, popup) = avatars.render_state_with_popup(
        &targets,
        Some("https://cdn.discordapp.com/avatars/1/a.png"),
        true,
    );
    assert_eq!(draws.len(), 1);
    assert_eq!(draws[0].row, 3);
    assert_eq!(draws[0].visible_height, 1);
    assert_eq!(draws[0].url, "https://example.com/ready.png");
    assert_eq!(draws[0].key.preview_width, AVATAR_PREVIEW_WIDTH);
    assert_eq!(draws[0].key.top_clip_rows, 1);
    assert!(draws[0].key.circular);
    let popup = popup.unwrap();
    assert_eq!(popup.row, 0);
    assert_eq!(popup.visible_height, PROFILE_POPUP_AVATAR_HEIGHT);
    assert_eq!(popup.url, "https://cdn.discordapp.com/avatars/1/a.png?size=128");
    assert_eq!(
        avatars.active_popup_avatar_url,
        Some("https://cdn.discordapp.com/avatars/1/a.png?size=128".to_owned())
    );
}

#[test]
fn avatar_render_state_without_protocol_draws_nothing() {
    let mut avatars = AvatarImageCache::new(false);
    let targets = vec![AvatarTarget {
        url: "https://example.com/a.png".to_owned(),
        row: 0,
        visible_height: 2,
        top_clip_rows: 0,
    }];
    let (draws, popup) = avatars.render_state_with_popup(&targets, None, false);
    assert!(draws.is_empty());
    assert!(popup.is_none());
    assert_eq!(avatars.active_popup_avatar_url, None);
}

#[test]
fn render_state_touches_targets_in_order() {
    let mut emoji = EmojiImageCache::new(true);
    emoji.cache.insert_loading("a".to_owned());
    emoji.cache.insert_loading("b".to_owned());
    emoji.cache.insert_loading("c".to_owned());
    // The clock stands at 3; each target of the frame takes the next tick.
    emoji.render_state(&vec!["b".to_owned(), "missing".to_owned(), "a".to_owned()]);
    assert_eq!(emoji.cache.get("b").unwrap().last_used, 4);
    assert_eq!(emoji.cache.get("a").unwrap().last_used, 6);
    assert_eq!(emoji.cache.get("c").unwrap().last_used, 3);
    assert!(!emoji.cache.contains_key("missing"));
}
