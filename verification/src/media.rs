use vstd::prelude::*;

use crate::text_util::{
    chars_eq, contains_chars, contains_seq, decimal, has_prefix, index_of_char, join_with,
    lemma_decimal_digits, lemma_join_push, lemma_next_index_bounds, lemma_next_index_clear,
    lemma_pieces_clear, lemma_split_join, next_index_of, piece_bounds, push_chars,
    push_decimal, push_str, slice_chars, split_pieces, starts_with_chars,
};
use crate::unicode::{str_chars, string_from_chars};

verus! {

/// Terminal image protocol the user asked for.
#[derive(Clone, Copy, Debug, PartialEq, Eq, Structural)]
pub enum ImageProtocolPreference {
    Auto,
    Iterm2,
    Kitty,
    Sixel,
    Halfblocks,
}

/// Terminal image protocols the image renderer can use.
#[derive(Clone, Copy, Debug, PartialEq, Eq, Structural)]
pub enum ProtocolKind {
    Halfblocks,
    Sixel,
    Kitty,
    Iterm2,
}

/// The protocol to force for a preference: the preferred one, or under auto-detection
/// iTerm2's own protocol inside iTerm (whose Kitty support lacks what the renderer
/// needs) and nothing otherwise.
pub open spec fn protocol_for(preference: ImageProtocolPreference, iterm: bool) -> Option<
    ProtocolKind,
> {
    match preference {
        ImageProtocolPreference::Auto => if iterm {
            Some(ProtocolKind::Iterm2)
        } else {
            None
        },
        ImageProtocolPreference::Iterm2 => Some(ProtocolKind::Iterm2),
        ImageProtocolPreference::Kitty => Some(ProtocolKind::Kitty),
        ImageProtocolPreference::Sixel => Some(ProtocolKind::Sixel),
        ImageProtocolPreference::Halfblocks => Some(ProtocolKind::Halfblocks),
    }
}

/// The protocol to force for `preference`, given whether the terminal is iTerm.
pub fn protocol_type_for_preference(
    preference: ImageProtocolPreference,
    iterm_terminal: bool,
) -> (r: Option<ProtocolKind>)
    ensures
        r == protocol_for(preference, iterm_terminal),
{
    match preference {
        ImageProtocolPreference::Auto => {
            if iterm_terminal {
                Some(ProtocolKind::Iterm2)
            } else {
                None
            }
        },
        ImageProtocolPreference::Iterm2 => Some(ProtocolKind::Iterm2),
        ImageProtocolPreference::Kitty => Some(ProtocolKind::Kitty),
        ImageProtocolPreference::Sixel => Some(ProtocolKind::Sixel),
        ImageProtocolPreference::Halfblocks => Some(ProtocolKind::Halfblocks),
    }
}

/// An explicit protocol preference wins over terminal detection.
pub proof fn law_explicit_preference_ignores_terminal(preference: ImageProtocolPreference)
    requires
        preference != ImageProtocolPreference::Auto,
    ensures
        protocol_for(preference, true) == protocol_for(preference, false),
        protocol_for(preference, true) is Some,
{
}

/// Whether a terminal variable's value names iTerm.
pub open spec fn names_iterm(value: Option<&str>) -> bool {
    value matches Some(v) && contains_seq(v@, "iTerm"@)
}

/// Whether `TERM_PROGRAM` or `LC_TERMINAL` (their values given) names iTerm.
pub fn is_iterm_terminal_values(term_program: Option<&str>, lc_terminal: Option<&str>) -> (r:
    bool)
    ensures
        r == (names_iterm(term_program) || names_iterm(lc_terminal)),
{
    let needle = str_chars("iTerm");
    let in_program = match term_program {
        Some(value) => contains_chars(&str_chars(value), &needle),
        None => false,
    };
    let in_lc = match lc_terminal {
        Some(value) => contains_chars(&str_chars(value), &needle),
        None => false,
    };
    in_program || in_lc
}

/// Source pixels fetched per column of an avatar preview.
pub const AVATAR_SOURCE_PIXELS_PER_COLUMN: u64 = 10;

/// Source pixels fetched per row of an avatar preview (a cell is about three times as
/// tall as wide).
pub const AVATAR_SOURCE_PIXELS_PER_ROW: u64 = 30;

/// Smallest avatar size the Discord CDN serves.
pub const DISCORD_AVATAR_MIN_SIZE: u64 = 16;

/// Largest avatar size the Discord CDN serves.
pub const DISCORD_AVATAR_MAX_SIZE: u64 = 1024;

/// `2` to the power `k`.
pub open spec fn pow2(k: nat) -> nat
    decreases k,
{
    if k == 0 {
        1
    } else {
        2 * pow2((k - 1) as nat)
    }
}

/// Whether `n` is a power of two.
pub open spec fn is_power_of_two(n: int) -> bool {
    exists|k: nat| pow2(k) == n
}

/// Pixels needed to fill an avatar preview of `width_columns` by `height_rows` cells.
pub open spec fn avatar_pixels_needed(width_columns: int, height_rows: int) -> int {
    let w = width_columns * 10;
    let h = height_rows * 30;
    let m = if w > h {
        w
    } else {
        h
    };
    if m > 1 {
        m
    } else {
        1
    }
}

/// The avatar size to ask the CDN for: the smallest power of two that covers the
/// needed pixels, within the CDN's 16 to 1024.
pub open spec fn is_avatar_size_for(size: int, width_columns: int, height_rows: int) -> bool {
    let needed = avatar_pixels_needed(width_columns, height_rows);
    let clamped = if needed < 16 {
        16
    } else if needed > 1024 {
        1024
    } else {
        needed
    };
    &&& is_power_of_two(size)
    &&& clamped <= size
    &&& size < 2 * clamped
}

/// The avatar size to ask the CDN for: the needed pixels clamped to 16 to 1024,
/// rounded up to a power of two.
pub open spec fn avatar_size_spec(width_columns: int, height_rows: int) -> int {
    let needed = avatar_pixels_needed(width_columns, height_rows);
    if needed <= 16 {
        16
    } else if needed <= 32 {
        32
    } else if needed <= 64 {
        64
    } else if needed <= 128 {
        128
    } else if needed <= 256 {
        256
    } else if needed <= 512 {
        512
    } else {
        1024
    }
}

/// The avatar size to ask the Discord CDN for, for a preview of the given cells.
pub fn avatar_preview_size(width_columns: u16, height_rows: u16) -> (r: u64)
    ensures
        r == avatar_size_spec(width_columns as int, height_rows as int),
        is_avatar_size_for(r as int, width_columns as int, height_rows as int),
        16 <= r <= 1024,
{
    let width = (width_columns as u64) * AVATAR_SOURCE_PIXELS_PER_COLUMN;
    let height = (height_rows as u64) * AVATAR_SOURCE_PIXELS_PER_ROW;
    let mut needed = if width > height {
        width
    } else {
        height
    };
    if needed < 1 {
        needed = 1;
    }
    let clamped = if needed < DISCORD_AVATAR_MIN_SIZE {
        DISCORD_AVATAR_MIN_SIZE
    } else if needed > DISCORD_AVATAR_MAX_SIZE {
        DISCORD_AVATAR_MAX_SIZE
    } else {
        needed
    };
    let mut size: u64 = DISCORD_AVATAR_MIN_SIZE;
    while size < clamped
        invariant
            16 <= clamped <= 1024,
            size == 16 || size == 32 || size == 64 || size == 128 || size == 256 || size == 512
                || size == 1024,
            size == 16 || size < 2 * clamped,
        decreases 1024 - size,
    {
        size = size * 2;
    }
    proof {
        reveal_with_fuel(pow2, 11);
        if size == 16 {
            assert(pow2(4) == 16);
        } else if size == 32 {
            assert(pow2(5) == 32);
        } else if size == 64 {
            assert(pow2(6) == 64);
        } else if size == 128 {
            assert(pow2(7) == 128);
        } else if size == 256 {
            assert(pow2(8) == 256);
        } else if size == 512 {
            assert(pow2(9) == 512);
        } else {
            assert(pow2(10) == 1024);
        }
        assert(is_power_of_two(size as int));
    }
    if size > DISCORD_AVATAR_MAX_SIZE {
        DISCORD_AVATAR_MAX_SIZE
    } else {
        size
    }
}

/// The avatar size always lies within what the CDN serves and is a power of two.
pub proof fn law_avatar_size_is_power_of_two_in_range(size: int, width: int, height: int)
    requires
        is_avatar_size_for(size, width, height),
        0 <= width,
        0 <= height,
    ensures
        16 <= size < 2048,
        is_power_of_two(size),
{
}

/// The CDN path prefix of Discord user avatars.
pub open spec fn avatar_cdn_prefix() -> Seq<char> {
    "https://cdn.discordapp.com/avatars/"@
}

/// The key of a `key=value` query parameter (the whole parameter when it has no `=`).
pub open spec fn param_key(param: Seq<char>) -> Seq<char> {
    param.take(next_index_of(param, '=', 0))
}

/// The query parameters that stay: the non-empty ones whose key is not `size`.
pub open spec fn kept_params(params: Seq<Seq<char>>) -> Seq<Seq<char>>
    decreases params.len(),
{
    if params.len() == 0 {
        Seq::empty()
    } else {
        let rest = kept_params(params.drop_last());
        let p = params.last();
        if p.len() > 0 && param_key(p) != "size"@ {
            rest.push(p)
        } else {
            rest
        }
    }
}

/// The URL an avatar preview of `size` pixels is fetched from: Discord CDN avatar URLs
/// get their `size` parameter replaced; other URLs stay as they are.
pub open spec fn avatar_url_for(url: Seq<char>, size: int) -> Seq<char> {
    if !has_prefix(url, avatar_cdn_prefix()) {
        url
    } else {
        let q = next_index_of(url, '?', 0);
        let base = url.take(q);
        let query = if q < url.len() {
            url.skip(q + 1)
        } else {
            Seq::empty()
        };
        let params = kept_params(split_pieces(query, '&')).push("size="@ + decimal(size as nat));
        base + "?"@ + join_with(params, "&"@)
    }
}

proof fn lemma_kept_params_idempotent(params: Seq<Seq<char>>)
    ensures
        kept_params(kept_params(params)) == kept_params(params),
        forall|i: int|
            0 <= i < kept_params(params).len() ==> params.contains(#[trigger] kept_params(params)[i]),
    decreases params.len(),
{
    if params.len() > 0 {
        let d = params.drop_last();
        let p = params.last();
        lemma_kept_params_idempotent(d);
        let kd = kept_params(d);
        if p.len() > 0 && param_key(p) != "size"@ {
            assert(kd.push(p).drop_last() =~= kd);
            assert(kd.push(p).last() == p);
            assert forall|i: int| 0 <= i < kd.push(p).len() implies params.contains(
                #[trigger] kd.push(p)[i],
            ) by {
                if i < kd.len() {
                    assert(d.contains(kd[i]));
                    let j = choose|j: int| 0 <= j < d.len() && d[j] == kd[i];
                    assert(params[j] == kd[i]);
                } else {
                    assert(params[params.len() - 1] == p);
                }
            }
        } else {
            assert forall|i: int| 0 <= i < kd.len() implies params.contains(#[trigger] kd[i]) by {
                assert(d.contains(kd[i]));
                let j = choose|j: int| 0 <= j < d.len() && d[j] == kd[i];
                assert(params[j] == kd[i]);
            }
        }
    }
}

proof fn lemma_no_char_concat(a: Seq<char>, b: Seq<char>, c: char)
    requires
        !a.contains(c),
        !b.contains(c),
    ensures
        !(a + b).contains(c),
{
    if (a + b).contains(c) {
        let k = choose|k: int| 0 <= k < (a + b).len() && (a + b)[k] == c;
        if k < a.len() {
            assert(a[k] == c);
        } else {
            assert(b[k - a.len()] == c);
        }
    }
}

/// Sizing an avatar URL twice with one size gives the URL sized once: its `size`
/// parameter is replaced, never repeated.
pub proof fn law_avatar_url_sizing_is_idempotent(url: Seq<char>, size: int)
    ensures
        avatar_url_for(avatar_url_for(url, size), size) == avatar_url_for(url, size),
{
    let prefix = avatar_cdn_prefix();
    if has_prefix(url, prefix) {
        reveal_strlit("https://cdn.discordapp.com/avatars/");
        reveal_strlit("?");
        reveal_strlit("&");
        reveal_strlit("size=");
        reveal_strlit("size");
        assert forall|k: int| 0 <= k < prefix.len() implies prefix[k] != '?' by {}
        let q = next_index_of(url, '?', 0);
        assert forall|k: int| 0 <= k < prefix.len() implies url[k] != '?' by {
            assert(url.take(prefix.len() as int)[k] == prefix[k]);
        }
        lemma_next_index_clear(url, '?', 0, prefix.len() as int);
        lemma_next_index_bounds(url, '?', prefix.len() as int);
        lemma_next_index_bounds(url, '?', 0);
        let base = url.take(q);
        let query = if q < url.len() {
            url.skip(q + 1)
        } else {
            Seq::empty()
        };
        let pieces = split_pieces(query, '&');
        let kept = kept_params(pieces);
        let size_param = "size="@ + decimal(size as nat);
        let params = kept.push(size_param);
        let joined = join_with(params, "&"@);
        let sized = base + "?"@ + joined;
        assert(sized == avatar_url_for(url, size));
        // The sized URL keeps the CDN prefix.
        assert(sized.take(prefix.len() as int) =~= url.take(prefix.len() as int));
        assert(has_prefix(sized, prefix));
        // Its first `?` is the one after the base.
        assert forall|k: int| 0 <= k < q implies sized[k] != '?' by {
            assert(sized[k] == url[k]);
        }
        lemma_next_index_clear(sized, '?', 0, q);
        assert(sized[q] == '?');
        assert(next_index_of(sized, '?', 0) == q);
        assert(sized.take(q) =~= base);
        assert(sized.skip(q + 1) =~= joined);
        // Its query splits back into the parameters.
        lemma_pieces_clear(query, '&', 0);
        lemma_kept_params_idempotent(pieces);
        assert(!"size="@.contains('&')) by {
            if "size="@.contains('&') {
                let k = choose|k: int| 0 <= k < "size="@.len() && "size="@[k] == '&';
            }
        }
        lemma_decimal_digits(size as nat, '&');
        lemma_no_char_concat("size="@, decimal(size as nat), '&');
        assert forall|i: int| 0 <= i < params.len() implies !(#[trigger] params[i]).contains('&') by {
            if i < kept.len() {
                assert(params[i] == kept[i]);
                assert(pieces.contains(kept[i]));
                let j = choose|j: int| 0 <= j < pieces.len() && pieces[j] == kept[i];
                assert(!pieces[j].contains('&'));
            } else {
                assert(params[i] == size_param);
            }
        }
        assert("&"@ =~= seq!['&']);
        lemma_split_join(params, '&');
        // The size parameter is dropped and added again.
        assert forall|k: int| 0 <= k < 4 implies size_param[k] != '=' by {}
        lemma_next_index_clear(size_param, '=', 0, 4);
        assert(size_param[4] == '=');
        assert(param_key(size_param) =~= "size"@);
        assert(params.drop_last() =~= kept);
        assert(kept_params(params) == kept_params(kept));
    }
}

/// The URL to fetch an avatar preview of `width_columns` by `height_rows` cells from.
pub fn avatar_preview_url(url: &str, width_columns: u16, height_rows: u16) -> (r: String)
    ensures
        r@ == avatar_url_for(url@, avatar_size_spec(width_columns as int, height_rows as int)),
        is_avatar_size_for(
            avatar_size_spec(width_columns as int, height_rows as int),
            width_columns as int,
            height_rows as int,
        ),
{
    let size = avatar_preview_size(width_columns, height_rows);
    let chars = str_chars(url);
    let prefix = str_chars("https://cdn.discordapp.com/avatars/");
    if !starts_with_chars(&chars, &prefix) {
        return string_from_chars(chars.as_slice());
    }
    let q = index_of_char(&chars, '?', 0);
    let base = slice_chars(&chars, 0, q);
    let query = if q < chars.len() {
        slice_chars(&chars, q + 1, chars.len())
    } else {
        Vec::new()
    };
    proof {
        assert(base@ =~= chars@.take(q as int));
        if q < chars@.len() {
            assert(query@ =~= chars@.skip(q + 1));
        } else {
            assert(query@ =~= Seq::<char>::empty());
        }
    }
    let bounds = piece_bounds(&query, '&');
    let ghost pieces = split_pieces(query@, '&');
    let size_key = str_chars("size");
    let mut out: Vec<char> = Vec::new();
    push_chars(&mut out, &base);
    push_str(&mut out, "?");
    let ghost prefix_part = out@;
    let mut any = false;
    let mut k: usize = 0;
    while k < bounds.len()
        invariant
            pieces == split_pieces(query@, '&'),
            bounds@.len() == pieces.len(),
            forall|m: int|
                0 <= m < bounds@.len() ==> {
                    let (a, b) = #[trigger] bounds@[m];
                    &&& a <= b <= query@.len()
                    &&& query@.subrange(a as int, b as int) == pieces[m]
                },
            size_key@ == "size"@,
            k <= bounds@.len(),
            any == (kept_params(pieces.take(k as int)).len() > 0),
            out@ == prefix_part + join_with(kept_params(pieces.take(k as int)), "&"@),
        decreases bounds@.len() - k,
    {
        let (a, b) = bounds[k];
        let param = slice_chars(&query, a, b);
        let eq_at = index_of_char(&param, '=', 0);
        let key = slice_chars(&param, 0, eq_at);
        proof {
            assert(pieces.take(k + 1).drop_last() =~= pieces.take(k as int));
            assert(pieces.take(k + 1).last() == pieces[k as int]);
            assert(key@ =~= param_key(param@));
        }
        if param.len() > 0 && !chars_eq(&key, &size_key) {
            proof {
                lemma_join_push(kept_params(pieces.take(k as int)), "&"@, param@);
                reveal_strlit("&");
            }
            if any {
                push_str(&mut out, "&");
            }
            push_chars(&mut out, &param);
            any = true;
            proof {
                assert(out@ =~= prefix_part + join_with(kept_params(pieces.take(k + 1)), "&"@));
            }
        }
        k = k + 1;
    }
    proof {
        assert(pieces.take(pieces.len() as int) =~= pieces);
    }
    let ghost kept = kept_params(pieces);
    let mut size_param: Vec<char> = Vec::new();
    push_str(&mut size_param, "size=");
    push_decimal(&mut size_param, size);
    proof {
        lemma_join_push(kept, "&"@, size_param@);
        reveal_strlit("&");
    }
    if any {
        push_str(&mut out, "&");
    }
    push_chars(&mut out, &size_param);
    proof {
        assert(out@ =~= avatar_url_for(url@, size as int));
    }
    string_from_chars(out.as_slice())
}

/// Cells (columns) of a message pane avatar.
pub const AVATAR_PREVIEW_WIDTH: u16 = 4;

/// Cells (rows) of a message pane avatar.
pub const AVATAR_PREVIEW_HEIGHT: u16 = 2;

/// Cells (columns) of the profile popup avatar.
pub const PROFILE_POPUP_AVATAR_WIDTH: u16 = 8;

/// Cells (rows) of the profile popup avatar.
pub const PROFILE_POPUP_AVATAR_HEIGHT: u16 = 4;

/// Where and how an image preview is drawn, in terminal cells.
#[derive(Clone, Copy, Debug, PartialEq, Eq, Structural)]
pub struct ImagePreviewRenderInfo {
    pub viewer: bool,
    pub message_index: usize,
    pub preview_x_offset_columns: u16,
    pub preview_y_offset_rows: usize,
    pub preview_width: u16,
    pub preview_height: u16,
    pub visible_preview_height: u16,
    pub top_clip_rows: u16,
    pub accent_color: Option<u32>,
    pub show_play_marker: bool,
    pub mask_circular: bool,
}

/// A whole, unclipped preview of `preview_width` by `preview_height` cells drawn on
/// its own.
pub open spec fn fixed_render_info(preview_width: u16, preview_height: u16) -> ImagePreviewRenderInfo {
    ImagePreviewRenderInfo {
        viewer: false,
        message_index: 0,
        preview_x_offset_columns: 0,
        preview_y_offset_rows: 0,
        preview_width,
        preview_height,
        visible_preview_height: preview_height,
        top_clip_rows: 0,
        accent_color: None,
        show_play_marker: false,
        mask_circular: false,
    }
}

/// A whole, unclipped preview of `preview_width` by `preview_height` cells.
pub fn fixed_image_preview_render_info(preview_width: u16, preview_height: u16) -> (r:
    ImagePreviewRenderInfo)
    ensures
        r == fixed_render_info(preview_width, preview_height),
{
    ImagePreviewRenderInfo {
        viewer: false,
        message_index: 0,
        preview_x_offset_columns: 0,
        preview_y_offset_rows: 0,
        preview_width,
        preview_height,
        visible_preview_height: preview_height,
        top_clip_rows: 0,
        accent_color: None,
        show_play_marker: false,
        mask_circular: false,
    }
}

/// A message pane avatar to draw: its URL, row, and how much of it is visible.
#[derive(Clone, Debug)]
pub struct AvatarTarget {
    pub url: String,
    pub row: usize,
    pub visible_height: u16,
    pub top_clip_rows: u16,
}

/// Which rendering of an avatar a terminal protocol was made for.
#[derive(Clone, Copy, Debug, PartialEq, Eq, Structural)]
pub struct AvatarProtocolKey {
    pub preview_width: u16,
    pub preview_height: u16,
    pub visible_preview_height: u16,
    pub top_clip_rows: u16,
    pub circular: bool,
}

impl AvatarProtocolKey {
    /// The rendering of a message pane avatar, clipped as `target` is.
    pub fn message_avatar(target: &AvatarTarget, circular: bool) -> (r: AvatarProtocolKey)
        ensures
            r == (AvatarProtocolKey {
                preview_width: AVATAR_PREVIEW_WIDTH,
                preview_height: AVATAR_PREVIEW_HEIGHT,
                visible_preview_height: target.visible_height,
                top_clip_rows: target.top_clip_rows,
                circular,
            }),
    {
        AvatarProtocolKey {
            preview_width: AVATAR_PREVIEW_WIDTH,
            preview_height: AVATAR_PREVIEW_HEIGHT,
            visible_preview_height: target.visible_height,
            top_clip_rows: target.top_clip_rows,
            circular,
        }
    }

    /// The rendering of the profile popup avatar, shown whole.
    pub fn profile_popup(circular: bool) -> (r: AvatarProtocolKey)
        ensures
            r == (AvatarProtocolKey {
                preview_width: PROFILE_POPUP_AVATAR_WIDTH,
                preview_height: PROFILE_POPUP_AVATAR_HEIGHT,
                visible_preview_height: PROFILE_POPUP_AVATAR_HEIGHT,
                top_clip_rows: 0,
                circular,
            }),
    {
        AvatarProtocolKey {
            preview_width: PROFILE_POPUP_AVATAR_WIDTH,
            preview_height: PROFILE_POPUP_AVATAR_HEIGHT,
            visible_preview_height: PROFILE_POPUP_AVATAR_HEIGHT,
            top_clip_rows: 0,
            circular,
        }
    }

    /// How this rendering is drawn: clipped as the key says, masked to a circle when
    /// asked.
    pub fn render_info(self) -> (r: ImagePreviewRenderInfo)
        ensures
            r == (ImagePreviewRenderInfo {
                viewer: false,
                message_index: 0,
                preview_x_offset_columns: 0,
                preview_y_offset_rows: 0,
                preview_width: self.preview_width,
                preview_height: self.preview_height,
                visible_preview_height: self.visible_preview_height,
                top_clip_rows: self.top_clip_rows,
                accent_color: None,
                show_play_marker: false,
                mask_circular: self.circular,
            }),
    {
        ImagePreviewRenderInfo {
            viewer: false,
            message_index: 0,
            preview_x_offset_columns: 0,
            preview_y_offset_rows: 0,
            preview_width: self.preview_width,
            preview_height: self.preview_height,
            visible_preview_height: self.visible_preview_height,
            top_clip_rows: self.top_clip_rows,
            accent_color: None,
            show_play_marker: false,
            mask_circular: self.circular,
        }
    }
}

/// The pixel geometry of a clipped preview: the full canvas, and the rows kept of it.
#[derive(Clone, Copy, Debug, PartialEq, Eq, Structural)]
pub struct PreviewClip {
    pub full_width: u32,
    pub full_height: u32,
    pub crop_top: u32,
    pub crop_height: u32,
}

/// The pixel geometry of a preview drawn with cells of `font_size` pixels: `None`
/// when it has no visible area or its pixel sizes overflow.
pub open spec fn preview_clip_spec(font_size: (u16, u16), info: ImagePreviewRenderInfo) -> Option<PreviewClip> {
    let full_width = info.preview_width * font_size.0;
    let full_height = info.preview_height * font_size.1;
    let crop_top = info.top_clip_rows * font_size.1;
    let visible = info.visible_preview_height * font_size.1;
    let room = if full_height >= crop_top {
        full_height - crop_top
    } else {
        0
    };
    let crop_height = if visible < room {
        visible
    } else {
        room
    };
    if info.preview_width == 0 || info.preview_height == 0 || info.visible_preview_height == 0 {
        None
    } else if full_width > u32::MAX || full_height > u32::MAX || crop_top > u32::MAX || visible
        > u32::MAX {
        None
    } else if full_width == 0 || crop_height == 0 {
        None
    } else {
        Some(
            PreviewClip {
                full_width: full_width as u32,
                full_height: full_height as u32,
                crop_top: crop_top as u32,
                crop_height: crop_height as u32,
            },
        )
    }
}

fn mul_u32(a: u16, b: u16) -> (r: Option<u32>)
    ensures
        r == (if a * b > u32::MAX {
            None::<u32>
        } else {
            Some((a * b) as u32)
        }),
{
    (a as u32).checked_mul(b as u32)
}

/// The pixel geometry of a preview drawn with cells of `font_size` pixels, for the
/// image operations that fit, mark, crop and mask it.
pub fn clipped_preview_geometry(font_size: (u16, u16), render_info: ImagePreviewRenderInfo) -> (r:
    Option<PreviewClip>)
    ensures
        r == preview_clip_spec(font_size, render_info),
{
    if render_info.preview_width == 0 || render_info.preview_height == 0
        || render_info.visible_preview_height == 0 {
        return None;
    }
    let (font_width, font_height) = font_size;
    let full_width = match mul_u32(render_info.preview_width, font_width) {
        Some(v) => v,
        None => {
            return None;
        },
    };
    let full_height = match mul_u32(render_info.preview_height, font_height) {
        Some(v) => v,
        None => {
            return None;
        },
    };
    let crop_top = match mul_u32(render_info.top_clip_rows, font_height) {
        Some(v) => v,
        None => {
            return None;
        },
    };
    let visible = match mul_u32(render_info.visible_preview_height, font_height) {
        Some(v) => v,
        None => {
            return None;
        },
    };
    let room = full_height.saturating_sub(crop_top);
    let crop_height = if visible < room {
        visible
    } else {
        room
    };
    if full_width == 0 || crop_height == 0 {
        return None;
    }
    Some(PreviewClip { full_width, full_height, crop_top, crop_height })
}

/// A channel of `pixel` blended under `overlay`'s channel at `overlay`'s alpha,
/// rounded to the nearest value.
pub open spec fn blended_channel(pixel: u8, overlay: u8, alpha: u8) -> u8 {
    ((overlay * alpha + pixel * (255 - alpha) + 127) / 255) as u8
}

/// Blends the RGBA `overlay` over `pixel`: colors mix by the overlay's alpha and the
/// alpha becomes the larger of the two.
pub fn blend_pixel(pixel: &mut [u8; 4], overlay: [u8; 4])
    ensures
        final(pixel)@ == seq![
            blended_channel(old(pixel)@[0], overlay@[0], overlay@[3]),
            blended_channel(old(pixel)@[1], overlay@[1], overlay@[3]),
            blended_channel(old(pixel)@[2], overlay@[2], overlay@[3]),
            if old(pixel)@[3] >= overlay@[3] {
                old(pixel)@[3]
            } else {
                overlay@[3]
            },
        ],
{
    let alpha = overlay[3] as u16;
    let inverse_alpha = 255u16 - alpha;
    let ghost before = pixel@;
    let mut channel: usize = 0;
    while channel < 3
        invariant
            channel <= 3,
            alpha == overlay@[3],
            inverse_alpha == 255 - alpha,
            pixel@.len() == 4,
            forall|k: int| 0 <= k < channel ==> pixel@[k] == blended_channel(before[k], overlay@[k], overlay@[3]),
            forall|k: int| channel <= k < 4 ==> pixel@[k] == before[k],
        decreases 3 - channel,
    {
        let o = overlay[channel] as u16;
        let p = pixel[channel] as u16;
        proof {
            assert(o * alpha <= 255 * alpha) by (nonlinear_arith)
                requires
                    o <= 255,
            ;
            assert(p * inverse_alpha <= 255 * inverse_alpha) by (nonlinear_arith)
                requires
                    p <= 255,
            ;
        }
        let mixed = (o * alpha + p * inverse_alpha + 127) / 255;
        proof {
            assert(mixed <= 255) by (nonlinear_arith)
                requires
                    mixed == (o * alpha + p * inverse_alpha + 127) / 255,
                    o * alpha + p * inverse_alpha <= 255 * 255,
            ;
        }
        pixel.set(channel, mixed as u8);
        channel = channel + 1;
    }
    if pixel[3] < overlay[3] {
        pixel.set(3, overlay[3]);
    }
    proof {
        assert(pixel@ =~= seq![
            blended_channel(before[0], overlay@[0], overlay@[3]),
            blended_channel(before[1], overlay@[1], overlay@[3]),
            blended_channel(before[2], overlay@[2], overlay@[3]),
            if before[3] >= overlay@[3] {
                before[3]
            } else {
                overlay@[3]
            },
        ]);
    }
}


/// Cells (columns) of an emoji reaction thumbnail.
pub const EMOJI_REACTION_THUMB_WIDTH: u16 = 2;

/// Cells (rows) of an emoji reaction thumbnail.
pub const EMOJI_REACTION_THUMB_HEIGHT: u16 = 1;

/// The pixel canvas of an emoji thumbnail and the tallest the emoji is scaled to.
#[derive(Clone, Copy, Debug, PartialEq, Eq, Structural)]
pub struct EmojiCanvas {
    pub width: u32,
    pub height: u32,
    pub max_scaled_height: u32,
}

/// The canvas of an emoji thumbnail for cells of `font_size` pixels: the thumbnail's
/// cells, with the emoji scaled to at most three quarters of the height (at least one
/// pixel).
pub fn emoji_canvas_geometry(font_size: (u16, u16)) -> (r: EmojiCanvas)
    ensures
        r.width == EMOJI_REACTION_THUMB_WIDTH * font_size.0,
        r.height == font_size.1,
        r.max_scaled_height == if font_size.1 * 3 / 4 >= 1 {
            font_size.1 * 3 / 4
        } else {
            1
        },
{
    let width = (EMOJI_REACTION_THUMB_WIDTH as u32) * (font_size.0 as u32);
    let height = font_size.1 as u32;
    let scaled = height * 3 / 4;
    let max_scaled_height = if scaled >= 1 {
        scaled
    } else {
        1
    };
    EmojiCanvas { width, height, max_scaled_height }
}

/// Where an image of `inner` pixels starts when centered in `outer` pixels (at the
/// start when it does not fit).
pub fn centered_offset(outer: u32, inner: u32) -> (r: u32)
    ensures
        r == if outer > inner {
            (outer - inner) / 2
        } else {
            0
        },
        r + inner <= outer || r == 0,
{
    outer.saturating_sub(inner) / 2
}

/// Fewest pixels of the shorter side that get a play marker drawn over a video
/// preview.
pub const MIN_PLAY_MARKER_DIMENSION: u32 = 24;

/// Whether a video preview of `width` by `height` pixels is large enough for a play
/// marker.
pub fn shows_play_marker(width: u32, height: u32) -> (r: bool)
    ensures
        r == (width >= MIN_PLAY_MARKER_DIMENSION && height >= MIN_PLAY_MARKER_DIMENSION),
{
    let min_dimension = if width < height {
        width
    } else {
        height
    };
    min_dimension >= MIN_PLAY_MARKER_DIMENSION
}

} // verus!
