use vstd::prelude::*;

use crate::media_cache::{
    is_protected, saturating_next, CacheEntry, CacheEntryState, MediaImageCacheCore,
};
use crate::media::{
    avatar_preview_url, avatar_size_spec, avatar_url_for, AvatarProtocolKey, AvatarTarget,
    AVATAR_PREVIEW_HEIGHT, AVATAR_PREVIEW_WIDTH, PROFILE_POPUP_AVATAR_HEIGHT,
    PROFILE_POPUP_AVATAR_WIDTH,
};
use crate::state::AppCommand;

verus! {

/// Most emoji images kept; each is a small terminal protocol payload.
pub const MAX_EMOJI_IMAGE_CACHE_ENTRIES: usize = 128;

/// Most avatar images kept, keyed by their sized URL.
pub const MAX_AVATAR_IMAGE_CACHE_ENTRIES: usize = 32;

/// What the client reports about an image preview fetch.
#[derive(Debug)]
pub enum PreviewEvent {
    Loaded { url: String },
    LoadFailed { url: String },
    Other,
}

/// The URLs the given commands ask to load.
pub open spec fn load_urls(cmds: Seq<AppCommand>) -> Seq<Seq<char>> {
    cmds.map_values(|c: AppCommand| load_url_of(c))
}

/// The URL a preview load command asks for.
pub open spec fn load_url_of(c: AppCommand) -> Seq<char> {
    match c {
        AppCommand::LoadAttachmentPreview { url } => url@,
        _ => Seq::empty(),
    }
}

/// The URLs among `urls` (read in order) that are neither in `known` nor earlier in
/// `urls`: those a pass of fetch requests asks for.
pub open spec fn fresh_urls(known: Map<Seq<char>, CacheEntry>, urls: Seq<Seq<char>>) -> Seq<
    Seq<char>,
>
    decreases urls.len(),
{
    if urls.len() == 0 {
        Seq::empty()
    } else {
        let earlier = urls.drop_last();
        let u = urls.last();
        if known.contains_key(u) || earlier.contains(u) {
            fresh_urls(known, earlier)
        } else {
            fresh_urls(known, earlier).push(u)
        }
    }
}

/// The chars of each string.
pub open spec fn url_views(v: Seq<String>) -> Seq<Seq<char>> {
    v.map_values(|s: String| s@)
}

/// The URLs among `urls` whose entry is ready, in order.
pub open spec fn ready_urls(view: Map<Seq<char>, CacheEntry>, urls: Seq<Seq<char>>) -> Seq<
    Seq<char>,
>
    decreases urls.len(),
{
    if urls.len() == 0 {
        Seq::empty()
    } else {
        let rest = ready_urls(view, urls.drop_last());
        let u = urls.last();
        if view.contains_key(u) && view[u].state == CacheEntryState::Ready {
            rest.push(u)
        } else {
            rest
        }
    }
}

/// Whether `after` holds the entries of `before`, each with its state kept.
pub open spec fn same_entries_states(
    before: Map<Seq<char>, CacheEntry>,
    after: Map<Seq<char>, CacheEntry>,
) -> bool {
    &&& forall|k: Seq<char>| #[trigger] after.contains_key(k) <==> before.contains_key(k)
    &&& forall|k: Seq<char>| #[trigger] after.contains_key(k) ==> after[k].state == before[k].state
}

/// The entries and the clock after touching each of `urls` in order: every touch
/// advances the clock (it stops at its largest value), and an entry that is there is
/// marked as used at the new tick.
pub open spec fn touched(
    view: Map<Seq<char>, CacheEntry>,
    clock: u64,
    urls: Seq<Seq<char>>,
) -> (Map<Seq<char>, CacheEntry>, u64)
    decreases urls.len(),
{
    if urls.len() == 0 {
        (view, clock)
    } else {
        let (v, c) = touched(view, clock, urls.drop_last());
        let tick = saturating_next(c);
        let u = urls.last();
        if v.contains_key(u) {
            (v.insert(u, CacheEntry { state: v[u].state, last_used: tick }), tick)
        } else {
            (v, tick)
        }
    }
}

/// The chars of an optional URL, as a sequence of none or one.
pub open spec fn optional_url(u: Option<String>) -> Seq<Seq<char>> {
    match u {
        Some(q) => seq![q@],
        None => Seq::empty(),
    }
}

/// Touches each of `urls` in order, as a frame that draws them does.
fn touch_all(cache: &mut MediaImageCacheCore, urls: &Vec<String>)
    ensures
        (final(cache)@, final(cache).clock()) == touched(old(cache)@, old(cache).clock(), url_views(urls@)),
        same_entries_states(old(cache)@, final(cache)@),
        final(cache).size() == old(cache).size(),
        final(cache).generation() == old(cache).generation(),
        final(cache).clock() >= old(cache).clock(),
        forall|k: Seq<char>|
            #[trigger] final(cache)@.contains_key(k) && !url_views(urls@).contains(k) ==> final(cache)@[k] == old(cache)@[k],
        forall|k: Seq<char>|
            #[trigger] final(cache)@.contains_key(k) && url_views(urls@).contains(k) ==> (final(cache)@[k].last_used > old(cache).clock() || old(cache).clock() == u64::MAX),
{
    let ghost start = cache@;
    let ghost start_clock = cache.clock();
    let mut i: usize = 0;
    while i < urls.len()
        invariant
            i <= urls@.len(),
            same_entries_states(start, cache@),
            cache.size() == old(cache).size(),
            cache.generation() == old(cache).generation(),
            start == old(cache)@,
            start_clock == old(cache).clock(),
            (cache@, cache.clock()) == touched(start, start_clock, url_views(urls@.take(i as int))),
            cache.clock() >= start_clock,
            cache.clock() > start_clock || start_clock == u64::MAX || i == 0,
            forall|k: Seq<char>|
                #[trigger] cache@.contains_key(k) && !url_views(urls@.take(i as int)).contains(k)
                    ==> cache@[k] == start[k],
            forall|k: Seq<char>|
                #[trigger] cache@.contains_key(k) && url_views(urls@.take(i as int)).contains(k)
                    ==> (cache@[k].last_used > start_clock || start_clock == u64::MAX),
        decreases urls@.len() - i,
    {
        let ghost before = cache@;
        cache.touch(urls[i].as_str());
        proof {
            let prev = url_views(urls@.take(i as int));
            let now = url_views(urls@.take(i + 1));
            assert(now =~= prev.push(urls@[i as int]@));
            assert(now.drop_last() =~= prev);
            assert forall|k: Seq<char>| #[trigger]
                cache@.contains_key(k) && now.contains(k) implies (cache@[k].last_used
                > start_clock || start_clock == u64::MAX) by {
                if k == urls@[i as int]@ {
                } else {
                    let j = choose|j: int| 0 <= j < now.len() && #[trigger] now[j] == k;
                    assert(prev[j] == k);
                }
            }
            assert forall|k: Seq<char>| #[trigger]
                cache@.contains_key(k) && !now.contains(k) implies cache@[k] == start[k] by {
                assert(k != urls@[i as int]@) by {
                    assert(now[i as int] == urls@[i as int]@);
                }
                if prev.contains(k) {
                    let j = choose|j: int| 0 <= j < prev.len() && #[trigger] prev[j] == k;
                    assert(now[j] == k);
                }
            }
        }
        i = i + 1;
    }
    proof {
        assert(urls@.take(i as int) =~= urls@);
    }
}

/// Emoji images keyed by URL: fetch requests, decode bookkeeping and eviction.
pub struct EmojiImageCache {
    /// A terminal image protocol is available.
    pub picker_available: bool,
    pub cache: MediaImageCacheCore,
}

impl EmojiImageCache {
    /// An empty emoji cache.
    pub fn new(picker_available: bool) -> (r: EmojiImageCache)
        ensures
            r.picker_available == picker_available,
            r.cache@ == Map::<Seq<char>, CacheEntry>::empty(),
            r.cache.size() == 0,
    {
        EmojiImageCache { picker_available, cache: MediaImageCacheCore::new() }
    }

    /// Marks the targets of this frame as used and returns those that can be drawn,
    /// in target order.
    pub fn render_state(&mut self, urls: &Vec<String>) -> (r: Vec<String>)
        ensures
            same_entries_states(old(self).cache@, final(self).cache@),
            final(self).picker_available == old(self).picker_available,
            forall|k: Seq<char>|
                #[trigger] final(self).cache@.contains_key(k) && url_views(urls@).contains(k) ==> (
                final(self).cache@[k].last_used > old(self).cache.clock() || old(self).cache.clock()
                    == u64::MAX),
            url_views(r@) == ready_urls(final(self).cache@, url_views(urls@)),
            (final(self).cache@, final(self).cache.clock()) == touched(
                old(self).cache@,
                old(self).cache.clock(),
                url_views(urls@),
            ),
    {
        touch_all(&mut self.cache, urls);
        let mut ready: Vec<String> = Vec::new();
        let mut i: usize = 0;
        while i < urls.len()
            invariant
                i <= urls@.len(),
                url_views(ready@) == ready_urls(self.cache@, url_views(urls@.take(i as int))),
            decreases urls@.len() - i,
        {
            let entry = self.cache.get(urls[i].as_str());
            proof {
                assert(url_views(urls@.take(i + 1)).drop_last() =~= url_views(urls@.take(i as int)));
                assert(url_views(urls@.take(i + 1)).last() == urls@[i as int]@);
            }
            match entry {
                Some(e) => {
                    if e.state == CacheEntryState::Ready {
                        let u = urls[i].clone();
                        proof {
                            assert(url_views(ready@.push(u)) =~= url_views(ready@).push(u@));
                        }
                        ready.push(u);
                    }
                },
                None => {},
            }
            i = i + 1;
        }
        proof {
            assert(urls@.take(i as int) =~= urls@);
        }
        ready
    }

    /// Asks for the emoji images of this frame that are not cached yet (at most the
    /// cache's capacity of targets is considered), then evicts old entries.
    pub fn next_requests(&mut self, urls: &Vec<String>) -> (r: Vec<AppCommand>)
        ensures
            !old(self).picker_available ==> r@.len() == 0 && final(self).cache@ == old(self).cache@,
            old(self).picker_available ==> load_urls(r@) == fresh_urls(
                old(self).cache@,
                url_views(urls@).take(
                    if urls@.len() < MAX_EMOJI_IMAGE_CACHE_ENTRIES {
                        urls@.len() as int
                    } else {
                        MAX_EMOJI_IMAGE_CACHE_ENTRIES as int
                    },
                ),
            ),
            forall|i: int| 0 <= i < r@.len() ==> #[trigger] r@[i] is LoadAttachmentPreview,
            forall|k: Seq<char>|
                #[trigger] final(self).cache@.contains_key(k) ==> old(self).cache@.contains_key(k)
                    || load_urls(r@).contains(k),
            forall|i: int|
                0 <= i < r@.len() ==> final(self).cache@.contains_key(#[trigger] load_urls(r@)[i])
                    && final(self).cache@[load_urls(r@)[i]].state == CacheEntryState::Loading,
            old(self).picker_available ==> forall|m: int|
                0 <= m < urls@.len() && m < MAX_EMOJI_IMAGE_CACHE_ENTRIES
                    ==> final(self).cache@.contains_key(#[trigger] url_views(urls@)[m]),
            final(self).picker_available == old(self).picker_available,
    {
        let mut intents: Vec<AppCommand> = Vec::new();
        if !self.picker_available {
            return intents;
        }
        let n = if urls.len() < MAX_EMOJI_IMAGE_CACHE_ENTRIES {
            urls.len()
        } else {
            MAX_EMOJI_IMAGE_CACHE_ENTRIES
        };
        let ghost start = self.cache@;
        let ghost targets = url_views(urls@).take(n as int);
        let mut i: usize = 0;
        while i < n
            invariant
                n <= urls@.len(),
                targets == url_views(urls@).take(n as int),
                i <= n,
                load_urls(intents@) == fresh_urls(start, targets.take(i as int)),
                forall|j: int| 0 <= j < intents@.len() ==> #[trigger] intents@[j] is LoadAttachmentPreview,
                forall|k: Seq<char>|
                    #[trigger] self.cache@.contains_key(k) <==> (start.contains_key(k)
                        || targets.take(i as int).contains(k)),
                forall|k: Seq<char>|
                    #[trigger] self.cache@.contains_key(k) && start.contains_key(k) ==> self.cache@[k]
                        == start[k],
                forall|k: Seq<char>|
                    #[trigger] self.cache@.contains_key(k) && !start.contains_key(k) ==> self.cache@[k].state
                        == CacheEntryState::Loading,
                forall|k: Seq<char>|
                    #[trigger] fresh_urls(start, targets.take(i as int)).contains(k) ==> !start.contains_key(k)
                        && targets.take(i as int).contains(k),
                forall|k: Seq<char>|
                    #[trigger] targets.take(i as int).contains(k) && !start.contains_key(k)
                        ==> fresh_urls(start, targets.take(i as int)).contains(k),
                self.picker_available,
            decreases n - i,
        {
            let url = urls[i].clone();
            let ghost u = url@;
            let ghost was_known = self.cache@.contains_key(u);
            proof {
                assert(targets.take(i + 1).drop_last() =~= targets.take(i as int));
                assert(targets.take(i + 1).last() == u);
            }
            if self.cache.insert_loading(url) {
                let cmd_url = urls[i].clone();
                proof {
                    assert(load_urls(intents@.push(AppCommand::LoadAttachmentPreview { url: cmd_url }))
                        =~= load_urls(intents@).push(u));
                }
                intents.push(AppCommand::LoadAttachmentPreview { url: cmd_url });
            }
            proof {
                let prev_t = targets.take(i as int);
                let next_t = targets.take(i + 1);
                assert forall|k: Seq<char>| #[trigger]
                    fresh_urls(start, next_t).contains(k) implies !start.contains_key(k)
                    && next_t.contains(k) by {
                    if fresh_urls(start, prev_t).contains(k) {
                        let j = choose|j: int| 0 <= j < prev_t.len() && #[trigger] prev_t[j] == k;
                        assert(next_t[j] == k);
                    } else {
                        assert(k == u);
                        assert(next_t[i as int] == k);
                    }
                }
                assert forall|k: Seq<char>| #[trigger] self.cache@.contains_key(k) <==> (start.contains_key(k)
                    || next_t.contains(k)) by {
                    if next_t.contains(k) && k != u {
                        let j = choose|j: int| 0 <= j < next_t.len() && #[trigger] next_t[j] == k;
                        assert(j != i);
                        assert(prev_t[j] == k);
                    }
                    if prev_t.contains(k) {
                        let j = choose|j: int| 0 <= j < prev_t.len() && #[trigger] prev_t[j] == k;
                        assert(next_t[j] == k);
                    }
                    if k == u {
                        assert(next_t[i as int] == k);
                    }
                }
                let fresh_prev = fresh_urls(start, prev_t);
                let fresh_next = fresh_urls(start, next_t);
                assert forall|k: Seq<char>| #[trigger] fresh_prev.contains(k) implies fresh_next.contains(k) by {
                    let j = choose|j: int| 0 <= j < fresh_prev.len() && #[trigger] fresh_prev[j] == k;
                    assert(fresh_next[j] == k);
                }
                assert forall|k: Seq<char>| #[trigger] next_t.contains(k) && !start.contains_key(k)
                    implies fresh_next.contains(k) by {
                    if prev_t.contains(k) {
                        assert(fresh_prev.contains(k));
                    } else {
                        let j = choose|j: int| 0 <= j < next_t.len() && #[trigger] next_t[j] == k;
                        if j < i {
                            assert(prev_t[j] == k);
                        }
                        assert(k == u);
                        assert(fresh_next[fresh_next.len() - 1] == k);
                    }
                }
            }
            i = i + 1;
        }
        proof {
            assert(targets.take(n as int) =~= targets);
        }
        let ghost before_prune = self.cache@;
        let ghost requested = load_urls(intents@);
        proof {
            assert forall|j: int| 0 <= j < requested.len() implies before_prune.contains_key(
                #[trigger] requested[j],
            ) && is_protected(self.protected_targets_view(urls@), requested[j]) by {
                assert(requested.contains(requested[j]));
                let k = requested[j];
                assert(targets.contains(k));
                let m = choose|m: int| 0 <= m < targets.len() && #[trigger] targets[m] == k;
                assert(urls@[m]@ == k);
                assert(self.protected_targets_view(urls@)[m]@ == k);
            }
        }
        proof {
            assert forall|m: int| 0 <= m < n implies before_prune.contains_key(
                #[trigger] url_views(urls@)[m],
            ) && is_protected(self.protected_targets_view(urls@), url_views(urls@)[m]) by {
                assert(targets[m] == url_views(urls@)[m]);
                assert(targets.contains(url_views(urls@)[m]));
                assert(self.protected_targets_view(urls@)[m]@ == url_views(urls@)[m]);
            }
        }
        self.prune_to_limit(urls);
        proof {
            assert forall|j: int| 0 <= j < requested.len() implies self.cache@.contains_key(
                #[trigger] requested[j],
            ) && self.cache@[requested[j]].state == CacheEntryState::Loading by {
                let k = requested[j];
                assert(fresh_urls(start, targets).contains(k)) by {
                    assert(fresh_urls(start, targets)[j] == k);
                }
            }
        }
        intents
    }

    /// The URLs this frame protects from eviction: its first targets, up to the cache's
    /// capacity.
    pub open spec fn protected_targets_view(&self, urls: Seq<String>) -> Seq<String> {
        urls.take(
            if urls.len() < MAX_EMOJI_IMAGE_CACHE_ENTRIES {
                urls.len() as int
            } else {
                MAX_EMOJI_IMAGE_CACHE_ENTRIES as int
            },
        )
    }

    /// Evicts least recently used entries beyond the capacity, never one of this
    /// frame's first targets (up to the capacity), so what is on screen stays.
    pub fn prune_to_limit(&mut self, urls: &Vec<String>)
        ensures
            final(self).picker_available == old(self).picker_available,
            old(self).cache.size() <= MAX_EMOJI_IMAGE_CACHE_ENTRIES ==> final(self).cache == old(self).cache,
            forall|k: Seq<char>|
                #[trigger] final(self).cache@.contains_key(k) ==> old(self).cache@.contains_key(k)
                    && final(self).cache@[k] == old(self).cache@[k],
            forall|k: Seq<char>|
                old(self).cache@.contains_key(k) && !final(self).cache@.contains_key(k)
                    ==> !is_protected(old(self).protected_targets_view(urls@), k),
            final(self).cache.size() > MAX_EMOJI_IMAGE_CACHE_ENTRIES ==> forall|k: Seq<char>|
                #[trigger] final(self).cache@.contains_key(k) ==> is_protected(
                    old(self).protected_targets_view(urls@),
                    k,
                ),
    {
        let n = if urls.len() < MAX_EMOJI_IMAGE_CACHE_ENTRIES {
            urls.len()
        } else {
            MAX_EMOJI_IMAGE_CACHE_ENTRIES
        };
        let mut protected: Vec<String> = Vec::new();
        let mut i: usize = 0;
        while i < n
            invariant
                n <= urls@.len(),
                i <= n,
                protected@ == urls@.take(i as int),
            decreases n - i,
        {
            protected.push(urls[i].clone());
            i = i + 1;
            proof {
                assert(protected@ =~= urls@.take(i as int));
            }
        }
        proof {
            assert(protected@ =~= self.protected_targets_view(urls@));
        }
        self.cache.prune_to_limit(MAX_EMOJI_IMAGE_CACHE_ENTRIES, &protected);
    }

    /// Takes a preview fetch event: fetched bytes start a decode job (its generation
    /// is returned), a failed fetch fails the entry.
    pub fn record_event(&mut self, event: &PreviewEvent) -> (r: Option<u64>)
        ensures
            final(self).picker_available == old(self).picker_available,
            match event {
                PreviewEvent::Loaded { url } => {
                    let loading = old(self).cache@.contains_key(url@) && old(self).cache@[url@].state
                        == CacheEntryState::Loading;
                    &&& !loading ==> r is None && final(self).cache == old(self).cache
                    &&& loading && old(self).picker_available ==> r == Some(
                        saturating_next(old(self).cache.generation()),
                    ) && final(self).cache@ == old(self).cache@.insert(
                        url@,
                        CacheEntry {
                            state: CacheEntryState::Decoding { generation: r->0 },
                            last_used: final(self).cache.clock(),
                        },
                    )
                    &&& loading && !old(self).picker_available ==> r is None && final(self).cache@
                        == old(self).cache@.insert(
                        url@,
                        CacheEntry {
                            state: CacheEntryState::Failed,
                            last_used: final(self).cache.clock(),
                        },
                    )
                },
                PreviewEvent::LoadFailed { url } => r is None && (old(self).cache@.contains_key(
                    url@,
                ) ==> final(self).cache@ == old(self).cache@.insert(
                    url@,
                    CacheEntry { state: CacheEntryState::Failed, last_used: final(self).cache.clock() },
                )) && (!old(self).cache@.contains_key(url@) ==> final(self).cache == old(self).cache),
                PreviewEvent::Other => r is None && final(self).cache == old(self).cache,
            },
    {
        match event {
            PreviewEvent::Loaded { url } => {
                self.cache.start_decode_job(url.as_str(), self.picker_available)
            },
            PreviewEvent::LoadFailed { url } => {
                self.cache.store_failed_if_present(url.as_str());
                None
            },
            PreviewEvent::Other => None,
        }
    }

    /// Takes the result of decode job `result_generation` for `url`: `built` says that
    /// the image decoded and a terminal protocol was made for it. A stale result
    /// changes nothing.
    pub fn store_decoded(&mut self, url: &str, result_generation: u64, built: bool)
        ensures
            final(self).picker_available == old(self).picker_available,
            (old(self).cache@.contains_key(url@) && old(self).cache@[url@].state
                == CacheEntryState::Decoding { generation: result_generation }) ==> final(self).cache@ == old(self).cache@.insert(
                url@,
                CacheEntry {
                    state: if built && old(self).picker_available {
                        CacheEntryState::Ready
                    } else {
                        CacheEntryState::Failed
                    },
                    last_used: final(self).cache.clock(),
                },
            ),
            !(old(self).cache@.contains_key(url@) && old(self).cache@[url@].state
                == CacheEntryState::Decoding { generation: result_generation }) ==> final(self).cache == old(self).cache,
    {
        let ready = built && self.picker_available;
        self.cache.store_decoded(url, result_generation, ready);
    }
}

/// Avatar images keyed by the sized URL fetched for them: fetch requests for the
/// message pane and the profile popup, decode bookkeeping and eviction.
pub struct AvatarImageCache {
    /// A terminal image protocol is available.
    pub picker_available: bool,
    pub cache: MediaImageCacheCore,
    /// The sized URL of the avatar the profile popup shows.
    pub active_popup_avatar_url: Option<String>,
}

impl AvatarImageCache {
    /// The URL fetched for a message pane avatar of `url`.
    pub open spec fn message_avatar_url(&self, url: Seq<char>) -> Seq<char> {
        avatar_url_for(
            url,
            avatar_size_spec(AVATAR_PREVIEW_WIDTH as int, AVATAR_PREVIEW_HEIGHT as int),
        )
    }

    /// The URL fetched for the profile popup avatar of `url`.
    pub open spec fn popup_avatar_url(&self, url: Seq<char>) -> Seq<char> {
        avatar_url_for(
            url,
            avatar_size_spec(PROFILE_POPUP_AVATAR_WIDTH as int, PROFILE_POPUP_AVATAR_HEIGHT as int),
        )
    }

    /// How many of `urls` a frame considers: at most the cache's capacity.
    pub open spec fn considered(urls: Seq<String>) -> int {
        if urls.len() < MAX_AVATAR_IMAGE_CACHE_ENTRIES {
            urls.len() as int
        } else {
            MAX_AVATAR_IMAGE_CACHE_ENTRIES as int
        }
    }

    /// Whether `key` is kept from eviction for a frame with avatar `urls`: it is the
    /// sized URL of one of the first targets, or the popup avatar's.
    pub open spec fn guarded(&self, urls: Seq<String>, key: Seq<char>) -> bool {
        ||| exists|m: int|
            0 <= m < Self::considered(urls) && #[trigger] self.message_avatar_url(urls[m]@) == key
        ||| self.active_popup_avatar_url matches Some(p) && p@ == key
    }

    /// Whether `key` is the sized URL of one of the first targets among `urls`.
    pub open spec fn is_target_url(&self, urls: Seq<String>, key: Seq<char>) -> bool {
        exists|m: int|
            0 <= m < Self::considered(urls) && #[trigger] self.message_avatar_url(urls[m]@) == key
    }

    /// An empty avatar cache.
    pub fn new(picker_available: bool) -> (r: AvatarImageCache)
        ensures
            r.picker_available == picker_available,
            r.cache@ == Map::<Seq<char>, CacheEntry>::empty(),
            r.active_popup_avatar_url is None,
    {
        AvatarImageCache { picker_available, cache: MediaImageCacheCore::new(), active_popup_avatar_url: None }
    }

    fn message_url(&self, url: &str) -> (r: String)
        ensures
            r@ == self.message_avatar_url(url@),
    {
        avatar_preview_url(url, AVATAR_PREVIEW_WIDTH, AVATAR_PREVIEW_HEIGHT)
    }

    /// Marks the avatars of this frame as used and records the popup's avatar: returns
    /// the sized URLs of the message avatars, in order, and of the popup avatar.
    pub fn touch_render_targets(&mut self, urls: &Vec<String>, popup_url: Option<&str>) -> (r: (
        Vec<String>,
        Option<String>,
    ))
        ensures
            same_entries_states(old(self).cache@, final(self).cache@),
            r.0@.len() == urls@.len(),
            forall|i: int|
                0 <= i < urls@.len() ==> #[trigger] r.0@[i]@ == old(self).message_avatar_url(
                    urls@[i]@,
                ),
            match popup_url {
                Some(p) => r.1 matches Some(q) && q@ == old(self).popup_avatar_url(p@),
                None => r.1 is None,
            },
            final(self).active_popup_avatar_url == r.1,
            final(self).picker_available == old(self).picker_available,
            (final(self).cache@, final(self).cache.clock()) == touched(
                old(self).cache@,
                old(self).cache.clock(),
                url_views(r.0@) + optional_url(r.1),
            ),
    {
        let mut sized: Vec<String> = Vec::new();
        let mut i: usize = 0;
        while i < urls.len()
            invariant
                i <= urls@.len(),
                sized@.len() == i,
                forall|j: int|
                    0 <= j < i ==> #[trigger] sized@[j]@ == self.message_avatar_url(urls@[j]@),
                same_entries_states(old(self).cache@, self.cache@),
                self.picker_available == old(self).picker_available,
                self.active_popup_avatar_url == old(self).active_popup_avatar_url,
                (self.cache@, self.cache.clock()) == touched(
                    old(self).cache@,
                    old(self).cache.clock(),
                    url_views(sized@),
                ),
            decreases urls@.len() - i,
        {
            let url = self.message_url(urls[i].as_str());
            self.cache.touch(url.as_str());
            proof {
                assert(url_views(sized@.push(url)).drop_last() =~= url_views(sized@));
            }
            sized.push(url);
            i = i + 1;
        }
        let popup = match popup_url {
            Some(p) => Some(avatar_preview_url(p, PROFILE_POPUP_AVATAR_WIDTH, PROFILE_POPUP_AVATAR_HEIGHT)),
            None => None,
        };
        self.active_popup_avatar_url = match &popup {
            Some(p) => Some(p.clone()),
            None => None,
        };
        match &popup {
            Some(p) => {
                self.cache.touch(p.as_str());
                proof {
                    assert((url_views(sized@) + seq![p@]).drop_last() =~= url_views(sized@));
                }
            },
            None => {
                proof {
                    assert(url_views(sized@) + Seq::<Seq<char>>::empty() =~= url_views(sized@));
                }
            },
        }
        (sized, popup)
    }

    /// Evicts least recently used avatars beyond the capacity, never one of this
    /// frame's first targets or the popup's.
    pub fn prune_to_limit(&mut self, urls: &Vec<String>)
        ensures
            final(self).picker_available == old(self).picker_available,
            final(self).active_popup_avatar_url == old(self).active_popup_avatar_url,
            old(self).cache.size() <= MAX_AVATAR_IMAGE_CACHE_ENTRIES ==> final(self).cache == old(
                self).cache,
            forall|k: Seq<char>|
                #[trigger] final(self).cache@.contains_key(k) ==> old(self).cache@.contains_key(k)
                    && final(self).cache@[k] == old(self).cache@[k],
            forall|k: Seq<char>|
                old(self).cache@.contains_key(k) && !final(self).cache@.contains_key(k)
                    ==> !old(self).guarded(urls@, k),
            final(self).cache.size() > MAX_AVATAR_IMAGE_CACHE_ENTRIES ==> forall|k: Seq<char>|
                #[trigger] final(self).cache@.contains_key(k) ==> old(self).guarded(urls@, k),
    {
        let n = if urls.len() < MAX_AVATAR_IMAGE_CACHE_ENTRIES {
            urls.len()
        } else {
            MAX_AVATAR_IMAGE_CACHE_ENTRIES
        };
        let mut protected: Vec<String> = Vec::new();
        let mut i: usize = 0;
        while i < n
            invariant
                n == Self::considered(urls@),
                n <= urls@.len(),
                i <= n,
                protected@.len() == i,
                forall|j: int|
                    0 <= j < i ==> #[trigger] protected@[j]@ == self.message_avatar_url(urls@[j]@),
            decreases n - i,
        {
            protected.push(self.message_url(urls[i].as_str()));
            i = i + 1;
        }
        match &self.active_popup_avatar_url {
            Some(p) => protected.push(p.clone()),
            None => {},
        }
        proof {
            assert forall|k: Seq<char>| #[trigger] is_protected(protected@, k) <==> self.guarded(
                urls@,
                k,
            ) by {
                if is_protected(protected@, k) {
                    let j = choose|j: int| 0 <= j < protected@.len() && #[trigger] protected@[j]@ == k;
                    if j < n {
                        assert(self.message_avatar_url(urls@[j]@) == k);
                    }
                }
                if exists|m: int|
                    0 <= m < Self::considered(urls@) && #[trigger] self.message_avatar_url(urls@[m]@)
                        == k {
                    let m = choose|m: int|
                        0 <= m < Self::considered(urls@) && #[trigger] self.message_avatar_url(
                            urls@[m]@,
                        ) == k;
                    assert(protected@[m]@ == k);
                }
                if self.active_popup_avatar_url matches Some(p) && p@ == k {
                    assert(protected@[n as int]@ == k);
                }
            }
        }
        let ghost before = self.cache@;
        self.cache.prune_to_limit(MAX_AVATAR_IMAGE_CACHE_ENTRIES, &protected);
        proof {
            assert forall|k: Seq<char>|
                before.contains_key(k) && !self.cache@.contains_key(k) implies !old(self).guarded(
                urls@,
                k,
            ) by {
                assert(!is_protected(protected@, k));
            }
        }
    }

    /// Asks for the avatar at the sized URL `url` unless it is cached, evicting old
    /// entries after adding it.
    pub fn next_request_for_cache_url(&mut self, url: &str) -> (r: Option<AppCommand>)
        ensures
            match r {
                Some(cmd) => !old(self).cache@.contains_key(url@) && (cmd matches AppCommand::LoadAttachmentPreview { url: u } && u@ == url@),
                None => old(self).cache@.contains_key(url@) && final(self).cache@ == old(self).cache@,
            },
            forall|k: Seq<char>|
                #[trigger] final(self).cache@.contains_key(k) ==> old(self).cache@.contains_key(k)
                    || k == url@,
            final(self).picker_available == old(self).picker_available,
            final(self).active_popup_avatar_url == old(self).active_popup_avatar_url,
    {
        let key = String::from_str(url);
        if self.cache.insert_loading(key) {
            let none: Vec<String> = Vec::new();
            self.prune_to_limit(&none);
            return Some(AppCommand::LoadAttachmentPreview { url: String::from_str(url) });
        }
        None
    }

    /// Asks for the profile popup avatar of `url` unless it is cached.
    pub fn next_request_for_url(&mut self, url: &str) -> (r: Option<AppCommand>)
        ensures
            match r {
                Some(cmd) => !old(self).cache@.contains_key(old(self).popup_avatar_url(url@))
                    && (cmd matches AppCommand::LoadAttachmentPreview { url: u } && u@
                    == old(self).popup_avatar_url(url@)),
                None => old(self).cache@.contains_key(old(self).popup_avatar_url(url@)),
            },
    {
        let sized = avatar_preview_url(url, PROFILE_POPUP_AVATAR_WIDTH, PROFILE_POPUP_AVATAR_HEIGHT);
        self.next_request_for_cache_url(sized.as_str())
    }

    /// Asks for the message avatars of this frame that are not cached (at most the
    /// cache's capacity of targets is considered), then evicts old entries.
    pub fn next_requests(&mut self, urls: &Vec<String>) -> (r: Vec<AppCommand>)
        ensures
            forall|i: int| 0 <= i < r@.len() ==> #[trigger] r@[i] is LoadAttachmentPreview,
            forall|i: int|
                0 <= i < r@.len() ==> old(self).is_target_url(urls@, #[trigger] load_urls(r@)[i]),
            forall|m: int|
                0 <= m < Self::considered(urls@) && !old(self).cache@.contains_key(
                    #[trigger] old(self).message_avatar_url(urls@[m]@),
                ) ==> load_urls(r@).contains(old(self).message_avatar_url(urls@[m]@)),
            final(self).picker_available == old(self).picker_available,
            final(self).active_popup_avatar_url == old(self).active_popup_avatar_url,
    {
        let n = if urls.len() < MAX_AVATAR_IMAGE_CACHE_ENTRIES {
            urls.len()
        } else {
            MAX_AVATAR_IMAGE_CACHE_ENTRIES
        };
        let ghost start = self.cache@;
        let mut intents: Vec<AppCommand> = Vec::new();
        let mut i: usize = 0;
        while i < n
            invariant
                n == Self::considered(urls@),
                n <= urls@.len(),
                i <= n,
                start == old(self).cache@,
                self.picker_available == old(self).picker_available,
                self.active_popup_avatar_url == old(self).active_popup_avatar_url,
                forall|j: int| 0 <= j < intents@.len() ==> #[trigger] intents@[j] is LoadAttachmentPreview,
                forall|j: int|
                    0 <= j < intents@.len() ==> exists|m: int|
                        0 <= m < i && old(self).message_avatar_url(urls@[m]@)
                            == #[trigger] load_urls(intents@)[j],
                forall|k: Seq<char>|
                    #[trigger] self.cache@.contains_key(k) ==> start.contains_key(k) || exists|m: int|
                        0 <= m < i && #[trigger] old(self).message_avatar_url(urls@[m]@) == k,
                forall|m: int|
                    0 <= m < i && !start.contains_key(#[trigger] old(self).message_avatar_url(urls@[m]@))
                        ==> load_urls(intents@).contains(old(self).message_avatar_url(urls@[m]@)),
            decreases n - i,
        {
            let url = self.message_url(urls[i].as_str());
            let ghost u = url@;
            let ghost before = load_urls(intents@);
            let ghost seen = exists|m: int| 0 <= m < i && #[trigger] old(self).message_avatar_url(urls@[m]@) == u;
            let ghost prev_cache = self.cache@;
            match self.next_request_for_cache_url(url.as_str()) {
                Some(cmd) => {
                    proof {
                        assert(load_urls(intents@.push(cmd)) =~= before.push(u));
                    }
                    intents.push(cmd);
                },
                None => {},
            }
            proof {
                assert forall|k: Seq<char>| #[trigger] self.cache@.contains_key(k) implies start.contains_key(k)
                    || exists|m: int| 0 <= m < i + 1 && #[trigger] old(self).message_avatar_url(urls@[m]@) == k by {
                    if k == u {
                        assert(old(self).message_avatar_url(urls@[i as int]@) == k);
                    } else {
                        assert(prev_cache.contains_key(k));
                    }
                }
                let now = load_urls(intents@);
                assert forall|j: int| 0 <= j < intents@.len() implies exists|m: int|
                    0 <= m < i + 1 && old(self).message_avatar_url(urls@[m]@) == #[trigger] now[j] by {
                    if j < before.len() {
                        assert(now[j] == before[j]);
                        let m = choose|m: int| 0 <= m < i && old(self).message_avatar_url(urls@[m]@) == #[trigger] before[j];
                    } else {
                        assert(now[j] == u);
                        assert(old(self).message_avatar_url(urls@[i as int]@) == u);
                    }
                }
                assert forall|m: int| 0 <= m < i + 1 && !start.contains_key(#[trigger] old(self).message_avatar_url(urls@[m]@))
                    implies now.contains(old(self).message_avatar_url(urls@[m]@)) by {
                    if m < i {
                        let x = old(self).message_avatar_url(urls@[m]@);
                        let j = choose|j: int| 0 <= j < before.len() && before[j] == x;
                        assert(now[j] == x);
                    } else if !seen {
                        assert(now[now.len() - 1] == u);
                    } else {
                        let m2 = choose|m2: int| 0 <= m2 < i && #[trigger] old(self).message_avatar_url(urls@[m2]@) == u;
                        let j = choose|j: int| 0 <= j < before.len() && before[j] == u;
                        assert(now[j] == u);
                    }
                }
            }
            i = i + 1;
        }
        proof {
            let ls = load_urls(intents@);
            assert forall|j: int| 0 <= j < intents@.len() implies old(self).is_target_url(
                urls@,
                #[trigger] load_urls(intents@)[j],
            ) by {
                let m = choose|m: int|
                    0 <= m < i && old(self).message_avatar_url(urls@[m]@) == #[trigger] ls[j];
                assert(0 <= m < Self::considered(urls@));
            }
        }
        self.prune_to_limit(urls);
        intents
    }

    /// Takes a preview fetch event: fetched bytes start a decode job (its generation
    /// is returned), a failed fetch fails the entry.
    pub fn record_event(&mut self, event: &PreviewEvent) -> (r: Option<u64>)
        ensures
            final(self).picker_available == old(self).picker_available,
            final(self).active_popup_avatar_url == old(self).active_popup_avatar_url,
            match event {
                PreviewEvent::Loaded { url } => {
                    let loading = old(self).cache@.contains_key(url@) && old(self).cache@[url@].state
                        == CacheEntryState::Loading;
                    &&& !loading ==> r is None && final(self).cache == old(self).cache
                    &&& loading && old(self).picker_available ==> r == Some(
                        saturating_next(old(self).cache.generation()),
                    ) && final(self).cache@ == old(self).cache@.insert(
                        url@,
                        CacheEntry {
                            state: CacheEntryState::Decoding { generation: r->0 },
                            last_used: final(self).cache.clock(),
                        },
                    )
                    &&& loading && !old(self).picker_available ==> r is None && final(self).cache@
                        == old(self).cache@.insert(
                        url@,
                        CacheEntry {
                            state: CacheEntryState::Failed,
                            last_used: final(self).cache.clock(),
                        },
                    )
                },
                PreviewEvent::LoadFailed { url } => r is None && (old(self).cache@.contains_key(url@)
                    ==> final(self).cache@ == old(self).cache@.insert(
                    url@,
                    CacheEntry { state: CacheEntryState::Failed, last_used: final(self).cache.clock() },
                )) && (!old(self).cache@.contains_key(url@) ==> final(self).cache == old(self).cache),
                PreviewEvent::Other => r is None && final(self).cache == old(self).cache,
            },
    {
        match event {
            PreviewEvent::Loaded { url } => {
                self.cache.start_decode_job(url.as_str(), self.picker_available)
            },
            PreviewEvent::LoadFailed { url } => {
                self.cache.store_failed_if_present(url.as_str());
                None
            },
            PreviewEvent::Other => None,
        }
    }

    /// Takes the result of decode job `result_generation` for `key`: the avatar is
    /// ready when it decoded, failed otherwise; a stale result changes nothing.
    pub fn store_decoded(&mut self, key: &str, result_generation: u64, decoded: bool)
        ensures
            final(self).picker_available == old(self).picker_available,
            final(self).active_popup_avatar_url == old(self).active_popup_avatar_url,
            (old(self).cache@.contains_key(key@) && old(self).cache@[key@].state
                == CacheEntryState::Decoding { generation: result_generation }) ==> final(self).cache@
                == old(self).cache@.insert(
                key@,
                CacheEntry {
                    state: if decoded {
                        CacheEntryState::Ready
                    } else {
                        CacheEntryState::Failed
                    },
                    last_used: final(self).cache.clock(),
                },
            ),
            !(old(self).cache@.contains_key(key@) && old(self).cache@[key@].state
                == CacheEntryState::Decoding { generation: result_generation }) ==> final(self).cache
                == old(self).cache,
    {
        self.cache.store_decoded(key, result_generation, decoded);
    }
}


/// An avatar whose image is ready: where it is drawn, the cache URL of its image,
/// and the rendering it is drawn with.
#[derive(Debug)]
pub struct AvatarDraw {
    pub row: usize,
    pub visible_height: u16,
    pub url: String,
    pub key: AvatarProtocolKey,
}

impl AvatarDraw {
    /// This draw with its URL taken as chars.
    pub open spec fn view_tuple(self) -> (usize, u16, Seq<char>, AvatarProtocolKey) {
        (self.row, self.visible_height, self.url@, self.key)
    }
}

/// The drawn avatars, each taken by `view_tuple`.
pub open spec fn draw_views(v: Seq<AvatarDraw>) -> Seq<(usize, u16, Seq<char>, AvatarProtocolKey)> {
    v.map_values(|d: AvatarDraw| d.view_tuple())
}

/// The cache URL of a message pane avatar of `url`.
pub open spec fn message_cache_url(url: Seq<char>) -> Seq<char> {
    avatar_url_for(url, avatar_size_spec(AVATAR_PREVIEW_WIDTH as int, AVATAR_PREVIEW_HEIGHT as int))
}

/// The draw of message avatar `t`, masked to a circle when `circular`.
pub open spec fn message_draw(t: AvatarTarget, circular: bool) -> (usize, u16, Seq<char>, AvatarProtocolKey) {
    (
        t.row,
        t.visible_height,
        message_cache_url(t.url@),
        AvatarProtocolKey {
            preview_width: AVATAR_PREVIEW_WIDTH,
            preview_height: AVATAR_PREVIEW_HEIGHT,
            visible_preview_height: t.visible_height,
            top_clip_rows: t.top_clip_rows,
            circular,
        },
    )
}

/// The draws of the targets whose avatar image is ready in `view`, in target order.
pub open spec fn ready_message_draws(
    view: Map<Seq<char>, CacheEntry>,
    targets: Seq<AvatarTarget>,
    circular: bool,
) -> Seq<(usize, u16, Seq<char>, AvatarProtocolKey)>
    decreases targets.len(),
{
    if targets.len() == 0 {
        Seq::empty()
    } else {
        let rest = ready_message_draws(view, targets.drop_last(), circular);
        let u = message_cache_url(targets.last().url@);
        if view.contains_key(u) && view[u].state == CacheEntryState::Ready {
            rest.push(message_draw(targets.last(), circular))
        } else {
            rest
        }
    }
}

/// The draw of the profile popup avatar cached under `url`.
pub open spec fn popup_draw(url: Seq<char>, circular: bool) -> (usize, u16, Seq<char>, AvatarProtocolKey) {
    (
        0,
        PROFILE_POPUP_AVATAR_HEIGHT,
        url,
        AvatarProtocolKey {
            preview_width: PROFILE_POPUP_AVATAR_WIDTH,
            preview_height: PROFILE_POPUP_AVATAR_HEIGHT,
            visible_preview_height: PROFILE_POPUP_AVATAR_HEIGHT,
            top_clip_rows: 0,
            circular,
        },
    )
}

/// The cache URLs of the message avatars of `targets`, in order.
pub open spec fn message_cache_urls(targets: Seq<AvatarTarget>) -> Seq<Seq<char>> {
    targets.map_values(|t: AvatarTarget| message_cache_url(t.url@))
}

impl AvatarImageCache {
    /// Marks this frame's avatars and the popup's as used, records the popup avatar,
    /// and returns the avatars whose image is ready, in target order, and the
    /// popup's; nothing is drawn without a terminal image protocol.
    pub fn render_state_with_popup(
        &mut self,
        targets: &Vec<AvatarTarget>,
        popup_url: Option<&str>,
        circular: bool,
    ) -> (r: (Vec<AvatarDraw>, Option<AvatarDraw>))
        ensures
            same_entries_states(old(self).cache@, final(self).cache@),
            final(self).picker_available == old(self).picker_available,
            match popup_url {
                Some(p) => final(self).active_popup_avatar_url matches Some(q) && q@
                    == old(self).popup_avatar_url(p@),
                None => final(self).active_popup_avatar_url is None,
            },
            !old(self).picker_available ==> r.0@.len() == 0 && r.1 is None,
            old(self).picker_available ==> draw_views(r.0@) == ready_message_draws(
                final(self).cache@,
                targets@,
                circular,
            ),
            old(self).picker_available ==> match final(self).active_popup_avatar_url {
                Some(q) => {
                    let ready = final(self).cache@.contains_key(q@) && final(self).cache@[q@].state
                        == CacheEntryState::Ready;
                    &&& ready ==> (r.1 matches Some(d) && d.view_tuple() == popup_draw(q@, circular))
                    &&& !ready ==> r.1 is None
                },
                None => r.1 is None,
            },
            (final(self).cache@, final(self).cache.clock()) == touched(
                old(self).cache@,
                old(self).cache.clock(),
                message_cache_urls(targets@) + match popup_url {
                    Some(p) => seq![old(self).popup_avatar_url(p@)],
                    None => Seq::empty(),
                },
            ),
    {
        let mut urls: Vec<String> = Vec::new();
        let mut i: usize = 0;
        while i < targets.len()
            invariant
                i <= targets@.len(),
                urls@.len() == i,
                forall|j: int| 0 <= j < i ==> #[trigger] urls@[j]@ == targets@[j].url@,
            decreases targets@.len() - i,
        {
            urls.push(targets[i].url.clone());
            i = i + 1;
        }
        let (sized, popup) = self.touch_render_targets(&urls, popup_url);
        proof {
            assert(url_views(sized@) =~= message_cache_urls(targets@));
            assert(optional_url(popup) =~= match popup_url {
                Some(p) => seq![old(self).popup_avatar_url(p@)],
                None => Seq::<Seq<char>>::empty(),
            });
        }
        if !self.picker_available {
            return (Vec::new(), None);
        }
        let mut draws: Vec<AvatarDraw> = Vec::new();
        let mut i: usize = 0;
        while i < targets.len()
            invariant
                i <= targets@.len(),
                sized@.len() == targets@.len(),
                forall|j: int|
                    0 <= j < targets@.len() ==> #[trigger] sized@[j]@ == message_cache_url(
                        targets@[j].url@,
                    ),
                draw_views(draws@) == ready_message_draws(
                    self.cache@,
                    targets@.take(i as int),
                    circular,
                ),
            decreases targets@.len() - i,
        {
            let entry = self.cache.get(sized[i].as_str());
            proof {
                assert(targets@.take(i + 1).drop_last() =~= targets@.take(i as int));
                assert(targets@.take(i + 1).last() == targets@[i as int]);
            }
            match entry {
                Some(e) => {
                    if e.state == CacheEntryState::Ready {
                        let d = AvatarDraw {
                            row: targets[i].row,
                            visible_height: targets[i].visible_height,
                            url: sized[i].clone(),
                            key: AvatarProtocolKey::message_avatar(&targets[i], circular),
                        };
                        proof {
                            assert(draw_views(draws@.push(d)) =~= draw_views(draws@).push(
                                d.view_tuple(),
                            ));
                        }
                        draws.push(d);
                    }
                },
                None => {},
            }
            i = i + 1;
        }
        proof {
            assert(targets@.take(i as int) =~= targets@);
        }
        let popup_draw = match popup {
            Some(p) => match self.cache.get(p.as_str()) {
                Some(e) => {
                    if e.state == CacheEntryState::Ready {
                        Some(
                            AvatarDraw {
                                row: 0,
                                visible_height: PROFILE_POPUP_AVATAR_HEIGHT,
                                url: p,
                                key: AvatarProtocolKey::profile_popup(circular),
                            },
                        )
                    } else {
                        None
                    }
                },
                None => None,
            },
            None => None,
        };
        (draws, popup_draw)
    }
}


/// A pass of fetch requests asks for no URL that is already cached: once a frame's
/// targets are all cached, the next pass over them asks for nothing.
pub proof fn law_cached_urls_are_not_requested_again(
    known: Map<Seq<char>, CacheEntry>,
    urls: Seq<Seq<char>>,
)
    requires
        forall|i: int| 0 <= i < urls.len() ==> known.contains_key(#[trigger] urls[i]),
    ensures
        fresh_urls(known, urls) == Seq::<Seq<char>>::empty(),
    decreases urls.len(),
{
    if urls.len() > 0 {
        let d = urls.drop_last();
        assert forall|i: int| 0 <= i < d.len() implies known.contains_key(#[trigger] d[i]) by {
            assert(d[i] == urls[i]);
        }
        law_cached_urls_are_not_requested_again(known, d);
        assert(known.contains_key(urls[urls.len() - 1]));
    }
}

} // verus!
