use vstd::prelude::*;

use crate::unicode::str_eq;

verus! {

/// Where a cached image stands: its bytes are being fetched, decoded (by the decode
/// job of the given generation), ready to draw, or failed.
#[derive(Clone, Copy, Debug, PartialEq, Eq, Structural)]
pub enum CacheEntryState {
    Loading,
    Decoding { generation: u64 },
    Ready,
    Failed,
}

/// A cache entry: its state and the tick it was last used at.
#[derive(Clone, Copy, Debug, PartialEq, Eq, Structural)]
pub struct CacheEntry {
    pub state: CacheEntryState,
    pub last_used: u64,
}

/// One keyed entry of the cache.
#[derive(Debug)]
pub struct CacheSlot {
    pub key: String,
    pub entry: CacheEntry,
}

/// Bookkeeping of an image cache keyed by URL: entry states, a use clock for least
/// recently used eviction, and the generation counter that tells a current decode
/// result from a stale one. The decoded images themselves are kept beside it by key.
pub struct MediaImageCacheCore {
    slots: Vec<CacheSlot>,
    tick: u64,
    decode_generation: u64,
    entries: Ghost<Map<Seq<char>, CacheEntry>>,
}

/// `saturating_add(1)` on a `u64`.
pub open spec fn saturating_next(v: u64) -> u64 {
    if v == u64::MAX {
        v
    } else {
        (v + 1) as u64
    }
}

impl MediaImageCacheCore {
    #[verifier::type_invariant]
    spec fn slots_match_entries(self) -> bool {
        &&& forall|i: int, j: int|
            0 <= i < j < self.slots@.len() ==> #[trigger] self.slots@[i].key@
                != #[trigger] self.slots@[j].key@
        &&& forall|i: int|
            0 <= i < self.slots@.len() ==> self.entries@.contains_key(#[trigger] self.slots@[i].key@)
                && self.entries@[self.slots@[i].key@] == self.slots@[i].entry
        &&& forall|k: Seq<char>|
            #[trigger] self.entries@.contains_key(k) ==> exists|i: int|
                0 <= i < self.slots@.len() && #[trigger] self.slots@[i].key@ == k
    }

    /// The entries by key.
    pub closed spec fn view(&self) -> Map<Seq<char>, CacheEntry> {
        self.entries@
    }

    /// The number of entries.
    pub closed spec fn size(&self) -> nat {
        self.slots@.len()
    }

    /// The use clock.
    pub closed spec fn clock(&self) -> u64 {
        self.tick
    }

    /// The last decode generation handed out.
    pub closed spec fn generation(&self) -> u64 {
        self.decode_generation
    }

    /// Whether two caches hold their entries in the same slots.
    pub closed spec fn same_slots(&self, other: &MediaImageCacheCore) -> bool {
        self.slots@ == other.slots@
    }

    /// An empty cache.
    pub fn new() -> (r: MediaImageCacheCore)
        ensures
            r@ == Map::<Seq<char>, CacheEntry>::empty(),
            r.size() == 0,
            r.clock() == 0,
            r.generation() == 0,
    {
        MediaImageCacheCore {
            slots: Vec::new(),
            tick: 0,
            decode_generation: 0,
            entries: Ghost(Map::empty()),
        }
    }

    /// The number of entries.
    pub fn len(&self) -> (r: usize)
        ensures
            r == self.size(),
    {
        self.slots.len()
    }

    /// Advances the use clock (it stops at its largest value) and returns it.
    pub fn next_tick(&mut self) -> (r: u64)
        ensures
            r == saturating_next(old(self).clock()),
            final(self).clock() == r,
            final(self).same_slots(&*old(self)),
            final(self)@ == old(self)@,
            final(self).size() == old(self).size(),
            final(self).generation() == old(self).generation(),
    {
        proof {
            use_type_invariant(&*self);
        }
        self.tick = self.tick.saturating_add(1);
        self.tick
    }

    /// Hands out the next decode generation (it stops at its largest value).
    pub fn next_decode_generation(&mut self) -> (r: u64)
        ensures
            r == saturating_next(old(self).generation()),
            final(self).generation() == r,
            final(self).same_slots(&*old(self)),
            final(self)@ == old(self)@,
            final(self).size() == old(self).size(),
            final(self).clock() == old(self).clock(),
    {
        proof {
            use_type_invariant(&*self);
        }
        self.decode_generation = self.decode_generation.saturating_add(1);
        self.decode_generation
    }

    fn find(&self, key: &str) -> (r: Option<usize>)
        ensures
            match r {
                Some(i) => i < self.slots@.len() && self.slots@[i as int].key@ == key@,
                None => !self@.contains_key(key@),
            },
    {
        proof {
            use_type_invariant(self);
        }
        let mut i: usize = 0;
        while i < self.slots.len()
            invariant
                i <= self.slots@.len(),
                forall|j: int| 0 <= j < i ==> #[trigger] self.slots@[j].key@ != key@,
            decreases self.slots@.len() - i,
        {
            if str_eq(self.slots[i].key.as_str(), key) {
                return Some(i);
            }
            i = i + 1;
        }
        None
    }

    /// The entry under `key`.
    pub fn get(&self, key: &str) -> (r: Option<CacheEntry>)
        ensures
            match r {
                Some(e) => self@.contains_key(key@) && self@[key@] == e,
                None => !self@.contains_key(key@),
            },
    {
        proof {
            use_type_invariant(self);
        }
        match self.find(key) {
            Some(i) => Some(self.slots[i].entry),
            None => None,
        }
    }

    /// Whether there is an entry under `key`.
    pub fn contains_key(&self, key: &str) -> (r: bool)
        ensures
            r == self@.contains_key(key@),
    {
        proof {
            use_type_invariant(self);
        }
        self.find(key).is_some()
    }

    /// Replaces the entry of slot `i`.
    fn set_slot(&mut self, i: usize, entry: CacheEntry)
        requires
            i < old(self).slots@.len(),
        ensures
            final(self)@ == old(self)@.insert(old(self).slots@[i as int].key@, entry),
            final(self).size() == old(self).size(),
            final(self).clock() == old(self).clock(),
            final(self).generation() == old(self).generation(),
            final(self).slots@.len() == old(self).slots@.len(),
            forall|j: int|
                0 <= j < final(self).slots@.len() ==> #[trigger] final(self).slots@[j].key@ == old(self).slots@[j].key@,
    {
        proof {
            use_type_invariant(&*self);
        }
        let ghost key = self.slots@[i as int].key@;
        let ghost new_map = self.entries@.insert(key, entry);
        let mut taken = MediaImageCacheCore::new();
        std::mem::swap(self, &mut taken);
        let MediaImageCacheCore { slots: mut slots, tick, decode_generation, entries } = taken;
        let mut slot = slots.remove(i);
        slot.entry = entry;
        slots.insert(i, slot);
        proof {
            assert forall|k: Seq<char>| #[trigger] new_map.contains_key(k) implies exists|j: int|
                0 <= j < slots@.len() && #[trigger] slots@[j].key@ == k by {
                if k == key {
                    assert(slots@[i as int].key@ == k);
                } else {
                    assert(old(self).entries@.contains_key(k));
                    let j = choose|j: int|
                        0 <= j < old(self).slots@.len() && #[trigger] old(self).slots@[j].key@ == k;
                    assert(slots@[j].key@ == k);
                }
            }
        }
        *self = MediaImageCacheCore { slots, tick, decode_generation, entries: Ghost(new_map) };
    }

    /// Marks the entry under `key`, if any, as used now; the clock advances either way.
    pub fn touch(&mut self, key: &str)
        ensures
            final(self).clock() == saturating_next(old(self).clock()),
            final(self).generation() == old(self).generation(),
            final(self).size() == old(self).size(),
            final(self)@ == if old(self)@.contains_key(key@) {
                old(self)@.insert(
                    key@,
                    CacheEntry { state: old(self)@[key@].state, last_used: final(self).clock() },
                )
            } else {
                old(self)@
            },
    {
        proof {
            use_type_invariant(&*self);
        }
        let tick = self.next_tick();
        proof {
            use_type_invariant(&*self);
        }
        match self.find(key) {
            Some(i) => {
                let state = self.slots[i].entry.state;
                self.set_slot(i, CacheEntry { state, last_used: tick });
            },
            None => {},
        }
    }

    fn push_slot(&mut self, key: String, entry: CacheEntry)
        requires
            !old(self)@.contains_key(key@),
        ensures
            final(self)@ == old(self)@.insert(key@, entry),
            final(self).size() == old(self).size() + 1,
            final(self).clock() == old(self).clock(),
            final(self).generation() == old(self).generation(),
    {
        proof {
            use_type_invariant(&*self);
        }
        let ghost k0 = key@;
        let ghost new_map = self.entries@.insert(k0, entry);
        let mut taken = MediaImageCacheCore::new();
        std::mem::swap(self, &mut taken);
        let MediaImageCacheCore { slots: mut slots, tick, decode_generation, entries } = taken;
        let ghost n = slots@.len();
        proof {
            assert forall|j: int| 0 <= j < n implies #[trigger] slots@[j].key@ != k0 by {
                assert(old(self).entries@.contains_key(slots@[j].key@));
            }
        }
        slots.push(CacheSlot { key, entry });
        proof {
            assert forall|k: Seq<char>| #[trigger] new_map.contains_key(k) implies exists|j: int|
                0 <= j < slots@.len() && #[trigger] slots@[j].key@ == k by {
                if k == k0 {
                    assert(slots@[n as int].key@ == k);
                } else {
                    let j = choose|j: int|
                        0 <= j < old(self).slots@.len() && #[trigger] old(self).slots@[j].key@ == k;
                    assert(slots@[j].key@ == k);
                }
            }
        }
        *self = MediaImageCacheCore { slots, tick, decode_generation, entries: Ghost(new_map) };
    }

    /// Adds a loading entry under `key` unless one exists; says whether it did.
    pub fn insert_loading(&mut self, key: String) -> (r: bool)
        ensures
            r == !old(self)@.contains_key(key@),
            r ==> final(self).clock() == saturating_next(old(self).clock()) && final(self)@ == old(self)@.insert(
                key@,
                CacheEntry { state: CacheEntryState::Loading, last_used: final(self).clock() },
            ) && final(self).size() == old(self).size() + 1,
            !r ==> final(self)@ == old(self)@ && final(self).clock() == old(self).clock()
                && final(self).size() == old(self).size(),
            final(self).generation() == old(self).generation(),
    {
        if self.contains_key(key.as_str()) {
            return false;
        }
        let last_used = self.next_tick();
        self.push_slot(key, CacheEntry { state: CacheEntryState::Loading, last_used });
        true
    }

    /// Starts decoding the fetched bytes of the loading entry under `key`: returns the
    /// generation of the decode job, or `None` when the entry is not loading, or when no
    /// image protocol is available, in which case the entry fails.
    pub fn start_decode_job(&mut self, key: &str, picker_available: bool) -> (r: Option<u64>)
        ensures
            !(old(self)@.contains_key(key@) && old(self)@[key@].state == CacheEntryState::Loading)
                ==> r is None && *final(self) == *old(self),
            old(self)@.contains_key(key@) && old(self)@[key@].state == CacheEntryState::Loading
                ==> final(self).clock() == saturating_next(old(self).clock()) && final(self).size()
                == old(self).size() && if picker_available {
                &&& r == Some(saturating_next(old(self).generation()))
                &&& final(self).generation() == saturating_next(old(self).generation())
                &&& final(self)@ == old(self)@.insert(
                    key@,
                    CacheEntry {
                        state: CacheEntryState::Decoding { generation: final(self).generation() },
                        last_used: final(self).clock(),
                    },
                )
            } else {
                &&& r is None
                &&& final(self).generation() == old(self).generation()
                &&& final(self)@ == old(self)@.insert(
                    key@,
                    CacheEntry { state: CacheEntryState::Failed, last_used: final(self).clock() },
                )
            },
    {
        proof {
            use_type_invariant(&*self);
        }
        let i = match self.find(key) {
            Some(i) => i,
            None => {
                return None;
            },
        };
        if self.slots[i].entry.state != CacheEntryState::Loading {
            return None;
        }
        let last_used = self.next_tick();
        proof {
            use_type_invariant(&*self);
        }
        if !picker_available {
            self.set_slot(i, CacheEntry { state: CacheEntryState::Failed, last_used });
            return None;
        }
        let generation = self.next_decode_generation();
        proof {
            use_type_invariant(&*self);
        }
        self.set_slot(
            i,
            CacheEntry { state: CacheEntryState::Decoding { generation }, last_used },
        );
        Some(generation)
    }

    /// Whether the entry under `key` waits for the decode job of `result_generation`.
    pub fn decoded_generation_matches(&self, key: &str, result_generation: u64) -> (r: bool)
        ensures
            r == (self@.contains_key(key@) && self@[key@].state == CacheEntryState::Decoding {
                generation: result_generation,
            }),
    {
        match self.get(key) {
            Some(entry) => match entry.state {
                CacheEntryState::Decoding { generation } => generation == result_generation,
                _ => false,
            },
            None => false,
        }
    }

    /// Marks the entry under `key` as failed, if there is one.
    pub fn store_failed_if_present(&mut self, key: &str)
        ensures
            old(self)@.contains_key(key@) ==> final(self).clock() == saturating_next(
                old(self).clock(),
            ) && final(self)@ == old(self)@.insert(
                key@,
                CacheEntry { state: CacheEntryState::Failed, last_used: final(self).clock() },
            ) && final(self).size() == old(self).size() && final(self).generation() == old(self).generation(),
            !old(self)@.contains_key(key@) ==> *final(self) == *old(self),
    {
        proof {
            use_type_invariant(&*self);
        }
        match self.find(key) {
            Some(i) => {
                let last_used = self.next_tick();
                proof {
                    use_type_invariant(&*self);
                }
                self.set_slot(i, CacheEntry { state: CacheEntryState::Failed, last_used });
            },
            None => {},
        }
    }

    /// Takes the result of the decode job of `result_generation` for `key`: the entry
    /// becomes ready or failed if it still waits for that job; a stale result changes
    /// nothing.
    pub fn store_decoded(&mut self, key: &str, result_generation: u64, decoded: bool)
        ensures
            (old(self)@.contains_key(key@) && old(self)@[key@].state
                == CacheEntryState::Decoding { generation: result_generation }) ==> final(self).clock() == saturating_next(old(self).clock()) && final(self)@ == old(self)@.insert(
                key@,
                CacheEntry {
                    state: if decoded {
                        CacheEntryState::Ready
                    } else {
                        CacheEntryState::Failed
                    },
                    last_used: final(self).clock(),
                },
            ) && final(self).size() == old(self).size() && final(self).generation() == old(self).generation(),
            !(old(self)@.contains_key(key@) && old(self)@[key@].state
                == CacheEntryState::Decoding { generation: result_generation }) ==> *final(self)
                == *old(self),
    {
        if !self.decoded_generation_matches(key, result_generation) {
            return ;
        }
        let i = match self.find(key) {
            Some(i) => i,
            None => {
                return ;
            },
        };
        proof {
            use_type_invariant(&*self);
        }
        let last_used = self.next_tick();
        proof {
            use_type_invariant(&*self);
        }
        let state = if decoded {
            CacheEntryState::Ready
        } else {
            CacheEntryState::Failed
        };
        self.set_slot(i, CacheEntry { state, last_used });
    }
    fn remove_slot(&mut self, i: usize)
        requires
            i < old(self).slots@.len(),
        ensures
            final(self)@ == old(self)@.remove(old(self).slots@[i as int].key@),
            final(self).size() + 1 == old(self).size(),
            final(self).clock() == old(self).clock(),
            final(self).generation() == old(self).generation(),
    {
        proof {
            use_type_invariant(&*self);
        }
        let ghost key = self.slots@[i as int].key@;
        let ghost new_map = self.entries@.remove(key);
        let mut taken = MediaImageCacheCore::new();
        std::mem::swap(self, &mut taken);
        let MediaImageCacheCore { slots: mut slots, tick, decode_generation, entries } = taken;
        let ghost before = slots@;
        let _removed = slots.remove(i);
        proof {
            assert forall|a: int, b: int|
                0 <= a < b < slots@.len() implies #[trigger] slots@[a].key@
                != #[trigger] slots@[b].key@ by {
                let a0 = if a < i {
                    a
                } else {
                    a + 1
                };
                let b0 = if b < i {
                    b
                } else {
                    b + 1
                };
                assert(slots@[a] == before[a0]);
                assert(slots@[b] == before[b0]);
            }
            assert forall|j: int| 0 <= j < slots@.len() implies new_map.contains_key(
                #[trigger] slots@[j].key@,
            ) && new_map[slots@[j].key@] == slots@[j].entry by {
                let j0 = if j < i {
                    j
                } else {
                    j + 1
                };
                assert(slots@[j] == before[j0]);
                assert(before[j0].key@ != before[i as int].key@);
            }
            assert forall|k: Seq<char>| #[trigger] new_map.contains_key(k) implies exists|j: int|
                0 <= j < slots@.len() && #[trigger] slots@[j].key@ == k by {
                let j0 = choose|j: int|
                    0 <= j < before.len() && #[trigger] before[j].key@ == k;
                if j0 < i {
                    assert(slots@[j0].key@ == k);
                } else {
                    assert(j0 != i);
                    assert(slots@[j0 - 1].key@ == k);
                }
            }
        }
        *self = MediaImageCacheCore { slots, tick, decode_generation, entries: Ghost(new_map) };
    }

    /// Evicts the least recently used entries whose keys are not in `protected`, one at
    /// a time, while more than `limit` entries remain. Which of two equally old entries
    /// goes first is left open.
    pub fn prune_to_limit(&mut self, limit: usize, protected: &Vec<String>)
        ensures
            old(self).size() <= limit ==> *final(self) == *old(self),
            forall|k: Seq<char>|
                #[trigger] final(self)@.contains_key(k) ==> old(self)@.contains_key(k)
                    && final(self)@[k] == old(self)@[k],
            forall|k: Seq<char>|
                old(self)@.contains_key(k) && !final(self)@.contains_key(k) ==> !is_protected(
                    protected@,
                    k,
                ),
            old(self).size() > limit ==> final(self).size() >= limit,
            final(self).size() > limit ==> forall|k: Seq<char>|
                #[trigger] final(self)@.contains_key(k) ==> is_protected(protected@, k),
            forall|r: Seq<char>, k: Seq<char>|
                #[trigger] old(self)@.contains_key(r) && !final(self)@.contains_key(r) && #[trigger] final(self)@.contains_key(k) && !is_protected(protected@, k) ==> old(self)@[r].last_used
                    <= old(self)@[k].last_used,
            final(self).clock() == old(self).clock(),
            final(self).generation() == old(self).generation(),
    {
        proof {
            use_type_invariant(&*self);
        }
        if self.slots.len() <= limit {
            return ;
        }
        let ghost start = self@;
        let mut done = false;
        while !done && self.slots.len() > limit
            invariant
                forall|k: Seq<char>|
                    #[trigger] self@.contains_key(k) ==> start.contains_key(k) && self@[k]
                        == start[k],
                forall|k: Seq<char>|
                    start.contains_key(k) && !self@.contains_key(k) ==> !is_protected(
                        protected@,
                        k,
                    ),
                self.size() >= limit,
                done ==> forall|k: Seq<char>|
                    #[trigger] self@.contains_key(k) ==> is_protected(protected@, k),
                forall|r: Seq<char>, k: Seq<char>|
                    #[trigger] start.contains_key(r) && !self@.contains_key(r) && #[trigger] self@.contains_key(
                        k,
                    ) && !is_protected(protected@, k) ==> start[r].last_used
                        <= start[k].last_used,
                self.clock() == old(self).clock(),
                self.generation() == old(self).generation(),
            decreases self.size() + (if done {
                0int
            } else {
                1int
            }),
        {
            proof {
                use_type_invariant(&*self);
            }
            let mut best: Option<usize> = None;
            let mut i: usize = 0;
            while i < self.slots.len()
                invariant
                    i <= self.slots@.len(),
                    match best {
                        Some(b) => b < i && !is_protected(protected@, self.slots@[b as int].key@)
                            && forall|j: int|
                            0 <= j < i && !is_protected(protected@, #[trigger] self.slots@[j].key@)
                                ==> self.slots@[b as int].entry.last_used
                                <= self.slots@[j].entry.last_used,
                        None => forall|j: int|
                            0 <= j < i ==> is_protected(protected@, #[trigger] self.slots@[j].key@),
                    },
                decreases self.slots@.len() - i,
            {
                let guarded = key_is_protected(protected, self.slots[i].key.as_str());
                if !guarded {
                    let better = match best {
                        Some(b) => self.slots[i].entry.last_used < self.slots[b].entry.last_used,
                        None => true,
                    };
                    if better {
                        best = Some(i);
                    }
                }
                i = i + 1;
            }
            match best {
                Some(b) => {
                    let ghost gone = self.slots@[b as int].key@;
                    proof {
                        assert forall|k: Seq<char>|
                            #[trigger] self@.contains_key(k) && !is_protected(
                                protected@,
                                k,
                            ) implies self@[gone].last_used <= self@[k].last_used by {
                            let j = choose|j: int|
                                0 <= j < self.slots@.len() && #[trigger] self.slots@[j].key@ == k;
                            assert(self.slots@[j].key@ == k);
                        }
                    }
                    self.remove_slot(b);
                },
                None => {
                    proof {
                        assert forall|k: Seq<char>| #[trigger]
                            self@.contains_key(k) implies is_protected(protected@, k) by {
                            let j = choose|j: int|
                                0 <= j < self.slots@.len() && #[trigger] self.slots@[j].key@ == k;
                            assert(self.slots@[j].key@ == k);
                        }
                    }
                    done = true;
                },
            }
        }
    }
}

/// Whether `key` is one of the `protected` keys.
pub open spec fn is_protected(protected: Seq<String>, key: Seq<char>) -> bool {
    exists|j: int| 0 <= j < protected.len() && #[trigger] protected[j]@ == key
}

/// Whether `key` is one of the `protected` keys.
pub fn key_is_protected(protected: &Vec<String>, key: &str) -> (r: bool)
    ensures
        r == is_protected(protected@, key@),
{
    let mut j: usize = 0;
    while j < protected.len()
        invariant
            j <= protected@.len(),
            forall|m: int| 0 <= m < j ==> #[trigger] protected@[m]@ != key@,
        decreases protected@.len() - j,
    {
        if str_eq(protected[j].as_str(), key) {
            return true;
        }
        j = j + 1;
    }
    false
}

} // verus!
