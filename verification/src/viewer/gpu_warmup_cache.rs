//! Textures of pages that are likely to be shown soon, uploaded ahead of time.
use vstd::prelude::*;

use super::gpu_texture_history::{count_events, counted};
use super::texture_entries::{
    best_hit, lemma_best_hit,
    bytes_after_evicting, bytes_of_key, distinct_keys, evict_oldest, evictions, find_key,
    holds_key, key_index, lemma_evictions, lemma_total_bytes, lemma_without_key, lookup_finds,
    peek, snapshot_entries, snapshots_of, total_bytes, without_key, CachedGpuTexture,
    GpuTextureHit, GpuTextureHitSource, GpuTextureKey, TextureRef,
};
use super::working_set::{DisplayRequirement, GpuTextureEntrySnapshot};
use crate::num::{capped, monus};

verus! {

/// Counters of the warm-up cache at one moment.
#[derive(Clone, Copy, Debug, PartialEq, Eq)]
pub struct GpuWarmupCacheSnapshot {
    pub current_bytes: usize,
    pub max_bytes: usize,
    pub entry_count: usize,
    pub insert_count: u64,
    pub evict_count: u64,
    pub hit_count: u64,
    pub promotion_count: u64,
    pub unused_evict_count: u64,
    pub clear_count: u64,
    pub last_clear_reason: Option<&'static str>,
}

pub struct GpuWarmupCache {
    /// Oldest first.
    pub entries: Vec<CachedGpuTexture>,
    pub current_bytes: usize,
    pub max_bytes: usize,
    pub insert_count: u64,
    pub evict_count: u64,
    pub hit_count: u64,
    pub promotion_count: u64,
    pub unused_evict_count: u64,
    pub clear_count: u64,
    pub last_clear_reason: Option<&'static str>,
}

/// What the cache holds and has counted, as values.
pub struct WarmupState {
    pub entries: Seq<CachedGpuTexture>,
    pub bytes: nat,
    pub max: nat,
    pub insert_count: u64,
    pub evict_count: u64,
    pub hit_count: u64,
    pub promotion_count: u64,
    pub unused_evict_count: u64,
    pub clear_count: u64,
    pub last_clear_reason: Option<&'static str>,
}

impl View for GpuWarmupCache {
    type V = WarmupState;

    open spec fn view(&self) -> WarmupState {
        WarmupState {
            entries: self.entries@,
            bytes: self.current_bytes as nat,
            max: self.max_bytes as nat,
            insert_count: self.insert_count,
            evict_count: self.evict_count,
            hit_count: self.hit_count,
            promotion_count: self.promotion_count,
            unused_evict_count: self.unused_evict_count,
            clear_count: self.clear_count,
            last_clear_reason: self.last_clear_reason,
        }
    }
}

impl WarmupState {
    /// A texture stored as the newest one, in place of what its key held, and the oldest gone
    /// until the limit is met; one larger than the limit changes nothing.
    pub open spec fn stored(self, entry: CachedGpuTexture) -> WarmupState {
        let entries = without_key(self.entries, entry.key).push(entry);
        let bytes = capped(
            monus(self.bytes, bytes_of_key(self.entries, entry.key)) + entry.estimated_bytes as nat,
        );
        let evicted = evictions(entries, bytes, self.max);
        if entry.estimated_bytes <= self.max {
            WarmupState {
                entries: entries.skip(evicted as int),
                bytes: bytes_after_evicting(entries, bytes, evicted),
                insert_count: counted(self.insert_count, 1),
                evict_count: counted(self.evict_count, evicted),
                unused_evict_count: counted(self.unused_evict_count, evicted),
                ..self
            }
        } else {
            self
        }
    }

    pub open spec fn cleared(self, reason: &'static str) -> WarmupState {
        WarmupState {
            entries: Seq::empty(),
            bytes: 0,
            last_clear_reason: Some(reason),
            clear_count: if self.entries.len() > 0 {
                counted(self.clear_count, 1)
            } else {
                self.clear_count
            },
            ..self
        }
    }

    /// The texture that a lookup gives.
    pub open spec fn found(self, page: u32, requirement: DisplayRequirement) -> Option<
        GpuTextureHit,
    > {
        best_hit(self.entries, page, requirement, GpuTextureHitSource::Warmup)
    }

    /// The cache without a texture that it held.
    pub open spec fn without(self, key: GpuTextureKey) -> WarmupState {
        if holds_key(self.entries, key) {
            WarmupState {
                entries: without_key(self.entries, key),
                bytes: monus(self.bytes, bytes_of_key(self.entries, key)),
                ..self
            }
        } else {
            self
        }
    }

    /// The cache with a texture handed over to be shown.
    pub open spec fn promoted(self, key: GpuTextureKey) -> WarmupState {
        if holds_key(self.entries, key) {
            WarmupState {
                promotion_count: counted(self.promotion_count, 1),
                ..self.without(key)
            }
        } else {
            self
        }
    }
}

impl GpuWarmupCache {
    pub open spec fn wf(self) -> bool {
        distinct_keys(self.entries@)
    }

    /// The byte count is the sum over the entries and within the limit.
    pub open spec fn within_budget(self) -> bool {
        &&& self.current_bytes == total_bytes(self.entries@)
        &&& self.current_bytes <= self.max_bytes
    }

    /// The entries and byte count before eviction, once `entry` has replaced what its key held.
    pub open spec fn inserted(self, entry: CachedGpuTexture) -> (Seq<CachedGpuTexture>, nat) {
        (
            without_key(self.entries@, entry.key).push(entry),
            capped(
                monus(self.current_bytes as nat, bytes_of_key(self.entries@, entry.key))
                    + entry.estimated_bytes as nat,
            ),
        )
    }

    pub fn new(max_bytes: usize) -> (cache: Self)
        ensures
            cache.wf(),
            cache.within_budget(),
            cache.entries@ == Seq::<CachedGpuTexture>::empty(),
            cache.max_bytes == max_bytes,
            cache.insert_count == 0,
            cache.evict_count == 0,
            cache.hit_count == 0,
            cache.promotion_count == 0,
            cache.unused_evict_count == 0,
            cache.clear_count == 0,
            cache.last_clear_reason is None,
    {
        Self {
            entries: Vec::new(),
            current_bytes: 0,
            max_bytes,
            insert_count: 0,
            evict_count: 0,
            hit_count: 0,
            promotion_count: 0,
            unused_evict_count: 0,
            clear_count: 0,
            last_clear_reason: None,
        }
    }

    /// Stores a texture as the newest one, in place of what its key held, and lets the oldest go
    /// until the byte count is within the limit. A texture larger than the limit is refused and
    /// changes nothing.
    pub fn insert(&mut self, key: GpuTextureKey, texture: TextureRef, estimated_bytes: usize) -> (
    stored: bool)
        requires
            old(self).wf(),
        ensures
            final(self).wf(),
            stored == (estimated_bytes <= old(self).max_bytes),
            final(self)@ == old(self)@.stored(CachedGpuTexture { key, texture, estimated_bytes }),
            !stored ==> *final(self) == *old(self),
            stored ==> ({
                let (entries, bytes) = old(self).inserted(
                    CachedGpuTexture { key, texture, estimated_bytes },
                );
                let evicted = evictions(entries, bytes, old(self).max_bytes as nat);
                &&& final(self).entries@ == entries.skip(evicted as int)
                &&& final(self).current_bytes == bytes_after_evicting(entries, bytes, evicted)
                &&& final(self).insert_count == counted(old(self).insert_count, 1)
                &&& final(self).evict_count == counted(old(self).evict_count, evicted)
                &&& final(self).unused_evict_count == counted(
                    old(self).unused_evict_count,
                    evicted,
                )
                &&& *final(self) == (GpuWarmupCache {
                    entries: final(self).entries,
                    current_bytes: final(self).current_bytes,
                    insert_count: final(self).insert_count,
                    evict_count: final(self).evict_count,
                    unused_evict_count: final(self).unused_evict_count,
                    ..*old(self)
                })
            }),
    {
        if estimated_bytes > self.max_bytes {
            return false;
        }
        let entry = CachedGpuTexture { key, texture, estimated_bytes };
        let ghost entries_before = self.entries@;
        proof {
            lemma_without_key(entries_before, key);
        }
        match find_key(&self.entries, key) {
            Some(i) => {
                let old_entry: CachedGpuTexture = self.entries.remove(i);
                self.current_bytes = self.current_bytes.saturating_sub(old_entry.estimated_bytes);
            },
            None => {},
        }
        assert(self.entries@ == without_key(entries_before, key));
        self.current_bytes = self.current_bytes.saturating_add(estimated_bytes);
        self.entries.push(entry);
        self.insert_count = count_events(self.insert_count, 1);
        let ghost entries = self.entries@;
        assert(distinct_keys(entries)) by {
            assert forall|i: int, j: int| 0 <= i < j < entries.len() implies (
            #[trigger] entries[i]).key != (#[trigger] entries[j]).key by {
                assert(entries[i] == without_key(entries_before, key)[i]);
            }
        }
        let (bytes, evicted): (usize, usize) = evict_oldest(
            &mut self.entries,
            self.current_bytes,
            self.max_bytes,
        );
        self.current_bytes = bytes;
        self.evict_count = count_events(self.evict_count, evicted);
        self.unused_evict_count = count_events(self.unused_evict_count, evicted);
        true
    }

    /// Drops every texture and notes why. Only a clear that dropped something is counted.
    pub fn clear(&mut self, reason: &'static str)
        ensures
            final(self).wf(),
            final(self).within_budget(),
            final(self).entries@ == Seq::<CachedGpuTexture>::empty(),
            final(self).last_clear_reason == Some(reason),
            final(self)@ == old(self)@.cleared(reason),
            final(self).clear_count == if old(self).entries@.len() > 0 {
                counted(old(self).clear_count, 1)
            } else {
                old(self).clear_count
            },
            *final(self) == (GpuWarmupCache {
                entries: final(self).entries,
                current_bytes: 0,
                last_clear_reason: Some(reason),
                clear_count: final(self).clear_count,
                ..*old(self)
            }),
    {
        let had_entries: bool = self.entries.len() > 0;
        self.entries.clear();
        assert(self.entries@ =~= Seq::<CachedGpuTexture>::empty());
        self.current_bytes = 0;
        self.last_clear_reason = Some(reason);
        if had_entries {
            self.clear_count = count_events(self.clear_count, 1);
        }
    }

    pub fn current_bytes(&self) -> (bytes: usize)
        ensures
            bytes == self.current_bytes,
    {
        self.current_bytes
    }

    pub fn max_bytes(&self) -> (bytes: usize)
        ensures
            bytes == self.max_bytes,
    {
        self.max_bytes
    }

    pub fn entry_count(&self) -> (count: usize)
        ensures
            count == self.entries@.len(),
    {
        self.entries.len()
    }

    pub fn snapshot(&self) -> (snapshot: GpuWarmupCacheSnapshot)
        ensures
            snapshot == (GpuWarmupCacheSnapshot {
                current_bytes: self.current_bytes,
                max_bytes: self.max_bytes,
                entry_count: self.entries@.len() as usize,
                insert_count: self.insert_count,
                evict_count: self.evict_count,
                hit_count: self.hit_count,
                promotion_count: self.promotion_count,
                unused_evict_count: self.unused_evict_count,
                clear_count: self.clear_count,
                last_clear_reason: self.last_clear_reason,
            }),
    {
        GpuWarmupCacheSnapshot {
            current_bytes: self.current_bytes,
            max_bytes: self.max_bytes,
            entry_count: self.entries.len(),
            insert_count: self.insert_count,
            evict_count: self.evict_count,
            hit_count: self.hit_count,
            promotion_count: self.promotion_count,
            unused_evict_count: self.unused_evict_count,
            clear_count: self.clear_count,
            last_clear_reason: self.last_clear_reason,
        }
    }

    pub fn entry_snapshots(&self) -> (snapshots: Vec<GpuTextureEntrySnapshot>)
        ensures
            snapshots@ == snapshots_of(self.entries@),
    {
        snapshot_entries(&self.entries)
    }

    pub fn record_hit(&mut self)
        ensures
            *final(self) == (GpuWarmupCache {
                hit_count: counted(old(self).hit_count, 1),
                ..*old(self)
            }),
    {
        self.hit_count = count_events(self.hit_count, 1);
    }

    /// The best suitable texture of a page; the cache stays as it is.
    pub fn peek_suitable(&self, page: u32, requirement: DisplayRequirement) -> (hit: Option<
        GpuTextureHit,
    >)
        requires
            self.wf(),
        ensures
            lookup_finds(self.entries@, page, requirement, GpuTextureHitSource::Warmup, hit),
            hit == self@.found(page, requirement),
    {
        let hit = peek(&self.entries, page, requirement, GpuTextureHitSource::Warmup);
        proof {
            lemma_best_hit(
                self.entries@,
                page,
                requirement,
                GpuTextureHitSource::Warmup,
                hit,
            );
        }
        hit
    }

    /// Hands a texture over to be shown, counted as a promotion.
    pub fn promote_to_history(&mut self, key: &GpuTextureKey) -> (taken: Option<
        (TextureRef, usize),
    >)
        requires
            old(self).wf(),
        ensures
            final(self).wf(),
            taken is Some <==> holds_key(old(self).entries@, *key),
            final(self)@ == old(self)@.promoted(*key),
            taken is None ==> *final(self) == *old(self),
            taken matches Some(taken) ==> ({
                let entry = old(self).entries@[key_index(old(self).entries@, *key)];
                &&& taken == (entry.texture, entry.estimated_bytes)
                &&& final(self).entries@ == without_key(old(self).entries@, *key)
                &&& final(self).current_bytes == monus(
                    old(self).current_bytes as nat,
                    entry.estimated_bytes as nat,
                )
                &&& *final(self) == (GpuWarmupCache {
                    entries: final(self).entries,
                    current_bytes: final(self).current_bytes,
                    promotion_count: counted(old(self).promotion_count, 1),
                    ..*old(self)
                })
            }),
    {
        match self.remove_without_promotion(key) {
            Some(taken) => {
                self.promotion_count = count_events(self.promotion_count, 1);
                Some(taken)
            },
            None => None,
        }
    }

    /// Takes a texture out without counting a promotion.
    pub fn remove_without_promotion(&mut self, key: &GpuTextureKey) -> (taken: Option<
        (TextureRef, usize),
    >)
        requires
            old(self).wf(),
        ensures
            final(self).wf(),
            taken is Some <==> holds_key(old(self).entries@, *key),
            final(self)@ == old(self)@.without(*key),
            taken is None ==> *final(self) == *old(self),
            taken matches Some(taken) ==> ({
                let entry = old(self).entries@[key_index(old(self).entries@, *key)];
                &&& taken == (entry.texture, entry.estimated_bytes)
                &&& final(self).entries@ == without_key(old(self).entries@, *key)
                &&& final(self).current_bytes == monus(
                    old(self).current_bytes as nat,
                    entry.estimated_bytes as nat,
                )
                &&& *final(self) == (GpuWarmupCache {
                    entries: final(self).entries,
                    current_bytes: final(self).current_bytes,
                    ..*old(self)
                })
            }),
    {
        proof {
            lemma_without_key(self.entries@, *key);
        }
        match find_key(&self.entries, *key) {
            Some(i) => {
                let entry: CachedGpuTexture = self.entries.remove(i);
                assert(self.entries@ == without_key(old(self).entries@, *key));
                self.current_bytes = self.current_bytes.saturating_sub(entry.estimated_bytes);
                Some((entry.texture, entry.estimated_bytes))
            },
            None => None,
        }
    }
}

/// A cache within its budget stays within it, and a stored texture is held afterwards. (The byte
/// counter cannot hold the sum of two limits above half its range.)
pub proof fn law_insert_keeps_the_budget(cache: GpuWarmupCache, entry: CachedGpuTexture)
    requires
        cache.wf(),
        cache.within_budget(),
        cache.max_bytes <= usize::MAX / 2,
        entry.estimated_bytes <= cache.max_bytes,
    ensures
        ({
            let (entries, bytes) = cache.inserted(entry);
            let evicted = evictions(entries, bytes, cache.max_bytes as nat);
            &&& bytes_after_evicting(entries, bytes, evicted) == total_bytes(
                entries.skip(evicted as int),
            )
            &&& total_bytes(entries.skip(evicted as int)) <= cache.max_bytes
            &&& entries.skip(evicted as int).len() > 0
            &&& entries.skip(evicted as int).last() == entry
        }),
{
    let (entries, bytes) = cache.inserted(entry);
    lemma_without_key(cache.entries@, entry.key);
    lemma_total_bytes(without_key(cache.entries@, entry.key), entry);
    assert(bytes == total_bytes(entries));
    lemma_evictions(entries, cache.max_bytes as nat);
    let evicted = evictions(entries, bytes, cache.max_bytes as nat);
    assert(entries.last() == entry);
    assert(entries.skip(evicted as int).last() == entries.last());
}

/// Taking a texture out of a cache within its budget takes exactly its bytes off the count.
pub proof fn law_removal_keeps_the_budget(cache: GpuWarmupCache, key: GpuTextureKey)
    requires
        cache.wf(),
        cache.within_budget(),
        holds_key(cache.entries@, key),
    ensures
        monus(cache.current_bytes as nat, bytes_of_key(cache.entries@, key)) == total_bytes(
            without_key(cache.entries@, key),
        ),
{
    lemma_without_key(cache.entries@, key);
}

/// The cache after a texture was stored: it is the newest, its key is held once, and of the others
/// the oldest are gone, no more of them than the limit asks for.
pub proof fn law_stored_textures_are_newest(cache: WarmupState, entry: CachedGpuTexture)
    requires
        distinct_keys(cache.entries),
        cache.bytes == total_bytes(cache.entries),
        cache.bytes <= cache.max <= usize::MAX / 2,
        entry.estimated_bytes <= cache.max,
    ensures
        ({
            let stored = cache.stored(entry);
            &&& stored.entries.len() > 0 && stored.entries.last() == entry
            &&& stored.bytes == total_bytes(stored.entries) && stored.bytes <= cache.max
            &&& stored.max == cache.max
            &&& distinct_keys(stored.entries)
            &&& cache.bytes + entry.estimated_bytes <= cache.max ==> stored.entries
                == without_key(cache.entries, entry.key).push(entry)
            &&& stored.insert_count == counted(cache.insert_count, 1)
            &&& exists|gone: int|
                0 <= gone <= cache.entries.len() && stored.entries == #[trigger] without_key(
                    cache.entries,
                    entry.key,
                ).push(entry).skip(gone) && stored.evict_count == counted(
                    cache.evict_count,
                    gone as nat,
                ) && (gone > 0 ==> total_bytes(
                    without_key(cache.entries, entry.key).push(entry).skip(gone - 1),
                ) > cache.max)
        }),
{
    let others = without_key(cache.entries, entry.key);
    let entries = others.push(entry);
    lemma_without_key(cache.entries, entry.key);
    lemma_total_bytes(others, entry);
    super::texture_entries::law_other_keys_are_kept(cache.entries, entry.key, entry);
    assert(distinct_keys(entries)) by {
        assert forall|i: int, j: int| 0 <= i < j < entries.len() implies (
        #[trigger] entries[i]).key != (#[trigger] entries[j]).key by {
            if j == others.len() {
                assert(others[i].key != entry.key);
            }
        }
    }
    lemma_evictions(entries, cache.max);
    super::texture_entries::law_no_more_goes_than_must(entries, cache.max);
    let gone = evictions(entries, total_bytes(entries), cache.max) as int;
    assert(entries.last().estimated_bytes <= cache.max);
    assert(cache.stored(entry).entries == entries.skip(gone));
    assert(entries.skip(0) =~= entries);
}

/// A texture larger than the limit changes nothing.
pub proof fn law_too_large_textures_are_refused(cache: WarmupState, entry: CachedGpuTexture)
    requires
        entry.estimated_bytes > cache.max,
    ensures
        cache.stored(entry) == cache,
{
}

/// The cache is empty once it was cleared, the reason is told, and the limit stays. Clearing what is
/// empty does not count.
pub proof fn law_cleared_means_empty(cache: WarmupState, reason: &'static str)
    ensures
        ({
            let cleared = cache.cleared(reason);
            &&& cleared.entries.len() == 0 && cleared.bytes == 0
            &&& cleared.max == cache.max
            &&& cleared.last_clear_reason == Some(reason)
            &&& cache.entries.len() > 0 && cache.clear_count < u64::MAX ==> cleared.clear_count
                == cache.clear_count + 1
            &&& cache.entries.len() == 0 ==> cleared.clear_count == cache.clear_count
            &&& cleared.insert_count == cache.insert_count
            &&& cleared.evict_count == cache.evict_count
        }),
{
}

/// A texture that is handed over is held no longer, the others stay as they are, and only a hand
/// over to the screen counts as one.
pub proof fn law_handed_over_textures_are_gone(
    cache: WarmupState,
    key: GpuTextureKey,
    other: CachedGpuTexture,
)
    requires
        distinct_keys(cache.entries),
        cache.bytes == total_bytes(cache.entries),
    ensures
        !holds_key(cache.promoted(key).entries, key),
        !holds_key(cache.without(key).entries, key),
        other.key != key ==> (cache.promoted(key).entries.contains(other)
            <==> cache.entries.contains(other)),
        other.key != key ==> (cache.without(key).entries.contains(other)
            <==> cache.entries.contains(other)),
        cache.promoted(key).bytes == total_bytes(cache.promoted(key).entries),
        cache.without(key).promotion_count == cache.promotion_count,
        holds_key(cache.entries, key) && cache.promotion_count < u64::MAX ==> cache.promoted(
            key,
        ).promotion_count == cache.promotion_count + 1,
        !holds_key(cache.entries, key) ==> cache.promoted(key) == cache,
{
    lemma_without_key(cache.entries, key);
    super::texture_entries::law_other_keys_are_kept(cache.entries, key, other);
}

} // verus!
