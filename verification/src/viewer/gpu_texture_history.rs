//! Textures of pages shown before, for quick return to them.
use vstd::prelude::*;

use super::texture_entries::{
    best_hit, lemma_best_hit,
    bytes_after_evicting, bytes_of_key, distinct_keys, evict_oldest, evictions, find_key,
    holds_key, key_index, lemma_evictions, lemma_key_index, lemma_total_bytes, lemma_without_key,
    lookup_finds, peek, snapshot_entries, snapshots_of, total_bytes, without_key, CachedGpuTexture,
    GpuTextureHit, GpuTextureHitSource, GpuTextureKey, TextureRef,
};
use super::working_set::{DisplayRequirement, GpuTextureEntrySnapshot};
use crate::num::{capped, least, monus};

verus! {

/// Counters of the history at one moment.
#[derive(Clone, Copy, Debug, PartialEq, Eq)]
pub struct GpuTextureHistorySnapshot {
    pub current_bytes: usize,
    pub max_bytes: usize,
    pub entry_count: usize,
    pub insert_count: u64,
    pub evict_count: u64,
    pub full_hit_count: u64,
    pub miss_count: u64,
    pub partial_spread_hit_count: u64,
    pub partial_reuse_count: u64,
    pub clear_count: u64,
    pub last_clear_reason: Option<&'static str>,
}

pub struct GpuTextureHistory {
    /// Least recently used first.
    pub entries: Vec<CachedGpuTexture>,
    pub current_bytes: usize,
    pub max_bytes: usize,
    pub insert_count: u64,
    pub evict_count: u64,
    pub full_hit_count: u64,
    pub miss_count: u64,
    pub partial_spread_hit_count: u64,
    pub partial_reuse_count: u64,
    pub clear_count: u64,
    pub last_clear_reason: Option<&'static str>,
}

/// What the history holds and has counted, as values.
pub struct HistoryState {
    pub entries: Seq<CachedGpuTexture>,
    pub bytes: nat,
    pub max: nat,
    pub insert_count: u64,
    pub evict_count: u64,
    pub full_hit_count: u64,
    pub miss_count: u64,
    pub partial_spread_hit_count: u64,
    pub partial_reuse_count: u64,
    pub clear_count: u64,
    pub last_clear_reason: Option<&'static str>,
}

impl View for GpuTextureHistory {
    type V = HistoryState;

    open spec fn view(&self) -> HistoryState {
        HistoryState {
            entries: self.entries@,
            bytes: self.current_bytes as nat,
            max: self.max_bytes as nat,
            insert_count: self.insert_count,
            evict_count: self.evict_count,
            full_hit_count: self.full_hit_count,
            miss_count: self.miss_count,
            partial_spread_hit_count: self.partial_spread_hit_count,
            partial_reuse_count: self.partial_reuse_count,
            clear_count: self.clear_count,
            last_clear_reason: self.last_clear_reason,
        }
    }
}

impl HistoryState {
    /// A texture stored as the newest one, in place of what its key held, and the oldest gone
    /// until the limit is met; one larger than the limit changes nothing.
    pub open spec fn stored(self, entry: CachedGpuTexture) -> HistoryState {
        let entries = without_key(self.entries, entry.key).push(entry);
        let bytes = capped(
            monus(self.bytes, bytes_of_key(self.entries, entry.key)) + entry.estimated_bytes as nat,
        );
        let evicted = evictions(entries, bytes, self.max);
        if entry.estimated_bytes <= self.max {
            HistoryState {
                entries: entries.skip(evicted as int),
                bytes: bytes_after_evicting(entries, bytes, evicted),
                insert_count: counted(self.insert_count, 1),
                evict_count: counted(self.evict_count, evicted),
                ..self
            }
        } else {
            self
        }
    }

    pub open spec fn cleared(self, reason: &'static str) -> HistoryState {
        HistoryState {
            entries: Seq::empty(),
            bytes: 0,
            last_clear_reason: Some(reason),
            clear_count: if self.entries.len() > 0 {
                counted(self.clear_count, 1)
            } else {
                self.clear_count
            },
            ..self
        }
    }

    /// The texture that a lookup gives.
    pub open spec fn found(self, page: u32, requirement: DisplayRequirement) -> Option<
        GpuTextureHit,
    > {
        best_hit(self.entries, page, requirement, GpuTextureHitSource::History)
    }

    /// A held texture marked as the most recently used one.
    pub open spec fn touched(self, key: GpuTextureKey) -> HistoryState {
        if holds_key(self.entries, key) {
            HistoryState {
                entries: without_key(self.entries, key).push(
                    self.entries[key_index(self.entries, key)],
                ),
                ..self
            }
        } else {
            self
        }
    }
}

/// A counter after `n` more events, held at its maximum.
pub open spec fn counted(counter: u64, n: nat) -> u64 {
    least(counter + n, u64::MAX as int) as u64
}

/// Advances a counter, held at its maximum.
pub fn count_events(counter: u64, n: usize) -> (next: u64)
    ensures
        next == counted(counter, n as nat),
{
    counter.saturating_add(n as u64)
}

impl GpuTextureHistory {
    pub open spec fn wf(self) -> bool {
        distinct_keys(self.entries@)
    }

    /// The byte count is the sum over the entries and within the limit.
    pub open spec fn within_budget(self) -> bool {
        &&& self.current_bytes == total_bytes(self.entries@)
        &&& self.current_bytes <= self.max_bytes
    }

    /// The entries and byte count before eviction, once `entry` has replaced what its key held.
    pub open spec fn inserted(self, entry: CachedGpuTexture) -> (Seq<CachedGpuTexture>, nat) {
        (
            without_key(self.entries@, entry.key).push(entry),
            capped(
                monus(self.current_bytes as nat, bytes_of_key(self.entries@, entry.key))
                    + entry.estimated_bytes as nat,
            ),
        )
    }

    pub fn new(max_bytes: usize) -> (history: Self)
        ensures
            history.wf(),
            history.within_budget(),
            history.entries@ == Seq::<CachedGpuTexture>::empty(),
            history.max_bytes == max_bytes,
            history.insert_count == 0,
            history.evict_count == 0,
            history.full_hit_count == 0,
            history.miss_count == 0,
            history.partial_spread_hit_count == 0,
            history.partial_reuse_count == 0,
            history.clear_count == 0,
            history.last_clear_reason is None,
    {
        Self {
            entries: Vec::new(),
            current_bytes: 0,
            max_bytes,
            insert_count: 0,
            evict_count: 0,
            full_hit_count: 0,
            miss_count: 0,
            partial_spread_hit_count: 0,
            partial_reuse_count: 0,
            clear_count: 0,
            last_clear_reason: None,
        }
    }

    /// Stores a texture as the most recently used one, in place of what its key held, and lets
    /// the oldest go until the byte count is within the limit. A texture larger than the limit
    /// is refused and changes nothing.
    pub fn insert(&mut self, key: GpuTextureKey, texture: TextureRef, estimated_bytes: usize) -> (
    stored: bool)
        requires
            old(self).wf(),
        ensures
            final(self).wf(),
            stored == (estimated_bytes <= old(self).max_bytes),
            final(self)@ == old(self)@.stored(CachedGpuTexture { key, texture, estimated_bytes }),
            !stored ==> *final(self) == *old(self),
            stored ==> ({
                let (entries, bytes) = old(self).inserted(
                    CachedGpuTexture { key, texture, estimated_bytes },
                );
                let evicted = evictions(entries, bytes, old(self).max_bytes as nat);
                &&& final(self).entries@ == entries.skip(evicted as int)
                &&& final(self).current_bytes == bytes_after_evicting(entries, bytes, evicted)
                &&& final(self).insert_count == counted(old(self).insert_count, 1)
                &&& final(self).evict_count == counted(old(self).evict_count, evicted)
                &&& *final(self) == (GpuTextureHistory {
                    entries: final(self).entries,
                    current_bytes: final(self).current_bytes,
                    insert_count: final(self).insert_count,
                    evict_count: final(self).evict_count,
                    ..*old(self)
                })
            }),
    {
        if estimated_bytes > self.max_bytes {
            return false;
        }
        let entry = CachedGpuTexture { key, texture, estimated_bytes };
        let ghost entries_before = self.entries@;
        proof {
            lemma_without_key(entries_before, key);
        }
        match find_key(&self.entries, key) {
            Some(i) => {
                let old_entry: CachedGpuTexture = self.entries.remove(i);
                self.current_bytes = self.current_bytes.saturating_sub(old_entry.estimated_bytes);
            },
            None => {},
        }
        assert(self.entries@ == without_key(entries_before, key));
        self.current_bytes = self.current_bytes.saturating_add(estimated_bytes);
        self.entries.push(entry);
        self.insert_count = count_events(self.insert_count, 1);
        let ghost entries = self.entries@;
        assert(distinct_keys(entries)) by {
            assert forall|i: int, j: int| 0 <= i < j < entries.len() implies (
            #[trigger] entries[i]).key != (#[trigger] entries[j]).key by {
                assert(entries[i] == without_key(entries_before, key)[i]);
            }
        }
        let (bytes, evicted): (usize, usize) = evict_oldest(
            &mut self.entries,
            self.current_bytes,
            self.max_bytes,
        );
        self.current_bytes = bytes;
        self.evict_count = count_events(self.evict_count, evicted);
        true
    }

    /// Drops every texture and notes why. Only a clear that dropped something is counted.
    pub fn clear(&mut self, reason: &'static str)
        ensures
            final(self).wf(),
            final(self).within_budget(),
            final(self).entries@ == Seq::<CachedGpuTexture>::empty(),
            final(self).last_clear_reason == Some(reason),
            final(self)@ == old(self)@.cleared(reason),
            final(self).clear_count == if old(self).entries@.len() > 0 {
                counted(old(self).clear_count, 1)
            } else {
                old(self).clear_count
            },
            *final(self) == (GpuTextureHistory {
                entries: final(self).entries,
                current_bytes: 0,
                last_clear_reason: Some(reason),
                clear_count: final(self).clear_count,
                ..*old(self)
            }),
    {
        let had_entries: bool = self.entries.len() > 0;
        self.entries.clear();
        assert(self.entries@ =~= Seq::<CachedGpuTexture>::empty());
        self.current_bytes = 0;
        self.last_clear_reason = Some(reason);
        if had_entries {
            self.clear_count = count_events(self.clear_count, 1);
        }
    }

    pub fn current_bytes(&self) -> (bytes: usize)
        ensures
            bytes == self.current_bytes,
    {
        self.current_bytes
    }

    pub fn max_bytes(&self) -> (bytes: usize)
        ensures
            bytes == self.max_bytes,
    {
        self.max_bytes
    }

    pub fn entry_count(&self) -> (count: usize)
        ensures
            count == self.entries@.len(),
    {
        self.entries.len()
    }

    pub fn snapshot(&self) -> (snapshot: GpuTextureHistorySnapshot)
        ensures
            snapshot == (GpuTextureHistorySnapshot {
                current_bytes: self.current_bytes,
                max_bytes: self.max_bytes,
                entry_count: self.entries@.len() as usize,
                insert_count: self.insert_count,
                evict_count: self.evict_count,
                full_hit_count: self.full_hit_count,
                miss_count: self.miss_count,
                partial_spread_hit_count: self.partial_spread_hit_count,
                partial_reuse_count: self.partial_reuse_count,
                clear_count: self.clear_count,
                last_clear_reason: self.last_clear_reason,
            }),
    {
        GpuTextureHistorySnapshot {
            current_bytes: self.current_bytes,
            max_bytes: self.max_bytes,
            entry_count: self.entries.len(),
            insert_count: self.insert_count,
            evict_count: self.evict_count,
            full_hit_count: self.full_hit_count,
            miss_count: self.miss_count,
            partial_spread_hit_count: self.partial_spread_hit_count,
            partial_reuse_count: self.partial_reuse_count,
            clear_count: self.clear_count,
            last_clear_reason: self.last_clear_reason,
        }
    }

    pub fn entry_snapshots(&self) -> (snapshots: Vec<GpuTextureEntrySnapshot>)
        ensures
            snapshots@ == snapshots_of(self.entries@),
    {
        snapshot_entries(&self.entries)
    }

    pub fn record_hit(&mut self)
        ensures
            *final(self) == (GpuTextureHistory {
                full_hit_count: counted(old(self).full_hit_count, 1),
                ..*old(self)
            }),
    {
        self.full_hit_count = count_events(self.full_hit_count, 1);
    }

    pub fn record_miss(&mut self)
        ensures
            *final(self) == (GpuTextureHistory {
                miss_count: counted(old(self).miss_count, 1),
                ..*old(self)
            }),
    {
        self.miss_count = count_events(self.miss_count, 1);
    }

    pub fn record_partial_spread_hit(&mut self)
        ensures
            *final(self) == (GpuTextureHistory {
                partial_spread_hit_count: counted(old(self).partial_spread_hit_count, 1),
                ..*old(self)
            }),
    {
        self.partial_spread_hit_count = count_events(self.partial_spread_hit_count, 1);
    }

    pub fn record_partial_reuse(&mut self)
        ensures
            *final(self) == (GpuTextureHistory {
                partial_reuse_count: counted(old(self).partial_reuse_count, 1),
                ..*old(self)
            }),
    {
        self.partial_reuse_count = count_events(self.partial_reuse_count, 1);
    }

    /// The best suitable texture of a page; the history stays as it is.
    pub fn peek_suitable(&self, page: u32, requirement: DisplayRequirement) -> (hit: Option<
        GpuTextureHit,
    >)
        requires
            self.wf(),
        ensures
            lookup_finds(self.entries@, page, requirement, GpuTextureHitSource::History, hit),
            hit == self@.found(page, requirement),
    {
        let hit = peek(&self.entries, page, requirement, GpuTextureHitSource::History);
        proof {
            lemma_best_hit(
                self.entries@,
                page,
                requirement,
                GpuTextureHitSource::History,
                hit,
            );
        }
        hit
    }

    /// Marks a held texture as the most recently used one.
    pub fn touch(&mut self, key: &GpuTextureKey) -> (held: bool)
        requires
            old(self).wf(),
        ensures
            final(self).wf(),
            held == holds_key(old(self).entries@, *key),
            final(self)@ == old(self)@.touched(*key),
            !held ==> *final(self) == *old(self),
            held ==> final(self).entries@ == without_key(old(self).entries@, *key).push(
                old(self).entries@[key_index(old(self).entries@, *key)],
            ) && *final(self) == (GpuTextureHistory {
                entries: final(self).entries,
                ..*old(self)
            }),
    {
        proof {
            lemma_without_key(self.entries@, *key);
        }
        match find_key(&self.entries, *key) {
            Some(i) => {
                let entry: CachedGpuTexture = self.entries.remove(i);
                let ghost kept = self.entries@;
                assert(kept == without_key(old(self).entries@, *key));
                self.entries.push(entry);
                assert(distinct_keys(self.entries@)) by {
                    let now = self.entries@;
                    assert forall|a: int, b: int| 0 <= a < b < now.len() implies (
                    #[trigger] now[a]).key != (#[trigger] now[b]).key by {
                        assert(now[a] == kept[a]);
                    }
                }
                true
            },
            None => false,
        }
    }
}

/// A history within its budget stays within it, and a stored texture is held afterwards, most
/// recently used. (The byte counter cannot hold the sum of two limits above half its range.)
pub proof fn law_insert_keeps_the_budget(
    history: GpuTextureHistory,
    entry: CachedGpuTexture,
)
    requires
        history.wf(),
        history.within_budget(),
        history.max_bytes <= usize::MAX / 2,
        entry.estimated_bytes <= history.max_bytes,
    ensures
        ({
            let (entries, bytes) = history.inserted(entry);
            let evicted = evictions(entries, bytes, history.max_bytes as nat);
            &&& bytes_after_evicting(entries, bytes, evicted) == total_bytes(
                entries.skip(evicted as int),
            )
            &&& total_bytes(entries.skip(evicted as int)) <= history.max_bytes
            &&& entries.skip(evicted as int).len() > 0
            &&& entries.skip(evicted as int).last() == entry
        }),
{
    let (entries, bytes) = history.inserted(entry);
    lemma_without_key(history.entries@, entry.key);
    lemma_total_bytes(without_key(history.entries@, entry.key), entry);
    assert(bytes == total_bytes(entries));
    lemma_evictions(entries, history.max_bytes as nat);
    let evicted = evictions(entries, bytes, history.max_bytes as nat);
    assert(entries.last() == entry);
    assert(entries.skip(evicted as int).last() == entries.last());
}

/// Storing a texture under a key that is held does not change how many distinct keys there are
/// before eviction, and a key occurs at most once.
pub proof fn law_insert_replaces_the_same_key(history: GpuTextureHistory, entry: CachedGpuTexture)
    requires
        history.wf(),
        holds_key(history.entries@, entry.key),
    ensures
        history.inserted(entry).0.len() == history.entries@.len(),
{
    lemma_key_index(history.entries@, entry.key);
}

/// The history after a texture was stored: it is the newest, its key is held once, and of the others
/// the oldest are gone, no more of them than the limit asks for.
pub proof fn law_stored_textures_are_newest(history: HistoryState, entry: CachedGpuTexture)
    requires
        distinct_keys(history.entries),
        history.bytes == total_bytes(history.entries),
        history.bytes <= history.max <= usize::MAX / 2,
        entry.estimated_bytes <= history.max,
    ensures
        ({
            let stored = history.stored(entry);
            &&& stored.entries.len() > 0 && stored.entries.last() == entry
            &&& stored.bytes == total_bytes(stored.entries) && stored.bytes <= history.max
            &&& stored.max == history.max
            &&& distinct_keys(stored.entries)
            &&& history.bytes + entry.estimated_bytes <= history.max ==> stored.entries
                == without_key(history.entries, entry.key).push(entry)
            &&& stored.insert_count == counted(history.insert_count, 1)
            &&& exists|gone: int|
                0 <= gone <= history.entries.len() && stored.entries == #[trigger] without_key(
                    history.entries,
                    entry.key,
                ).push(entry).skip(gone) && stored.evict_count == counted(
                    history.evict_count,
                    gone as nat,
                ) && (gone > 0 ==> total_bytes(
                    without_key(history.entries, entry.key).push(entry).skip(gone - 1),
                ) > history.max)
        }),
{
    let others = without_key(history.entries, entry.key);
    let entries = others.push(entry);
    lemma_without_key(history.entries, entry.key);
    lemma_total_bytes(others, entry);
    super::texture_entries::law_other_keys_are_kept(history.entries, entry.key, entry);
    assert(distinct_keys(entries)) by {
        assert forall|i: int, j: int| 0 <= i < j < entries.len() implies (
        #[trigger] entries[i]).key != (#[trigger] entries[j]).key by {
            if j == others.len() {
                assert(others[i].key != entry.key);
            }
        }
    }
    lemma_evictions(entries, history.max);
    super::texture_entries::law_no_more_goes_than_must(entries, history.max);
    let gone = evictions(entries, total_bytes(entries), history.max) as int;
    assert(entries.last().estimated_bytes <= history.max);
    assert(history.stored(entry).entries == entries.skip(gone));
    assert(entries.skip(0) =~= entries);
}

/// A texture larger than the limit changes nothing.
pub proof fn law_too_large_textures_are_refused(history: HistoryState, entry: CachedGpuTexture)
    requires
        entry.estimated_bytes > history.max,
    ensures
        history.stored(entry) == history,
{
}

/// The history is empty once it was cleared, the reason is told, and the limit stays. Clearing what is
/// empty does not count.
pub proof fn law_cleared_means_empty(history: HistoryState, reason: &'static str)
    ensures
        ({
            let cleared = history.cleared(reason);
            &&& cleared.entries.len() == 0 && cleared.bytes == 0
            &&& cleared.max == history.max
            &&& cleared.last_clear_reason == Some(reason)
            &&& history.entries.len() > 0 && history.clear_count < u64::MAX ==> cleared.clear_count
                == history.clear_count + 1
            &&& history.entries.len() == 0 ==> cleared.clear_count == history.clear_count
            &&& cleared.insert_count == history.insert_count
            &&& cleared.evict_count == history.evict_count
        }),
{
}

/// A texture that is used again is the last to go; the others keep their order, and nothing is
/// lost.
pub proof fn law_used_textures_go_last(history: HistoryState, key: GpuTextureKey)
    requires
        distinct_keys(history.entries),
    ensures
        holds_key(history.entries, key) ==> {
            let touched = history.touched(key);
            &&& touched.entries.len() == history.entries.len()
            &&& touched.entries.last().key == key
            &&& history.entries.contains(touched.entries.last())
            &&& touched.entries.drop_last() == without_key(history.entries, key)
            &&& touched.bytes == history.bytes
        },
        !holds_key(history.entries, key) ==> history.touched(key) == history,
        holds_key(history.entries, key) && history.entries.last().key == key
            ==> history.touched(key).entries == history.entries,
{
    if holds_key(history.entries, key) {
        lemma_key_index(history.entries, key);
        let at = key_index(history.entries, key);
        let others = without_key(history.entries, key);
        assert(others.push(history.entries[at]).drop_last() =~= others);
        if history.entries.last().key == key {
            assert(at == history.entries.len() - 1);
            assert(others.push(history.entries[at]) =~= history.entries);
        }
    }
}

} // verus!
