//! Decoded pages held in memory, least recently used first, within a byte budget. Which pages
//! are worth keeping is decided elsewhere; the cache is told which pages to protect, or in which
//! order pages may go.
use vstd::prelude::*;

use std::collections::HashSet;

use super::gpu_texture_history::{count_events, counted};
use super::gpu_warmup_planner::RgbaReadyEntrySnapshot;
use super::working_set::{
    page_render_signature_rank, rank_before, rank_is_before, signature_rank, DisplayRequirement,
    RenderSignature, SignatureRank,
};
use crate::num::{abs_diff_u32, capped, distance, least, min_u32, monus};

verus! {

#[derive(Clone, Copy, Debug, PartialEq, Eq, Hash, Structural)]
pub struct RgbaCacheKey {
    pub page: u32,
    pub render_signature: RenderSignature,
}

/// A decoded page: a handle on its frames, how many there are, and the size of the first one.
#[derive(Clone, Copy, Debug, PartialEq, Eq, Structural)]
pub struct FrameSet {
    pub id: u64,
    pub frame_count: usize,
    pub first_frame_bytes: usize,
    pub first_frame_width: u32,
    pub first_frame_height: u32,
    /// How long the first frame of an animation is shown.
    pub first_delay_ms: u32,
}

#[derive(Clone, Copy, Debug)]
pub struct CachedRgbaPage {
    pub key: RgbaCacheKey,
    pub frames: FrameSet,
    pub bytes: usize,
    pub source: &'static str,
}

/// What an eviction let go.
#[derive(Clone, Copy, Debug, PartialEq, Eq, Structural)]
pub struct RgbaEvictionOutcome {
    pub evicted_count: usize,
    pub evicted_bytes: usize,
    /// Distance from the current page of the nearest page that went.
    pub nearest_evicted_distance: Option<u32>,
    pub protected_evicted: bool,
}

/// What an insertion did.
#[derive(Clone, Copy, Debug, PartialEq, Eq, Structural)]
pub struct RgbaInsertOutcome {
    pub inserted: bool,
    pub inserted_survived: bool,
    pub eviction: RgbaEvictionOutcome,
}

pub open spec fn no_eviction() -> RgbaEvictionOutcome {
    RgbaEvictionOutcome {
        evicted_count: 0,
        evicted_bytes: 0,
        nearest_evicted_distance: None,
        protected_evicted: false,
    }
}

pub open spec fn no_insertion() -> RgbaInsertOutcome {
    RgbaInsertOutcome { inserted: false, inserted_survived: false, eviction: no_eviction() }
}

impl Default for RgbaEvictionOutcome {
    fn default() -> (outcome: Self)
        ensures
            outcome == no_eviction(),
    {
        RgbaEvictionOutcome {
            evicted_count: 0,
            evicted_bytes: 0,
            nearest_evicted_distance: None,
            protected_evicted: false,
        }
    }
}

impl Default for RgbaInsertOutcome {
    fn default() -> (outcome: Self)
        ensures
            outcome == no_insertion(),
    {
        RgbaInsertOutcome {
            inserted: false,
            inserted_survived: false,
            eviction: RgbaEvictionOutcome::default(),
        }
    }
}

pub type Pages = Seq<CachedRgbaPage>;

pub open spec fn distinct_page_keys(entries: Pages) -> bool {
    forall|i: int, j: int|
        0 <= i < j < entries.len() ==> (#[trigger] entries[i]).key != (#[trigger] entries[j]).key
}

pub open spec fn holds(entries: Pages, key: RgbaCacheKey) -> bool {
    exists|i: int| 0 <= i < entries.len() && (#[trigger] entries[i]).key == key
}

pub open spec fn holds_page(entries: Pages, page: u32) -> bool {
    exists|i: int| 0 <= i < entries.len() && (#[trigger] entries[i]).key.page == page
}

/// The entry that a still page makes.
pub open spec fn page_entry(key: RgbaCacheKey, frames: FrameSet, source: &'static str) ->
    CachedRgbaPage {
    CachedRgbaPage { key, frames, bytes: frames.first_frame_bytes, source }
}

/// The position of a held key.
pub open spec fn index_of(entries: Pages, key: RgbaCacheKey) -> int {
    choose|i: int| 0 <= i < entries.len() && (#[trigger] entries[i]).key == key
}

/// The entries but the one with the given key.
pub open spec fn without(entries: Pages, key: RgbaCacheKey) -> Pages {
    if holds(entries, key) {
        entries.remove(index_of(entries, key))
    } else {
        entries
    }
}

/// The bytes held under a key.
pub open spec fn bytes_under(entries: Pages, key: RgbaCacheKey) -> nat {
    if holds(entries, key) {
        entries[index_of(entries, key)].bytes as nat
    } else {
        0
    }
}

/// The entries of one page.
pub open spec fn of_page(entries: Pages, page: u32) -> Pages
    decreases entries.len(),
{
    if entries.len() == 0 {
        entries
    } else if entries.last().key.page == page {
        of_page(entries.drop_last(), page).push(entries.last())
    } else {
        of_page(entries.drop_last(), page)
    }
}

/// The entries of all other pages, in the same order.
pub open spec fn without_page(entries: Pages, page: u32) -> Pages
    decreases entries.len(),
{
    if entries.len() == 0 {
        entries
    } else if entries.last().key.page == page {
        without_page(entries.drop_last(), page)
    } else {
        without_page(entries.drop_last(), page).push(entries.last())
    }
}

pub open spec fn total(entries: Pages) -> nat
    decreases entries.len(),
{
    if entries.len() == 0 {
        0
    } else {
        total(entries.drop_last()) + entries.last().bytes as nat
    }
}

/// The first entry whose page is not protected, or the number of entries if there is none.
pub open spec fn first_unprotected(entries: Pages, protected: Set<u32>) -> int
    decreases entries.len(),
{
    if entries.len() == 0 {
        0
    } else if !protected.contains(entries[0].key.page) {
        0
    } else {
        1 + first_unprotected(entries.drop_first(), protected)
    }
}

/// The next entry to go: the oldest unprotected one, or the oldest of all where every page is
/// protected.
pub open spec fn victim(entries: Pages, protected: Set<u32>) -> int {
    let i = first_unprotected(entries, protected);
    if i < entries.len() {
        i
    } else {
        0
    }
}

/// What is left of the entries and of the byte count once the budget is met, and what went, in
/// order. A byte count that is over the limit with nothing left is reset.
pub struct Eviction {
    pub left: Pages,
    pub bytes: nat,
    pub gone: Pages,
}

pub open spec fn eviction(entries: Pages, bytes: nat, max: nat, protected: Set<u32>) -> Eviction
    decreases entries.len(),
{
    if bytes <= max {
        Eviction { left: entries, bytes, gone: Seq::empty() }
    } else if entries.len() == 0 {
        Eviction { left: entries, bytes: 0, gone: Seq::empty() }
    } else {
        let i = victim(entries, protected);
        if 0 <= i < entries.len() {
            let rest = eviction(
                entries.remove(i),
                monus(bytes, entries[i].bytes as nat),
                max,
                protected,
            );
            Eviction { gone: seq![entries[i]] + rest.gone, ..rest }
        } else {
            Eviction { left: entries, bytes, gone: Seq::empty() }
        }
    }
}

/// The smallest distance of an entry from the current page.
pub open spec fn nearest(gone: Pages, current_page: u32) -> Option<u32>
    decreases gone.len(),
{
    if gone.len() == 0 {
        None
    } else {
        let last = distance(gone.last().key.page as int, current_page as int);
        match nearest(gone.drop_last(), current_page) {
            Some(before) => Some(least(before as int, last) as u32),
            None => Some(last as u32),
        }
    }
}

pub open spec fn any_protected(gone: Pages, protected: Set<u32>) -> bool {
    exists|i: int| 0 <= i < gone.len() && protected.contains(#[trigger] gone[i].key.page)
}

/// The report on an eviction.
pub open spec fn outcome_of(gone: Pages, current_page: u32, protected: Set<u32>) ->
    RgbaEvictionOutcome {
    RgbaEvictionOutcome {
        evicted_count: gone.len() as usize,
        evicted_bytes: capped(total(gone)) as usize,
        nearest_evicted_distance: nearest(gone, current_page),
        protected_evicted: any_protected(gone, protected),
    }
}

/// The report on removing entries by page.
pub open spec fn removal_outcome(gone: Pages) -> RgbaEvictionOutcome {
    RgbaEvictionOutcome {
        evicted_count: gone.len() as usize,
        evicted_bytes: capped(total(gone)) as usize,
        nearest_evicted_distance: if gone.len() > 0 {
            Some(0)
        } else {
            None
        },
        protected_evicted: false,
    }
}

/// The first candidate page that is held, is not the inserted one and is not protected.
pub open spec fn next_candidate(
    entries: Pages,
    candidates: Seq<u32>,
    inserted_page: u32,
    protected: Set<u32>,
) -> Option<u32>
    decreases candidates.len(),
{
    if candidates.len() == 0 {
        None
    } else if candidates[0] != inserted_page && !protected.contains(candidates[0]) && holds_page(
        entries,
        candidates[0],
    ) {
        Some(candidates[0])
    } else {
        next_candidate(entries, candidates.drop_first(), inserted_page, protected)
    }
}

/// What is left once candidate pages have gone, in the candidates' order, until the budget is
/// met or no candidate is left; `pages` counts the pages that went.
pub struct PageEviction {
    pub left: Pages,
    pub bytes: nat,
    pub gone: Pages,
    pub pages: nat,
}

pub open spec fn page_eviction(
    entries: Pages,
    bytes: nat,
    max: nat,
    candidates: Seq<u32>,
    inserted_page: u32,
    protected: Set<u32>,
) -> PageEviction
    decreases entries.len(),
{
    let next = next_candidate(entries, candidates, inserted_page, protected);
    if bytes > max && next is Some && without_page(entries, next->0).len() < entries.len() {
        let page = next->0;
        let rest = page_eviction(
            without_page(entries, page),
            monus(bytes, total(of_page(entries, page))),
            max,
            candidates,
            inserted_page,
            protected,
        );
        PageEviction { gone: of_page(entries, page) + rest.gone, pages: rest.pages + 1, ..rest }
    } else {
        PageEviction { left: entries, bytes, gone: Seq::empty(), pages: 0 }
    }
}

pub open spec fn page_rank(
    entry: CachedRgbaPage,
    page: u32,
    requirement: DisplayRequirement,
) -> Option<SignatureRank> {
    signature_rank(entry.key.page, entry.key.render_signature, page, requirement, entry.bytes)
}

/// Whether entry `i` suits the requirement and no suitable entry ranks before it.
pub open spec fn is_best_page(
    entries: Pages,
    page: u32,
    requirement: DisplayRequirement,
    i: int,
) -> bool {
    &&& 0 <= i < entries.len()
    &&& page_rank(entries[i], page, requirement) is Some
    &&& forall|j: int|
        0 <= j < entries.len() && #[trigger] page_rank(entries[j], page, requirement) is Some
            ==> !rank_before(
            page_rank(entries[j], page, requirement)->0,
            page_rank(entries[i], page, requirement)->0,
        )
}

pub open spec fn any_suitable_page(
    entries: Pages,
    page: u32,
    requirement: DisplayRequirement,
) -> bool {
    exists|j: int|
        0 <= j < entries.len() && #[trigger] page_rank(entries[j], page, requirement) is Some
}

/// The pages of the entries, each at its first occurrence.
pub open spec fn pages_in_order(entries: Pages) -> Seq<u32>
    decreases entries.len(),
{
    if entries.len() == 0 {
        Seq::empty()
    } else {
        let before = pages_in_order(entries.drop_last());
        if before.contains(entries.last().key.page) {
            before
        } else {
            before.push(entries.last().key.page)
        }
    }
}

/// What the planners see of an entry.
pub open spec fn ready_snapshot(entry: CachedRgbaPage) -> RgbaReadyEntrySnapshot {
    RgbaReadyEntrySnapshot {
        key: entry.key,
        page: entry.key.page,
        bytes: entry.bytes,
        signature: entry.key.render_signature,
        source: entry.source,
    }
}

pub struct RgbaPageCache {
    /// Least recently used first.
    pub entries: Vec<CachedRgbaPage>,
    pub current_bytes: usize,
    pub max_bytes: usize,
    /// Grows with every insertion, removal and eviction that changed the contents.
    pub mutation_revision: u64,
}

/// What a cache holds, as values.
pub struct CacheState {
    pub entries: Pages,
    pub bytes: nat,
    pub max: nat,
    pub revision: u64,
}

impl View for RgbaPageCache {
    type V = CacheState;

    open spec fn view(&self) -> CacheState {
        CacheState {
            entries: self.entries@,
            bytes: self.current_bytes as nat,
            max: self.max_bytes as nat,
            revision: self.mutation_revision,
        }
    }
}

impl CacheState {
    /// No key is held twice, the byte count is the sum over the entries, and it is within the limit.
    pub open spec fn sound(self) -> bool {
        &&& distinct_page_keys(self.entries)
        &&& self.bytes == total(self.entries)
        &&& self.bytes <= self.max
    }

    /// The cache without the decodes of a page.
    pub open spec fn without_decodes_of(self, page: u32) -> CacheState {
        CacheState {
            entries: without_page(self.entries, page),
            bytes: monus(self.bytes, total(of_page(self.entries, page))),
            revision: if holds_page(self.entries, page) {
                counted(self.revision, 1)
            } else {
                self.revision
            },
            ..self
        }
    }

    /// A still page that the limit can hold at all.
    pub open spec fn accepts(self, frames: FrameSet) -> bool {
        &&& frames.frame_count == 1
        &&& self.max > 0
        &&& frames.first_frame_bytes <= self.max
    }

    /// The cache with a held key as the most recently used one.
    pub open spec fn used(self, key: RgbaCacheKey) -> CacheState {
        if holds(self.entries, key) {
            CacheState {
                entries: without(self.entries, key).push(
                    self.entries[index_of(self.entries, key)],
                ),
                ..self
            }
        } else {
            self
        }
    }

    /// The best suitable decode of a page.
    pub open spec fn best(self, page: u32, requirement: DisplayRequirement) -> Option<
        CachedRgbaPage,
    > {
        if any_suitable_page(self.entries, page, requirement) {
            Some(
                self.entries[choose|i: int| #[trigger]
                    is_best_page(self.entries, page, requirement, i)],
            )
        } else {
            None
        }
    }

    /// The cache after a lookup for a page: the decode that was found is the most recently
    /// used one.
    pub open spec fn looked_up(self, page: u32, requirement: DisplayRequirement) -> CacheState {
        match self.best(page, requirement) {
            Some(entry) => self.used(entry.key),
            None => self,
        }
    }

    /// `entry` in place of what its key held, most recently used, before anything is evicted.
    pub open spec fn placed(self, entry: CachedRgbaPage) -> CacheState {
        CacheState {
            entries: without(self.entries, entry.key).push(entry),
            bytes: capped(monus(self.bytes, bytes_under(self.entries, entry.key)) + entry.bytes as nat),
            revision: counted(self.revision, 1),
            ..self
        }
    }

    /// What is evicted under the present limit.
    pub open spec fn overflow(self, protected: Set<u32>) -> Eviction {
        eviction(self.entries, self.bytes, self.max, protected)
    }

    /// The cache once the limit is met, protected pages gone last.
    pub open spec fn trimmed(self, protected: Set<u32>) -> CacheState {
        let evicted = self.overflow(protected);
        CacheState {
            entries: evicted.left,
            bytes: evicted.bytes,
            revision: if evicted.gone.len() > 0 {
                counted(self.revision, 1)
            } else {
                self.revision
            },
            ..self
        }
    }

    /// The cache under a new limit, met at once.
    pub open spec fn limited(self, max: nat, protected: Set<u32>) -> CacheState {
        CacheState { max, ..self }.trimmed(protected)
    }

    /// The cache with a page stored and the limit met, protected pages gone last.
    pub open spec fn stored(self, entry: CachedRgbaPage, protected: Set<u32>) -> CacheState {
        if self.accepts(entry.frames) {
            self.placed(entry).trimmed(protected)
        } else {
            self
        }
    }

    /// The report that goes with [`Self::stored`].
    pub open spec fn stored_outcome(
        self,
        entry: CachedRgbaPage,
        current_page: u32,
        protected: Set<u32>,
    ) -> RgbaInsertOutcome {
        if self.accepts(entry.frames) {
            let evicted = self.placed(entry).overflow(protected);
            RgbaInsertOutcome {
                inserted: true,
                inserted_survived: holds(evicted.left, entry.key),
                eviction: outcome_of(evicted.gone, current_page, protected),
            }
        } else {
            no_insertion()
        }
    }

    /// What goes for a page stored with eviction candidates.
    pub open spec fn candidates_gone(
        self,
        entry: CachedRgbaPage,
        candidates: Seq<u32>,
        protected: Set<u32>,
    ) -> PageEviction {
        let placed = self.placed(entry);
        page_eviction(
            placed.entries,
            placed.bytes,
            self.max,
            candidates,
            entry.key.page,
            protected,
        )
    }

    /// Whether the candidates free too little, so that the stored page itself has to go.
    pub open spec fn gives_up(
        self,
        entry: CachedRgbaPage,
        candidates: Seq<u32>,
        protected: Set<u32>,
    ) -> bool {
        self.candidates_gone(entry, candidates, protected).bytes > self.max
    }

    /// The cache with a page stored and candidate pages gone for it.
    pub open spec fn stored_over(
        self,
        entry: CachedRgbaPage,
        candidates: Seq<u32>,
        protected: Set<u32>,
    ) -> CacheState {
        let evicted = self.candidates_gone(entry, candidates, protected);
        if !self.accepts(entry.frames) {
            self
        } else if self.gives_up(entry, candidates, protected) {
            CacheState {
                entries: without_page(evicted.left, entry.key.page),
                bytes: monus(evicted.bytes, total(of_page(evicted.left, entry.key.page))),
                revision: counted(self.revision, 2 + evicted.pages),
                ..self
            }
        } else {
            CacheState {
                entries: evicted.left,
                bytes: evicted.bytes,
                revision: counted(self.revision, 1 + evicted.pages),
                ..self
            }
        }
    }

    /// The report that goes with [`Self::stored_over`].
    pub open spec fn stored_over_outcome(
        self,
        entry: CachedRgbaPage,
        candidates: Seq<u32>,
        protected: Set<u32>,
    ) -> RgbaInsertOutcome {
        let evicted = self.candidates_gone(entry, candidates, protected);
        if !self.accepts(entry.frames) {
            no_insertion()
        } else if self.gives_up(entry, candidates, protected) {
            RgbaInsertOutcome {
                inserted: true,
                inserted_survived: false,
                eviction: removal_outcome(evicted.gone + of_page(evicted.left, entry.key.page)),
            }
        } else {
            RgbaInsertOutcome {
                inserted: true,
                inserted_survived: true,
                eviction: removal_outcome(evicted.gone),
            }
        }
    }
}

impl RgbaPageCache {
    pub open spec fn wf(self) -> bool {
        distinct_page_keys(self.entries@)
    }

    pub fn new() -> (cache: Self)
        ensures
            cache.wf(),
            cache@.sound(),
            cache.entries@ == Seq::<CachedRgbaPage>::empty(),
            cache.current_bytes == 0,
            cache.max_bytes == 0,
            cache.mutation_revision == 0,
    {
        Self { entries: Vec::new(), current_bytes: 0, max_bytes: 0, mutation_revision: 0 }
    }

    /// The position of a key, if it is held.
    fn position(&self, key: RgbaCacheKey) -> (index: Option<usize>)
        requires
            self.wf(),
        ensures
            index is Some <==> holds(self.entries@, key),
            index matches Some(i) ==> i < self.entries@.len() && i == index_of(self.entries@, key)
                && self.entries@[i as int].key == key,
    {
        let mut i: usize = 0;
        while i < self.entries.len()
            invariant
                i <= self.entries@.len(),
                self.wf(),
                forall|k: int| 0 <= k < i ==> (#[trigger] self.entries@[k]).key != key,
            decreases self.entries@.len() - i,
        {
            if self.entries[i].key == key {
                assert(holds(self.entries@, key));
                let ghost found = index_of(self.entries@, key);
                assert(self.entries@[found].key == key);
                return Some(i);
            }
            i = i + 1;
        }
        None
    }

    fn bump_mutation_revision(&mut self)
        ensures
            *final(self) == (RgbaPageCache {
                mutation_revision: counted(old(self).mutation_revision, 1),
                ..*old(self)
            }),
    {
        self.mutation_revision = count_events(self.mutation_revision, 1);
    }

    /// Lets entries go until the byte count is within the limit, protected pages last.
    fn evict_to_budget(&mut self, current_page: u32, protected_pages: &HashSet<u32>) -> (outcome:
        RgbaEvictionOutcome)
        requires
            old(self).wf(),
        ensures
            final(self).wf(),
            final(self)@ == old(self)@.trimmed(protected_pages@),
            outcome == outcome_of(
                old(self)@.overflow(protected_pages@).gone,
                current_page,
                protected_pages@,
            ),
    {
        broadcast use vstd::std_specs::hash::group_hash_axioms;

        let mut evicted_count: usize = 0;
        let mut evicted_bytes: usize = 0;
        let mut nearest_evicted_distance: Option<u32> = None;
        let mut protected_evicted: bool = false;
        let start_len: usize = self.entries.len();
        let ghost whole = eviction(
            self.entries@,
            self.current_bytes as nat,
            self.max_bytes as nat,
            protected_pages@,
        );
        let ghost mut gone: Pages = Seq::empty();
        assert(gone + whole.gone =~= whole.gone);
        while self.current_bytes > self.max_bytes
            invariant
                self.wf(),
                start_len == old(self).entries@.len(),
                self.max_bytes == old(self).max_bytes,
                self.mutation_revision == old(self).mutation_revision,
                gone.len() + self.entries@.len() == start_len,
                evicted_count == gone.len(),
                evicted_bytes == capped(total(gone)),
                nearest_evicted_distance == nearest(gone, current_page),
                protected_evicted == any_protected(gone, protected_pages@),
                ({
                    let rest = eviction(
                        self.entries@,
                        self.current_bytes as nat,
                        self.max_bytes as nat,
                        protected_pages@,
                    );
                    &&& rest.left == whole.left
                    &&& rest.bytes == whole.bytes
                    &&& gone + rest.gone == whole.gone
                }),
                whole == eviction(
                    old(self).entries@,
                    old(self).current_bytes as nat,
                    old(self).max_bytes as nat,
                    protected_pages@,
                ),
            ensures
                self.entries@ == whole.left,
                self.current_bytes == whole.bytes,
                gone == whole.gone,
            decreases self.entries@.len() + if self.current_bytes > self.max_bytes {
                1int
            } else {
                0
            },
        {
            let ghost entries_before = self.entries@;
            let ghost bytes_before = self.current_bytes as nat;
            let ghost rest_before = eviction(
                entries_before,
                bytes_before,
                self.max_bytes as nat,
                protected_pages@,
            );
            if self.entries.len() == 0 {
                self.current_bytes = 0;
                assert(gone + rest_before.gone =~= gone);
                break;
            }
            let mut index: usize = 0;
            assert(entries_before.skip(0) =~= entries_before);
            while index < self.entries.len() && protected_pages.contains(
                &self.entries[index].key.page,
            )
                invariant
                    index <= self.entries@.len(),
                    self.entries@ == entries_before,
                    first_unprotected(entries_before, protected_pages@) == index
                        + first_unprotected(entries_before.skip(index as int), protected_pages@),
                    forall|k: int|
                        0 <= k < index ==> protected_pages@.contains(
                            #[trigger] entries_before[k].key.page,
                        ),
                ensures
                    index <= self.entries@.len(),
                    self.entries@ == entries_before,
                    index == first_unprotected(entries_before, protected_pages@),
                decreases self.entries@.len() - index,
            {
                assert(entries_before.skip(index as int).drop_first() =~= entries_before.skip(
                    index + 1,
                ));
                index = index + 1;
            }
            let victim_index: usize = if index < self.entries.len() {
                index
            } else {
                0
            };
            assert(victim_index == victim(entries_before, protected_pages@));
            let old_entry: CachedRgbaPage = self.entries.remove(victim_index);
            assert(self.entries@ =~= entries_before.remove(victim_index as int));
            let is_protected: bool = protected_pages.contains(&old_entry.key.page);
            let page_distance: u32 = abs_diff_u32(old_entry.key.page, current_page);
            self.current_bytes = self.current_bytes.saturating_sub(old_entry.bytes);
            let ghost gone_before = gone;
            proof {
                gone = gone.push(old_entry);
                assert(gone.drop_last() =~= gone_before);
                let rest = eviction(
                    self.entries@,
                    self.current_bytes as nat,
                    self.max_bytes as nat,
                    protected_pages@,
                );
                assert(rest_before.gone == seq![old_entry] + rest.gone);
                assert(gone + rest.gone =~= gone_before + rest_before.gone);
            }
            if is_protected {
                protected_evicted = true;
                assert(gone.last().key.page == old_entry.key.page);
            } else {
                assert(any_protected(gone, protected_pages@) == any_protected(
                    gone_before,
                    protected_pages@,
                )) by {
                    if any_protected(gone_before, protected_pages@) {
                        let i = choose|i: int|
                            0 <= i < gone_before.len() && protected_pages@.contains(
                                #[trigger] gone_before[i].key.page,
                            );
                        assert(gone[i] == gone_before[i]);
                        assert(protected_pages@.contains(gone[i].key.page));
                    }
                    if any_protected(gone, protected_pages@) {
                        let i = choose|i: int|
                            0 <= i < gone.len() && protected_pages@.contains(
                                #[trigger] gone[i].key.page,
                            );
                        assert(gone[i] == gone_before[i]);
                    }
                }
            }
            evicted_count = evicted_count + 1;
            evicted_bytes = evicted_bytes.saturating_add(old_entry.bytes);
            nearest_evicted_distance = match nearest_evicted_distance {
                Some(before) => Some(min_u32(before, page_distance)),
                None => Some(page_distance),
            };
        }
        if evicted_count > 0 {
            self.bump_mutation_revision();
        }
        RgbaEvictionOutcome {
            evicted_count,
            evicted_bytes,
            nearest_evicted_distance,
            protected_evicted,
        }
    }

    /// Sets the limit and meets it at once.
    pub fn set_max_bytes_with_context(
        &mut self,
        max_bytes: usize,
        current_page: u32,
        protected_pages: &HashSet<u32>,
    ) -> (outcome: RgbaEvictionOutcome)
        requires
            old(self).wf(),
        ensures
            final(self).wf(),
            final(self)@ == old(self)@.limited(max_bytes as nat, protected_pages@),
            outcome == outcome_of(
                (CacheState { max: max_bytes as nat, ..old(self)@ }).overflow(protected_pages@).gone,
                current_page,
                protected_pages@,
            ),
    {
        self.max_bytes = max_bytes;
        self.evict_to_budget(current_page, protected_pages)
    }

    /// The frames held under a key, which becomes the most recently used one.
    pub fn get(&mut self, key: &RgbaCacheKey) -> (frames: Option<FrameSet>)
        requires
            old(self).wf(),
        ensures
            final(self).wf(),
            frames is Some <==> holds(old(self).entries@, *key),
            final(self)@ == old(self)@.used(*key),
            frames is None ==> *final(self) == *old(self),
            frames matches Some(frames) ==> ({
                let entry = old(self).entries@[index_of(old(self).entries@, *key)];
                &&& frames == entry.frames
                &&& final(self).entries@ == without(old(self).entries@, *key).push(entry)
                &&& *final(self) == (RgbaPageCache { entries: final(self).entries, ..*old(self) })
            }),
    {
        match self.position(*key) {
            Some(i) => {
                let entry: CachedRgbaPage = self.entries.remove(i);
                let ghost kept = self.entries@;
                self.entries.push(entry);
                assert(distinct_page_keys(self.entries@)) by {
                    let now = self.entries@;
                    assert forall|a: int, b: int| 0 <= a < b < now.len() implies (
                    #[trigger] now[a]).key != (#[trigger] now[b]).key by {
                        assert(now[a] == kept[a]);
                    }
                }
                Some(entry.frames)
            },
            None => None,
        }
    }

    /// What is held under a key; the order of use stays as it is.
    pub fn peek_exact(&self, key: &RgbaCacheKey) -> (found: Option<
        (FrameSet, RenderSignature, &'static str),
    >)
        requires
            self.wf(),
        ensures
            found is Some <==> holds(self.entries@, *key),
            found matches Some(found) ==> ({
                let entry = self.entries@[index_of(self.entries@, *key)];
                found == (entry.frames, key.render_signature, entry.source)
            }),
    {
        match self.position(*key) {
            Some(i) => {
                let entry: CachedRgbaPage = self.entries[i];
                Some((entry.frames, key.render_signature, entry.source))
            },
            None => None,
        }
    }

    /// The key of the best suitable decode of a page.
    pub fn best_suitable_candidate(&self, page: u32, requirement: DisplayRequirement) -> (key:
        Option<RgbaCacheKey>)
        requires
            self.wf(),
        ensures
            key == match self@.best(page, requirement) {
                Some(entry) => Some(entry.key),
                None => None,
            },
            key is None ==> !any_suitable_page(self.entries@, page, requirement),
            key matches Some(key) ==> exists|i: int| #[trigger]
                is_best_page(self.entries@, page, requirement, i) && self.entries@[i].key == key,
    {
        let mut best: Option<(SignatureRank, usize)> = None;
        let mut i: usize = 0;
        while i < self.entries.len()
            invariant
                i <= self.entries@.len(),
                best is None ==> forall|j: int|
                    0 <= j < i ==> #[trigger] page_rank(self.entries@[j], page, requirement) is None,
                best matches Some((rank, k)) ==> k < i && page_rank(
                    self.entries@[k as int],
                    page,
                    requirement,
                ) == Some(rank) && forall|j: int|
                    0 <= j < i && #[trigger] page_rank(self.entries@[j], page, requirement) is Some
                        ==> !rank_before(page_rank(self.entries@[j], page, requirement)->0, rank),
            decreases self.entries@.len() - i,
        {
            let entry: CachedRgbaPage = self.entries[i];
            match page_render_signature_rank(
                entry.key.page,
                entry.key.render_signature,
                page,
                requirement,
                entry.bytes,
            ) {
                Some(rank) => {
                    let better: bool = match best {
                        Some((previous, _)) => rank_is_before(rank, previous),
                        None => true,
                    };
                    if better {
                        best = Some((rank, i));
                    }
                },
                None => {},
            }
            i = i + 1;
        }
        match best {
            Some((_, k)) => {
                assert(is_best_page(self.entries@, page, requirement, k as int));
                proof {
                    lemma_best_page(self.entries@, page, requirement, k as int);
                }
                Some(self.entries[k].key)
            },
            None => None,
        }
    }

    /// The best suitable decode of a page, which becomes the most recently used one.
    pub fn get_suitable(&mut self, page: u32, requirement: DisplayRequirement) -> (found: Option<
        (FrameSet, RenderSignature),
    >)
        requires
            old(self).wf(),
        ensures
            final(self).wf(),
            final(self)@ == old(self)@.looked_up(page, requirement),
            found == match old(self)@.best(page, requirement) {
                Some(entry) => Some((entry.frames, entry.key.render_signature)),
                None => None,
            },
            found is None ==> !any_suitable_page(old(self).entries@, page, requirement)
                && *final(self) == *old(self),
            found matches Some(found) ==> exists|i: int| #[trigger]
                is_best_page(old(self).entries@, page, requirement, i) && ({
                    let entry = old(self).entries@[i];
                    &&& found == (entry.frames, entry.key.render_signature)
                    &&& final(self).entries@ == old(self).entries@.remove(i).push(entry)
                    &&& *final(self) == (RgbaPageCache {
                        entries: final(self).entries,
                        ..*old(self)
                    })
                }),
    {
        match self.best_suitable_candidate(page, requirement) {
            Some(key) => {
                let ghost i = choose|i: int| #[trigger]
                    is_best_page(self.entries@, page, requirement, i) && self.entries@[i].key
                        == key;
                assert(self.entries@[i].key == key);
                assert(holds(self.entries@, key));
                proof {
                    lemma_index_of(self.entries@, key);
                }
                assert(index_of(self.entries@, key) == i);
                proof {
                    lemma_best_page(self.entries@, page, requirement, i);
                }
                match self.get(&key) {
                    Some(frames) => {
                        assert(is_best_page(old(self).entries@, page, requirement, i));
                        Some((frames, key.render_signature))
                    },
                    None => None,
                }
            },
            None => None,
        }
    }

    /// The best suitable decode of a page; the order of use stays as it is.
    pub fn peek_suitable(&self, page: u32, requirement: DisplayRequirement) -> (found: Option<
        (FrameSet, RenderSignature),
    >)
        requires
            self.wf(),
        ensures
            found == match self@.best(page, requirement) {
                Some(entry) => Some((entry.frames, entry.key.render_signature)),
                None => None,
            },
            found is None ==> !any_suitable_page(self.entries@, page, requirement),
            found matches Some(found) ==> exists|i: int| #[trigger]
                is_best_page(self.entries@, page, requirement, i) && found == (
                    self.entries@[i].frames,
                    self.entries@[i].key.render_signature,
                ),
    {
        match self.best_suitable_candidate(page, requirement) {
            Some(key) => {
                let ghost i = choose|i: int| #[trigger]
                    is_best_page(self.entries@, page, requirement, i) && self.entries@[i].key
                        == key;
                assert(self.entries@[i].key == key);
                assert(holds(self.entries@, key));
                proof {
                    lemma_index_of(self.entries@, key);
                }
                assert(index_of(self.entries@, key) == i);
                proof {
                    lemma_best_page(self.entries@, page, requirement, i);
                }
                match self.peek_exact(&key) {
                    Some((frames, signature, _)) => {
                        assert(is_best_page(self.entries@, page, requirement, i));
                        Some((frames, signature))
                    },
                    None => None,
                }
            },
            None => None,
        }
    }

    /// The frames held under exactly this key, with the kind of match and the target size.
    pub fn get_with_tolerance(&mut self, key: &RgbaCacheKey) -> (found: Option<
        (FrameSet, &'static str, (u32, u32)),
    >)
        requires
            old(self).wf(),
        ensures
            final(self).wf(),
            found is Some <==> holds(old(self).entries@, *key),
            found is None ==> *final(self) == *old(self),
            found matches Some((frames, kind, size)) ==> ({
                let entry = old(self).entries@[index_of(old(self).entries@, *key)];
                &&& frames == entry.frames
                &&& kind@ == "exact"@
                &&& size == (key.render_signature.target_w, key.render_signature.target_h)
                &&& final(self).entries@ == without(old(self).entries@, *key).push(entry)
                &&& *final(self) == (RgbaPageCache { entries: final(self).entries, ..*old(self) })
            }),
    {
        match self.get(key) {
            Some(frames) => Some(
                (frames, "exact", (key.render_signature.target_w, key.render_signature.target_h)),
            ),
            None => None,
        }
    }

    /// The bytes held under a key, zero where it is not held.
    pub fn bytes_of(&self, key: &RgbaCacheKey) -> (bytes: usize)
        requires
            self.wf(),
        ensures
            bytes == bytes_under(self.entries@, *key),
    {
        match self.position(*key) {
            Some(i) => self.entries[i].bytes,
            None => 0,
        }
    }

    pub fn contains(&self, key: &RgbaCacheKey) -> (held: bool)
        requires
            self.wf(),
        ensures
            held == holds(self.entries@, *key),
    {
        self.position(*key).is_some()
    }

    pub fn contains_page(&self, page: u32) -> (held: bool)
        ensures
            held == holds_page(self.entries@, page),
    {
        let mut i: usize = 0;
        while i < self.entries.len()
            invariant
                i <= self.entries@.len(),
                forall|k: int| 0 <= k < i ==> (#[trigger] self.entries@[k]).key.page != page,
            decreases self.entries@.len() - i,
        {
            if self.entries[i].key.page == page {
                assert(self.entries@[i as int].key.page == page);
                return true;
            }
            i = i + 1;
        }
        false
    }

    pub fn ready_entry_snapshots(&self) -> (snapshots: Vec<RgbaReadyEntrySnapshot>)
        ensures
            snapshots@ == self.entries@.map_values(|entry: CachedRgbaPage| ready_snapshot(entry)),
    {
        let mut snapshots: Vec<RgbaReadyEntrySnapshot> = Vec::new();
        let ghost all = self.entries@.map_values(|entry: CachedRgbaPage| ready_snapshot(entry));
        let mut i: usize = 0;
        while i < self.entries.len()
            invariant
                i <= self.entries@.len(),
                all == self.entries@.map_values(|entry: CachedRgbaPage| ready_snapshot(entry)),
                snapshots@ == all.take(i as int),
            decreases self.entries@.len() - i,
        {
            let entry: CachedRgbaPage = self.entries[i];
            snapshots.push(
                RgbaReadyEntrySnapshot {
                    key: entry.key,
                    page: entry.key.page,
                    bytes: entry.bytes,
                    signature: entry.key.render_signature,
                    source: entry.source,
                },
            );
            i = i + 1;
            assert(snapshots@ =~= all.take(i as int));
        }
        assert(all.take(i as int) =~= all);
        snapshots
    }

    /// The held pages in order of use, each once.
    pub fn page_order(&self) -> (pages: Vec<u32>)
        ensures
            pages@ == pages_in_order(self.entries@),
    {
        let mut pages: Vec<u32> = Vec::new();
        let mut i: usize = 0;
        assert(self.entries@.take(0) =~= Seq::empty());
        while i < self.entries.len()
            invariant
                i <= self.entries@.len(),
                pages@ == pages_in_order(self.entries@.take(i as int)),
            decreases self.entries@.len() - i,
        {
            let page: u32 = self.entries[i].key.page;
            let mut seen: bool = false;
            let mut k: usize = 0;
            while k < pages.len()
                invariant
                    k <= pages@.len(),
                    seen == pages@.take(k as int).contains(page),
                decreases pages@.len() - k,
            {
                assert(pages@.take(k + 1) =~= pages@.take(k as int).push(pages@[k as int]));
                if pages[k] == page {
                    seen = true;
                    assert(pages@.take(k + 1)[k as int] == page);
                } else {
                    proof {
                        lemma_push_contains(pages@.take(k as int), pages@[k as int], page);
                    }
                }
                proof {
                    lemma_push_contains(pages@.take(k as int), pages@[k as int], page);
                }
                k = k + 1;
            }
            assert(pages@.take(k as int) =~= pages@);
            assert(self.entries@.take(i + 1).drop_last() =~= self.entries@.take(i as int));
            if !seen {
                pages.push(page);
            }
            i = i + 1;
        }
        assert(self.entries@.take(i as int) =~= self.entries@);
        pages
    }

    /// Removes every decode of a page.
    pub fn remove_page(&mut self, page: u32) -> (outcome: RgbaEvictionOutcome)
        requires
            old(self).wf(),
        ensures
            final(self).wf(),
            final(self)@ == old(self)@.without_decodes_of(page),
            outcome == removal_outcome(of_page(old(self).entries@, page)),
            of_page(old(self).entries@, page).len() > 0 <==> holds_page(old(self).entries@, page),
    {
        let mut kept: Vec<CachedRgbaPage> = Vec::new();
        let mut evicted_count: usize = 0;
        let mut evicted_bytes: usize = 0;
        let ghost entries = self.entries@;
        let mut i: usize = 0;
        assert(entries.take(0) =~= Seq::empty());
        while i < self.entries.len()
            invariant
                i <= self.entries@.len(),
                self.entries@ == entries,
                entries == old(self).entries@,
                self.max_bytes == old(self).max_bytes,
                self.mutation_revision == old(self).mutation_revision,
                kept@ == without_page(entries.take(i as int), page),
                evicted_count == of_page(entries.take(i as int), page).len(),
                evicted_count <= i,
                evicted_bytes == capped(total(of_page(entries.take(i as int), page))),
                self.current_bytes == monus(
                    old(self).current_bytes as nat,
                    total(of_page(entries.take(i as int), page)),
                ),
            decreases self.entries@.len() - i,
        {
            let entry: CachedRgbaPage = self.entries[i];
            assert(entries.take(i + 1).drop_last() =~= entries.take(i as int));
            assert(entries.take(i + 1).last() == entry);
            if entry.key.page == page {
                let ghost before = of_page(entries.take(i as int), page);
                assert(before.push(entry).drop_last() =~= before);
                self.current_bytes = self.current_bytes.saturating_sub(entry.bytes);
                evicted_count = evicted_count + 1;
                evicted_bytes = evicted_bytes.saturating_add(entry.bytes);
            } else {
                kept.push(entry);
            }
            i = i + 1;
        }
        assert(entries.take(i as int) =~= entries);
        proof {
            lemma_page_split(entries, page);
        }
        self.entries = kept;
        if evicted_count > 0 {
            self.bump_mutation_revision();
        }
        RgbaEvictionOutcome {
            evicted_count,
            evicted_bytes,
            nearest_evicted_distance: if evicted_count > 0 {
                Some(0)
            } else {
                None
            },
            protected_evicted: false,
        }
    }

    /// The target size held under exactly this key.
    pub fn has_tolerance_match(&self, key: &RgbaCacheKey) -> (size: Option<(u32, u32)>)
        requires
            self.wf(),
        ensures
            size == if holds(self.entries@, *key) {
                Some((key.render_signature.target_w, key.render_signature.target_h))
            } else {
                None
            },
    {
        if self.contains(key) {
            Some((key.render_signature.target_w, key.render_signature.target_h))
        } else {
            None
        }
    }

    pub fn has_page_variant(&self, key: &RgbaCacheKey) -> (held: bool)
        requires
            self.wf(),
        ensures
            held == holds(self.entries@, *key),
    {
        self.contains(key)
    }

    /// The bytes of a still page; an animation has none.
    pub fn static_rgba_bytes(frames: &FrameSet) -> (bytes: Option<usize>)
        ensures
            bytes == if frames.frame_count == 1 {
                Some(frames.first_frame_bytes)
            } else {
                None
            },
    {
        if frames.frame_count != 1 {
            return None;
        }
        Some(frames.first_frame_bytes)
    }

    /// Puts an entry in place of what its key held, as the most recently used one.
    fn place(&mut self, entry: CachedRgbaPage)
        requires
            old(self).wf(),
        ensures
            final(self).wf(),
            final(self)@ == old(self)@.placed(entry),
    {
        let ghost before = self.entries@;
        proof {
            lemma_without(before, entry.key);
        }
        match self.position(entry.key) {
            Some(i) => {
                let old_entry: CachedRgbaPage = self.entries.remove(i);
                self.current_bytes = self.current_bytes.saturating_sub(old_entry.bytes);
            },
            None => {},
        }
        assert(self.entries@ == without(before, entry.key));
        self.current_bytes = self.current_bytes.saturating_add(entry.bytes);
        let ghost kept = self.entries@;
        self.entries.push(entry);
        assert(distinct_page_keys(self.entries@)) by {
            let now = self.entries@;
            assert forall|a: int, b: int| 0 <= a < b < now.len() implies (#[trigger] now[a]).key
                != (#[trigger] now[b]).key by {
                assert(now[a] == kept[a]);
            }
        }
        self.bump_mutation_revision();
    }

    /// Stores a still page and lets entries go until the limit is met, protected pages last. An
    /// animation, or a page that the limit cannot hold, changes nothing.
    pub fn insert_with_context(
        &mut self,
        key: RgbaCacheKey,
        frames: FrameSet,
        source: &'static str,
        current_page: u32,
        protected_pages: &HashSet<u32>,
    ) -> (outcome: RgbaInsertOutcome)
        requires
            old(self).wf(),
        ensures
            final(self).wf(),
            final(self)@ == old(self)@.stored(page_entry(key, frames, source), protected_pages@),
            outcome == old(self)@.stored_outcome(
                page_entry(key, frames, source),
                current_page,
                protected_pages@,
            ),
    {
        let bytes: usize = match Self::static_rgba_bytes(&frames) {
            Some(bytes) => bytes,
            None => {
                return RgbaInsertOutcome::default();
            },
        };
        if self.max_bytes == 0 || bytes > self.max_bytes {
            return RgbaInsertOutcome::default();
        }
        self.place(CachedRgbaPage { key, frames, bytes, source });
        let eviction = self.evict_to_budget(current_page, protected_pages);
        let inserted_survived: bool = self.contains(&key);
        RgbaInsertOutcome { inserted: true, inserted_survived, eviction }
    }

    /// As [`Self::insert_with_context`], reporting only whether the page was stored at all.
    pub fn insert(
        &mut self,
        key: RgbaCacheKey,
        frames: FrameSet,
        source: &'static str,
        current_page: u32,
        protected_pages: &HashSet<u32>,
    ) -> (inserted: bool)
        requires
            old(self).wf(),
        ensures
            final(self).wf(),
            inserted == old(self)@.accepts(frames),
            final(self)@ == old(self)@.stored(page_entry(key, frames, source), protected_pages@),
    {
        self.insert_with_context(key, frames, source, current_page, protected_pages).inserted
    }

    /// The first candidate page that may go now.
    fn find_candidate(
        &self,
        eviction_candidates: &Vec<u32>,
        inserted_page: u32,
        protected_pages: &HashSet<u32>,
    ) -> (page: Option<u32>)
        ensures
            page == next_candidate(
                self.entries@,
                eviction_candidates@,
                inserted_page,
                protected_pages@,
            ),
            page matches Some(page) ==> holds_page(self.entries@, page) && page != inserted_page
                && !protected_pages@.contains(page) && eviction_candidates@.contains(page),
    {
        broadcast use vstd::std_specs::hash::group_hash_axioms;

        let mut i: usize = 0;
        assert(eviction_candidates@.skip(0) =~= eviction_candidates@);
        while i < eviction_candidates.len()
            invariant
                i <= eviction_candidates@.len(),
                next_candidate(
                    self.entries@,
                    eviction_candidates@,
                    inserted_page,
                    protected_pages@,
                ) == next_candidate(
                    self.entries@,
                    eviction_candidates@.skip(i as int),
                    inserted_page,
                    protected_pages@,
                ),
            decreases eviction_candidates@.len() - i,
        {
            let page: u32 = eviction_candidates[i];
            assert(eviction_candidates@.skip(i as int)[0] == page);
            assert(eviction_candidates@.skip(i as int).drop_first() =~= eviction_candidates@.skip(
                i + 1,
            ));
            if page != inserted_page && !protected_pages.contains(&page) && self.contains_page(page) {
                assert(eviction_candidates@[i as int] == page);
                return Some(page);
            }
            i = i + 1;
        }
        None
    }

    /// Stores a still page and lets candidate pages go, in their order and never a protected
    /// one, until the limit is met. Where that is not enough, the stored page itself goes again.
    pub fn insert_with_eviction_candidates(
        &mut self,
        key: RgbaCacheKey,
        frames: FrameSet,
        source: &'static str,
        eviction_candidates: &Vec<u32>,
        protected_pages: &HashSet<u32>,
    ) -> (outcome: RgbaInsertOutcome)
        requires
            old(self).wf(),
        ensures
            final(self).wf(),
            final(self)@ == old(self)@.stored_over(
                page_entry(key, frames, source),
                eviction_candidates@,
                protected_pages@,
            ),
            outcome == old(self)@.stored_over_outcome(
                page_entry(key, frames, source),
                eviction_candidates@,
                protected_pages@,
            ),
    {
        let bytes: usize = match Self::static_rgba_bytes(&frames) {
            Some(bytes) => bytes,
            None => {
                return RgbaInsertOutcome::default();
            },
        };
        if self.max_bytes == 0 || bytes > self.max_bytes {
            return RgbaInsertOutcome::default();
        }
        let entry = CachedRgbaPage { key, frames, bytes, source };
        self.place(entry);
        let start_len: usize = self.entries.len();
        let ghost placed = self.entries@;
        let ghost placed_revision = self.mutation_revision;
        let ghost whole = page_eviction(
            placed,
            self.current_bytes as nat,
            self.max_bytes as nat,
            eviction_candidates@,
            key.page,
            protected_pages@,
        );
        let mut evicted_count: usize = 0;
        let mut evicted_bytes: usize = 0;
        let ghost mut gone: Pages = Seq::empty();
        let ghost mut pages: nat = 0;
        assert(gone + whole.gone =~= whole.gone);
        assert(placed.last() == entry);
        assert(holds(placed, key));
        let mut searching: bool = true;
        while searching && self.current_bytes > self.max_bytes
            invariant
                self.wf(),
                self.max_bytes == old(self).max_bytes,
                start_len == placed.len(),
                gone.len() + self.entries@.len() == start_len,
                evicted_count == gone.len(),
                evicted_bytes == capped(total(gone)),
                self.mutation_revision == counted(placed_revision, pages),
                pages > 0 <==> gone.len() > 0,
                holds(self.entries@, key),
                ({
                    let rest = page_eviction(
                        self.entries@,
                        self.current_bytes as nat,
                        self.max_bytes as nat,
                        eviction_candidates@,
                        key.page,
                        protected_pages@,
                    );
                    &&& rest.left == whole.left
                    &&& rest.bytes == whole.bytes
                    &&& gone + rest.gone == whole.gone
                    &&& pages + rest.pages == whole.pages
                    &&& !searching ==> rest.gone.len() == 0 && rest.left == self.entries@
                        && rest.bytes == self.current_bytes && rest.pages == 0
                }),
            decreases
                    self.entries@.len() + if searching {
                        1int
                    } else {
                        0
                    },
        {
            let ghost before = *self;
            match self.find_candidate(eviction_candidates, key.page, protected_pages) {
                Some(page) => {
                    proof {
                        lemma_page_split(self.entries@, page);
                    }
                    let outcome: RgbaEvictionOutcome = self.remove_page(page);
                    evicted_count = evicted_count + outcome.evicted_count;
                    evicted_bytes = evicted_bytes.saturating_add(outcome.evicted_bytes);
                    proof {
                        let removed = of_page(before.entries@, page);
                        lemma_total_concat(gone, removed);
                        let rest = page_eviction(
                            self.entries@,
                            self.current_bytes as nat,
                            self.max_bytes as nat,
                            eviction_candidates@,
                            key.page,
                            protected_pages@,
                        );
                        assert(gone + (removed + rest.gone) =~= (gone + removed) + rest.gone);
                        gone = gone + removed;
                        pages = pages + 1;
                        lemma_other_page_stays(before.entries@, page, key);
                    }
                },
                None => {
                    searching = false;
                },
            }
        }
        assert(gone =~= whole.gone) by {
            assert(gone + Seq::<CachedRgbaPage>::empty() =~= gone);
            let rest = page_eviction(
                self.entries@,
                self.current_bytes as nat,
                self.max_bytes as nat,
                eviction_candidates@,
                key.page,
                protected_pages@,
            );
            assert(rest.gone =~= Seq::empty());
        }
        let mut inserted_survived: bool = true;
        if self.current_bytes > self.max_bytes {
            let ghost before = *self;
            let ghost own_index = index_of(self.entries@, key);
            assert(self.entries@[own_index].key.page == key.page);
            proof {
                lemma_page_split(self.entries@, key.page);
            }
            let outcome: RgbaEvictionOutcome = self.remove_page(key.page);
            evicted_count = evicted_count + outcome.evicted_count;
            evicted_bytes = evicted_bytes.saturating_add(outcome.evicted_bytes);
            inserted_survived = false;
            proof {
                lemma_total_concat(gone, of_page(before.entries@, key.page));
            }
        } else {
            assert(whole.gone + Seq::<CachedRgbaPage>::empty() =~= whole.gone);
        }
        RgbaInsertOutcome {
            inserted: true,
            inserted_survived,
            eviction: RgbaEvictionOutcome {
                evicted_count,
                evicted_bytes,
                nearest_evicted_distance: if evicted_count > 0 {
                    Some(0)
                } else {
                    None
                },
                protected_evicted: false,
            },
        }
    }

    pub fn current_bytes(&self) -> (bytes: usize)
        ensures
            bytes == self.current_bytes,
    {
        self.current_bytes
    }

    pub fn max_bytes(&self) -> (bytes: usize)
        ensures
            bytes == self.max_bytes,
    {
        self.max_bytes
    }

    pub fn mutation_revision(&self) -> (revision: u64)
        ensures
            revision == self.mutation_revision,
    {
        self.mutation_revision
    }

    pub fn entry_count(&self) -> (count: usize)
        ensures
            count == self.entries@.len(),
    {
        self.entries.len()
    }
}

proof fn lemma_push_contains(pages: Seq<u32>, last: u32, page: u32)
    ensures
        pages.push(last).contains(page) <==> pages.contains(page) || last == page,
{
    assert(pages.push(last)[pages.len() as int] == last);
    if pages.contains(page) {
        let i = choose|i: int| 0 <= i < pages.len() && pages[i] == page;
        assert(pages.push(last)[i] == page);
    }
}

pub proof fn lemma_best_page(entries: Pages, page: u32, requirement: DisplayRequirement, a: int)
    requires
        distinct_page_keys(entries),
        is_best_page(entries, page, requirement, a),
    ensures
        a == (choose|i: int| #[trigger] is_best_page(entries, page, requirement, i)),
        any_suitable_page(entries, page, requirement),
{
    let b = choose|i: int| #[trigger] is_best_page(entries, page, requirement, i);
    assert(page_rank(entries[a], page, requirement) is Some);
    assert(page_rank(entries[b], page, requirement) is Some);
    assert(entries[a].key.render_signature == entries[b].key.render_signature);
    assert(entries[a].key == entries[b].key);
}

pub proof fn lemma_index_of(entries: Pages, key: RgbaCacheKey)
    requires
        distinct_page_keys(entries),
        holds(entries, key),
    ensures
        0 <= index_of(entries, key) < entries.len(),
        entries[index_of(entries, key)].key == key,
        forall|i: int|
            0 <= i < entries.len() && (#[trigger] entries[i]).key == key ==> i == index_of(
                entries,
                key,
            ),
{
}

pub proof fn lemma_total_remove(entries: Pages, i: int)
    requires
        0 <= i < entries.len(),
    ensures
        total(entries) == total(entries.remove(i)) + entries[i].bytes,
    decreases entries.len(),
{
    if i == entries.len() - 1 {
        assert(entries.remove(i) =~= entries.drop_last());
    } else {
        lemma_total_remove(entries.drop_last(), i);
        assert(entries.remove(i).drop_last() =~= entries.drop_last().remove(i));
    }
}

pub proof fn lemma_total_concat(a: Pages, b: Pages)
    ensures
        total(a + b) == total(a) + total(b),
    decreases b.len(),
{
    if b.len() == 0 {
        assert(a + b =~= a);
    } else {
        lemma_total_concat(a, b.drop_last());
        assert((a + b).drop_last() =~= a + b.drop_last());
    }
}

/// Without a key, keys stay distinct and the total drops by the bytes held under it.
pub proof fn lemma_without(entries: Pages, key: RgbaCacheKey)
    requires
        distinct_page_keys(entries),
    ensures
        distinct_page_keys(without(entries, key)),
        !holds(without(entries, key), key),
        total(entries) == total(without(entries, key)) + bytes_under(entries, key),
{
    if holds(entries, key) {
        lemma_index_of(entries, key);
        lemma_total_remove(entries, index_of(entries, key));
    }
}

/// Splitting off the entries of a page loses nothing, keeps keys distinct, and leaves no entry
/// of that page.
pub proof fn lemma_page_split(entries: Pages, page: u32)
    requires
        distinct_page_keys(entries),
    ensures
        total(entries) == total(of_page(entries, page)) + total(without_page(entries, page)),
        of_page(entries, page).len() + without_page(entries, page).len() == entries.len(),
        distinct_page_keys(without_page(entries, page)),
        !holds_page(without_page(entries, page), page),
        of_page(entries, page).len() > 0 <==> holds_page(entries, page),
        forall|i: int|
            0 <= i < without_page(entries, page).len() ==> exists|j: int|
                0 <= j < entries.len() && (#[trigger] without_page(entries, page)[i])
                    == #[trigger] entries[j],
        forall|i: int|
            0 <= i < of_page(entries, page).len() ==> (#[trigger] of_page(entries, page)[i]).key.page
                == page,
    decreases entries.len(),
{
    if entries.len() > 0 {
        let front = entries.drop_last();
        let last = entries.last();
        lemma_page_split(front, page);
        assert(of_page(front, page).push(last).drop_last() =~= of_page(front, page));
        assert(without_page(front, page).push(last).drop_last() =~= without_page(front, page));
        assert(entries[entries.len() - 1] == last);
        let kept = without_page(entries, page);
        assert forall|i: int| 0 <= i < kept.len() implies exists|j: int|
            0 <= j < entries.len() && (#[trigger] kept[i]) == #[trigger] entries[j] by {
            if i < without_page(front, page).len() {
                let j = choose|j: int|
                    0 <= j < front.len() && without_page(front, page)[i] == #[trigger] front[j];
                assert(entries[j] == kept[i]);
            } else {
                assert(kept[i] == entries[entries.len() - 1]);
            }
        }
        assert forall|i: int, j: int| 0 <= i < j < kept.len() implies (#[trigger] kept[i]).key
            != (#[trigger] kept[j]).key by {
            if j == without_page(front, page).len() {
                let k = choose|k: int|
                    0 <= k < front.len() && without_page(front, page)[i] == #[trigger] front[k];
                assert(entries[k] == kept[i]);
                assert(entries[entries.len() - 1] == kept[j]);
            } else {
                assert(without_page(front, page)[i] == kept[i]);
                assert(without_page(front, page)[j] == kept[j]);
            }
        }
        if holds_page(front, page) {
            let i = choose|i: int| 0 <= i < front.len() && (#[trigger] front[i]).key.page == page;
            assert(entries[i].key.page == page);
        }
        if holds_page(entries, page) && last.key.page != page {
            let i = choose|i: int|
                0 <= i < entries.len() && (#[trigger] entries[i]).key.page == page;
            assert(front[i].key.page == page);
        }
        if holds_page(kept, page) {
            let i = choose|i: int| 0 <= i < kept.len() && (#[trigger] kept[i]).key.page == page;
            if i < without_page(front, page).len() {
                assert(without_page(front, page)[i].key.page == page);
            }
        }
        assert forall|i: int| 0 <= i < of_page(entries, page).len() implies (#[trigger] of_page(
            entries,
            page,
        )[i]).key.page == page by {
            if i < of_page(front, page).len() {
                assert(of_page(front, page)[i].key.page == page);
            }
        }
    }
}

/// An entry of another page is still held once a page has gone.
pub proof fn lemma_other_page_stays(entries: Pages, page: u32, key: RgbaCacheKey)
    requires
        holds(entries, key),
        key.page != page,
    ensures
        holds(without_page(entries, page), key),
    decreases entries.len(),
{
    let i = choose|i: int| 0 <= i < entries.len() && (#[trigger] entries[i]).key == key;
    let front = entries.drop_last();
    let kept = without_page(entries, page);
    if i == entries.len() - 1 {
        assert(kept.last().key == key);
        assert(kept[kept.len() - 1].key == key);
    } else {
        assert(front[i].key == key);
        lemma_other_page_stays(front, page, key);
        let j = choose|j: int|
            0 <= j < without_page(front, page).len() && (#[trigger] without_page(
                front,
                page,
            )[j]).key == key;
        assert(kept[j].key == key);
    }
}

/// The choice of the next entry to go: inside the entries, unprotected where any entry is.
proof fn lemma_first_unprotected(entries: Pages, protected: Set<u32>)
    ensures
        0 <= first_unprotected(entries, protected) <= entries.len(),
        first_unprotected(entries, protected) < entries.len() ==> !protected.contains(
            entries[first_unprotected(entries, protected)].key.page,
        ),
        forall|k: int|
            0 <= k < first_unprotected(entries, protected) ==> protected.contains(
                #[trigger] entries[k].key.page,
            ),
    decreases entries.len(),
{
    if entries.len() > 0 && protected.contains(entries[0].key.page) {
        let rest = entries.drop_first();
        lemma_first_unprotected(rest, protected);
        assert forall|k: int| 0 <= k < first_unprotected(entries, protected) implies protected.contains(
        #[trigger] entries[k].key.page) by {
            if k > 0 {
                assert(rest[k - 1] == entries[k]);
            }
        }
    }
}

/// Where the byte count is the sum of the entries, eviction ends with the sum of what is left,
/// within the limit.
pub proof fn law_eviction_meets_the_budget(entries: Pages, max: nat, protected: Set<u32>)
    ensures
        eviction(entries, total(entries), max, protected).bytes == total(
            eviction(entries, total(entries), max, protected).left,
        ),
        eviction(entries, total(entries), max, protected).bytes <= max,
        total(entries) == total(eviction(entries, total(entries), max, protected).left) + total(
            eviction(entries, total(entries), max, protected).gone,
        ),
    decreases entries.len(),
{
    if total(entries) > max && entries.len() > 0 {
        lemma_first_unprotected(entries, protected);
        let i = victim(entries, protected);
        lemma_total_remove(entries, i);
        law_eviction_meets_the_budget(entries.remove(i), max, protected);
        let rest = eviction(entries.remove(i), total(entries.remove(i)), max, protected);
        lemma_total_concat(seq![entries[i]], rest.gone);
        assert(seq![entries[i]].drop_last() =~= Seq::empty());
        reveal_with_fuel(total, 2);
    }
}

/// A protected page goes only once every page that is left is protected as well.
pub proof fn law_protected_pages_go_last(
    entries: Pages,
    bytes: nat,
    max: nat,
    protected: Set<u32>,
    i: int,
)
    requires
        any_protected(eviction(entries, bytes, max, protected).gone, protected),
        0 <= i < eviction(entries, bytes, max, protected).left.len(),
    ensures
        protected.contains(eviction(entries, bytes, max, protected).left[i].key.page),
    decreases entries.len(),
{
    let result = eviction(entries, bytes, max, protected);
    if bytes > max && entries.len() > 0 {
        lemma_first_unprotected(entries, protected);
        let v = victim(entries, protected);
        let rest = eviction(
            entries.remove(v),
            monus(bytes, entries[v].bytes as nat),
            max,
            protected,
        );
        if protected.contains(entries[v].key.page) {
            assert forall|k: int| 0 <= k < entries.remove(v).len() implies protected.contains(
                #[trigger] entries.remove(v)[k].key.page,
            ) by {
                let j = if k < v {
                    k
                } else {
                    k + 1
                };
                assert(entries.remove(v)[k] == entries[j]);
                assert(protected.contains(entries[j].key.page));
            }
            lemma_left_is_protected(
                entries.remove(v),
                monus(bytes, entries[v].bytes as nat),
                max,
                protected,
            );
        } else {
            let k = choose|k: int|
                0 <= k < result.gone.len() && protected.contains(#[trigger] result.gone[k].key.page);
            assert(result.gone[0] == entries[v]);
            assert(rest.gone[k - 1] == result.gone[k]);
            assert(protected.contains(rest.gone[k - 1].key.page));
            law_protected_pages_go_last(
                entries.remove(v),
                monus(bytes, entries[v].bytes as nat),
                max,
                protected,
                i,
            );
        }
    } else {
        assert(result.gone.len() == 0);
    }
}

proof fn lemma_left_is_protected(entries: Pages, bytes: nat, max: nat, protected: Set<u32>)
    requires
        forall|k: int|
            0 <= k < entries.len() ==> protected.contains(#[trigger] entries[k].key.page),
    ensures
        forall|k: int|
            0 <= k < eviction(entries, bytes, max, protected).left.len() ==> protected.contains(
                #[trigger] eviction(entries, bytes, max, protected).left[k].key.page,
            ),
    decreases entries.len(),
{
    if bytes > max && entries.len() > 0 {
        lemma_first_unprotected(entries, protected);
        let v = victim(entries, protected);
        assert forall|k: int| 0 <= k < entries.remove(v).len() implies protected.contains(
            #[trigger] entries.remove(v)[k].key.page,
        ) by {
            let j = if k < v {
                k
            } else {
                k + 1
            };
            assert(entries.remove(v)[k] == entries[j]);
        }
        lemma_left_is_protected(
            entries.remove(v),
            monus(bytes, entries[v].bytes as nat),
            max,
            protected,
        );
    }
}

proof fn lemma_eviction_keeps_keys_distinct(
    entries: Pages,
    bytes: nat,
    max: nat,
    protected: Set<u32>,
)
    requires
        distinct_page_keys(entries),
    ensures
        distinct_page_keys(eviction(entries, bytes, max, protected).left),
    decreases entries.len(),
{
    if bytes > max && entries.len() > 0 {
        lemma_first_unprotected(entries, protected);
        let v = victim(entries, protected);
        lemma_eviction_keeps_keys_distinct(
            entries.remove(v),
            monus(bytes, entries[v].bytes as nat),
            max,
            protected,
        );
    }
}

/// A cache within its budget is within it again once a limit is met, be it a new one.
pub proof fn law_limit_keeps_the_budget(cache: CacheState, max: nat, protected: Set<u32>)
    requires
        cache.sound(),
    ensures
        cache.limited(max, protected).sound(),
{
    law_eviction_meets_the_budget(cache.entries, max, protected);
    lemma_eviction_keeps_keys_distinct(cache.entries, cache.bytes, max, protected);
}

/// Using a page changes neither what is held nor the byte count.
pub proof fn law_use_keeps_the_budget(cache: CacheState, key: RgbaCacheKey)
    requires
        cache.sound(),
    ensures
        cache.used(key).sound(),
{
    if holds(cache.entries, key) {
        lemma_index_of(cache.entries, key);
        lemma_without(cache.entries, key);
        let entry = cache.entries[index_of(cache.entries, key)];
        lemma_pushed(without(cache.entries, key), entry);
    }
}

/// Without the decodes of a page, the cache is within its budget as before.
pub proof fn law_removal_keeps_the_budget(cache: CacheState, page: u32)
    requires
        cache.sound(),
    ensures
        cache.without_decodes_of(page).sound(),
        !holds_page(cache.without_decodes_of(page).entries, page),
{
    lemma_page_split(cache.entries, page);
}

proof fn lemma_pushed(kept: Pages, entry: CachedRgbaPage)
    requires
        distinct_page_keys(kept),
        !holds(kept, entry.key),
    ensures
        distinct_page_keys(kept.push(entry)),
        total(kept.push(entry)) == total(kept) + entry.bytes,
{
    let now = kept.push(entry);
    assert(now.drop_last() =~= kept);
    assert forall|a: int, b: int| 0 <= a < b < now.len() implies (#[trigger] now[a]).key != (
    #[trigger] now[b]).key by {
        assert(now[a] == kept[a]);
    }
}

/// Whether the byte counter can hold the cache with one more entry.
pub open spec fn counter_holds(cache: CacheState, entry: CachedRgbaPage) -> bool {
    cache.bytes + entry.bytes <= usize::MAX
}

/// What a cache within its budget holds after a page was stored with protected pages: again
/// within the budget.
pub proof fn law_insert_keeps_the_budget(
    cache: CacheState,
    entry: CachedRgbaPage,
    protected: Set<u32>,
)
    requires
        cache.sound(),
        counter_holds(cache, entry),
    ensures
        cache.stored(entry, protected).sound(),
{
    if cache.accepts(entry.frames) {
        lemma_inserted_total(cache, entry);
        let placed = cache.placed(entry);
        law_eviction_meets_the_budget(placed.entries, cache.max, protected);
        lemma_eviction_keeps_keys_distinct(placed.entries, placed.bytes, cache.max, protected);
    }
}

proof fn lemma_inserted_total(cache: CacheState, entry: CachedRgbaPage)
    requires
        cache.sound(),
        counter_holds(cache, entry),
    ensures
        cache.placed(entry).bytes == total(cache.placed(entry).entries),
        distinct_page_keys(cache.placed(entry).entries),
{
    lemma_without(cache.entries, entry.key);
    lemma_pushed(without(cache.entries, entry.key), entry);
}

/// Candidate eviction takes away only pages that are candidates, are not protected and are not
/// the inserted page, and keeps the byte count the sum of what is left.
pub proof fn law_candidates_only(
    entries: Pages,
    max: nat,
    candidates: Seq<u32>,
    inserted_page: u32,
    protected: Set<u32>,
)
    requires
        distinct_page_keys(entries),
    ensures
        ({
            let evicted = page_eviction(
                entries,
                total(entries),
                max,
                candidates,
                inserted_page,
                protected,
            );
            &&& forall|k: int|
                0 <= k < evicted.gone.len() ==> (#[trigger] evicted.gone[k]).key.page
                    != inserted_page && !protected.contains(evicted.gone[k].key.page)
                    && candidates.contains(evicted.gone[k].key.page)
            &&& evicted.bytes == total(evicted.left)
            &&& total(entries) == total(evicted.left) + total(evicted.gone)
            &&& distinct_page_keys(evicted.left)
            &&& evicted.left.len() <= entries.len()
            &&& of_page(evicted.left, inserted_page) == of_page(entries, inserted_page)
        }),
    decreases entries.len(),
{
    let next = next_candidate(entries, candidates, inserted_page, protected);
    if total(entries) > max && next is Some && without_page(entries, next->0).len()
        < entries.len() {
        let page = next->0;
        lemma_next_candidate(entries, candidates, inserted_page, protected);
        lemma_page_split(entries, page);
        law_candidates_only(without_page(entries, page), max, candidates, inserted_page, protected);
        let rest = page_eviction(
            without_page(entries, page),
            total(without_page(entries, page)),
            max,
            candidates,
            inserted_page,
            protected,
        );
        let removed = of_page(entries, page);
        lemma_total_concat(removed, rest.gone);
        lemma_of_other_page(entries, page, inserted_page);
        let gone = removed + rest.gone;
        assert forall|k: int| 0 <= k < gone.len() implies (#[trigger] gone[k]).key.page
            != inserted_page && !protected.contains(gone[k].key.page) && candidates.contains(
            gone[k].key.page,
        ) by {
            if k < removed.len() {
                assert(gone[k] == removed[k]);
            } else {
                assert(gone[k] == rest.gone[k - removed.len()]);
            }
        }
    }
}

proof fn lemma_of_other_page(entries: Pages, page: u32, other: u32)
    requires
        page != other,
    ensures
        of_page(without_page(entries, page), other) == of_page(entries, other),
    decreases entries.len(),
{
    if entries.len() > 0 {
        let front = entries.drop_last();
        lemma_of_other_page(front, page, other);
        assert(without_page(front, page).push(entries.last()).drop_last() =~= without_page(
            front,
            page,
        ));
    }
}

proof fn lemma_next_candidate(
    entries: Pages,
    candidates: Seq<u32>,
    inserted_page: u32,
    protected: Set<u32>,
)
    ensures
        next_candidate(entries, candidates, inserted_page, protected) matches Some(page) ==> page
            != inserted_page && !protected.contains(page) && candidates.contains(page)
            && holds_page(entries, page),
    decreases candidates.len(),
{
    if candidates.len() > 0 {
        let rest = candidates.drop_first();
        lemma_next_candidate(entries, rest, inserted_page, protected);
        assert(candidates[0] == candidates.first());
        match next_candidate(entries, candidates, inserted_page, protected) {
            Some(page) => {
                if page == candidates[0] {
                    assert(candidates.contains(page));
                } else {
                    let i = choose|i: int| 0 <= i < rest.len() && rest[i] == page;
                    assert(candidates[i + 1] == page);
                }
            },
            None => {},
        }
    }
}

/// A cache within its budget is within it again after a page was stored with eviction
/// candidates, whether or not the page could stay.
pub proof fn law_candidate_insert_keeps_the_budget(
    cache: CacheState,
    entry: CachedRgbaPage,
    candidates: Seq<u32>,
    protected: Set<u32>,
)
    requires
        cache.sound(),
        counter_holds(cache, entry),
    ensures
        cache.stored_over(entry, candidates, protected).sound(),
{
    if cache.accepts(entry.frames) {
        lemma_inserted_total(cache, entry);
        let entries = cache.placed(entry).entries;
        law_candidates_only(entries, cache.max, candidates, entry.key.page, protected);
        let evicted = cache.candidates_gone(entry, candidates, protected);
        lemma_page_split(evicted.left, entry.key.page);
        if cache.gives_up(entry, candidates, protected) {
            let kept = without(cache.entries, entry.key);
            lemma_without(cache.entries, entry.key);
            assert(entries.drop_last() =~= kept);
            let own = of_page(entries, entry.key.page);
            assert(own == of_page(kept, entry.key.page).push(entry));
            assert(own.drop_last() =~= of_page(kept, entry.key.page));
            assert(total(own) >= entry.bytes);
        }
    }
}

/// What can be done with a cache.
pub enum CacheStep {
    Use { key: RgbaCacheKey },
    LookUp { page: u32, requirement: DisplayRequirement },
    Limit { max: nat, protected: Set<u32> },
    Remove { page: u32 },
    Store { entry: CachedRgbaPage, protected: Set<u32> },
    StoreOver { entry: CachedRgbaPage, candidates: Seq<u32>, protected: Set<u32> },
}

impl CacheState {
    pub open spec fn after_step(self, step: CacheStep) -> CacheState {
        match step {
            CacheStep::Use { key } => self.used(key),
            CacheStep::LookUp { page, requirement } => self.looked_up(page, requirement),
            CacheStep::Limit { max, protected } => self.limited(max, protected),
            CacheStep::Remove { page } => self.without_decodes_of(page),
            CacheStep::Store { entry, protected } => self.stored(entry, protected),
            CacheStep::StoreOver { entry, candidates, protected } => self.stored_over(
                entry,
                candidates,
                protected,
            ),
        }
    }

    /// Whether the byte counter can hold what a step puts in.
    pub open spec fn can_take(self, step: CacheStep) -> bool {
        match step {
            CacheStep::Store { entry, .. } => counter_holds(self, entry),
            CacheStep::StoreOver { entry, .. } => counter_holds(self, entry),
            _ => true,
        }
    }

    pub open spec fn after_steps(self, steps: Seq<CacheStep>) -> CacheState
        decreases steps.len(),
    {
        if steps.len() == 0 {
            self
        } else {
            self.after_steps(steps.drop_last()).after_step(steps.last())
        }
    }

    pub open spec fn can_take_all(self, steps: Seq<CacheStep>) -> bool
        decreases steps.len(),
    {
        steps.len() == 0 || self.can_take_all(steps.drop_last()) && self.after_steps(
            steps.drop_last(),
        ).can_take(steps.last())
    }
}

/// Whatever is done with a cache, its byte count stays the sum over what it holds, within the limit,
/// and it holds no key twice.
pub proof fn law_cache_stays_within_its_budget(cache: CacheState, steps: Seq<CacheStep>)
    requires
        cache.sound(),
        cache.can_take_all(steps),
    ensures
        cache.after_steps(steps).sound(),
    decreases steps.len(),
{
    if steps.len() > 0 {
        law_cache_stays_within_its_budget(cache, steps.drop_last());
        let before = cache.after_steps(steps.drop_last());
        match steps.last() {
            CacheStep::Use { key } => law_use_keeps_the_budget(before, key),
            CacheStep::LookUp { page, requirement } => {
                if let Some(entry) = before.best(page, requirement) {
                    law_use_keeps_the_budget(before, entry.key);
                }
            },
            CacheStep::Limit { max, protected } => law_limit_keeps_the_budget(
                before,
                max,
                protected,
            ),
            CacheStep::Remove { page } => law_removal_keeps_the_budget(before, page),
            CacheStep::Store { entry, protected } => law_insert_keeps_the_budget(
                before,
                entry,
                protected,
            ),
            CacheStep::StoreOver { entry, candidates, protected } =>
                law_candidate_insert_keeps_the_budget(before, entry, candidates, protected),
        }
    }
}

/// The order of pages lists each page that is held once, and no other.
pub proof fn law_page_order_lists_each_page_once(entries: Pages)
    ensures
        pages_in_order(entries).no_duplicates(),
        forall|page: u32| #[trigger]
            pages_in_order(entries).contains(page) <==> holds_page(entries, page),
    decreases entries.len(),
{
    if entries.len() > 0 {
        let front = entries.drop_last();
        law_page_order_lists_each_page_once(front);
        let before = pages_in_order(front);
        let last = entries.last().key.page;
        assert forall|page: u32| #[trigger]
            pages_in_order(entries).contains(page) <==> holds_page(entries, page) by {
            lemma_push_contains(before, last, page);
            if holds_page(front, page) {
                let i = choose|i: int| 0 <= i < front.len() && (#[trigger] front[i]).key.page == page;
                assert(entries[i].key.page == page);
            }
            if holds_page(entries, page) {
                let i = choose|i: int|
                    0 <= i < entries.len() && (#[trigger] entries[i]).key.page == page;
                if i < front.len() {
                    assert(front[i].key.page == page);
                }
            }
            if page == last {
                assert(entries[entries.len() - 1].key.page == page);
            }
        }
        if !before.contains(last) {
            let all = before.push(last);
            assert forall|a: int, b: int|
                0 <= a < all.len() && 0 <= b < all.len() && a != b implies all[a] != all[b] by {
                if a < before.len() && b < before.len() {
                    assert(before[a] != before[b]);
                } else if a < before.len() {
                    assert(before.contains(before[a]));
                } else {
                    assert(before.contains(before[b]));
                }
            }
        }
    }
}

/// Every entry either is left or is gone, and what is left was there.
pub proof fn law_eviction_splits_the_entries(
    entries: Pages,
    bytes: nat,
    max: nat,
    protected: Set<u32>,
    entry: CachedRgbaPage,
)
    ensures
        ({
            let result = eviction(entries, bytes, max, protected);
            &&& entries.contains(entry) ==> result.left.contains(entry) || result.gone.contains(
                entry,
            )
            &&& result.left.contains(entry) ==> entries.contains(entry)
            &&& result.left.len() + result.gone.len() == entries.len()
            &&& bytes <= max ==> result.left == entries && result.gone.len() == 0
        }),
    decreases entries.len(),
{
    let result = eviction(entries, bytes, max, protected);
    if bytes > max && entries.len() > 0 {
        lemma_first_unprotected(entries, protected);
        let v = victim(entries, protected);
        let others = entries.remove(v);
        let rest = eviction(others, monus(bytes, entries[v].bytes as nat), max, protected);
        law_eviction_splits_the_entries(
            others,
            monus(bytes, entries[v].bytes as nat),
            max,
            protected,
            entry,
        );
        if entries.contains(entry) {
            let i = choose|i: int| 0 <= i < entries.len() && entries[i] == entry;
            if i < v {
                assert(others[i] == entry);
            } else if i > v {
                assert(others[i - 1] == entry);
            } else {
                assert(result.gone[0] == entry);
            }
        }
        if rest.gone.contains(entry) {
            let i = choose|i: int| 0 <= i < rest.gone.len() && rest.gone[i] == entry;
            assert(result.gone[i + 1] == entry);
        }
        if others.contains(entry) {
            let i = choose|i: int| 0 <= i < others.len() && others[i] == entry;
            if i < v {
                assert(entries[i] == entry);
            } else {
                assert(entries[i + 1] == entry);
            }
        }
    }
}

/// Of two entries that are not protected, the one that was used longer ago goes first: where it
/// stays, the other stays too.
pub proof fn law_longest_unused_goes_first(
    entries: Pages,
    bytes: nat,
    max: nat,
    protected: Set<u32>,
    i: int,
    j: int,
)
    requires
        distinct_page_keys(entries),
        0 <= i < j < entries.len(),
        !protected.contains(entries[i].key.page),
        !protected.contains(entries[j].key.page),
        eviction(entries, bytes, max, protected).left.contains(entries[i]),
    ensures
        eviction(entries, bytes, max, protected).left.contains(entries[j]),
    decreases entries.len(),
{
    if bytes > max {
        lemma_first_unprotected(entries, protected);
        let v = victim(entries, protected);
        let others = entries.remove(v);
        let less = monus(bytes, entries[v].bytes as nat);
        if v == i {
            law_eviction_splits_the_entries(others, less, max, protected, entries[i]);
            let k = choose|k: int| 0 <= k < others.len() && others[k] == entries[i];
            if k < v {
                assert(others[k] == entries[k]);
            } else {
                assert(others[k] == entries[k + 1]);
            }
        } else {
            assert(v < i);
            assert(others[i - 1] == entries[i] && others[j - 1] == entries[j]);
            law_longest_unused_goes_first(others, less, max, protected, i - 1, j - 1);
        }
    } else {
        assert(entries.contains(entries[j]));
    }
}

/// No entry goes that could have stayed: with the last one that went, the limit would be exceeded.
pub proof fn law_no_page_goes_in_vain(entries: Pages, max: nat, protected: Set<u32>)
    ensures
        ({
            let result = eviction(entries, total(entries), max, protected);
            result.gone.len() > 0 ==> total(result.left) + result.gone.last().bytes > max
        }),
    decreases entries.len(),
{
    let result = eviction(entries, total(entries), max, protected);
    if total(entries) > max && entries.len() > 0 {
        lemma_first_unprotected(entries, protected);
        let v = victim(entries, protected);
        let others = entries.remove(v);
        lemma_total_remove(entries, v);
        law_no_page_goes_in_vain(others, max, protected);
        let rest = eviction(others, total(others), max, protected);
        if rest.gone.len() > 0 {
            assert(result.gone.last() == rest.gone.last());
        } else {
            assert(result.gone.last() == entries[v]);
            assert(total(others) <= max) by {
                if total(others) > max {
                    law_eviction_meets_the_budget(others, max, protected);
                    assert(rest.gone =~= Seq::empty());
                }
            }
        }
    }
}

/// Where not every page is protected, the first entry to go is not of a protected page, and every
/// entry that was used before it is.
pub proof fn law_first_to_go_is_not_protected(
    entries: Pages,
    bytes: nat,
    max: nat,
    protected: Set<u32>,
    i: int,
)
    requires
        bytes > max,
        0 <= i < entries.len(),
        !protected.contains(entries[i].key.page),
    ensures
        ({
            let gone = eviction(entries, bytes, max, protected).gone;
            &&& gone.len() > 0
            &&& !protected.contains(gone[0].key.page)
            &&& exists|v: int|
                0 <= v <= i && #[trigger] entries[v] == gone[0] && forall|k: int|
                    0 <= k < v ==> protected.contains(#[trigger] entries[k].key.page)
        }),
{
    lemma_first_unprotected(entries, protected);
    let v = victim(entries, protected);
    assert(entries[v] == eviction(entries, bytes, max, protected).gone[0]);
}

/// A decode that is used becomes the last to go; the others keep their order, and nothing else
/// changes.
pub proof fn law_used_pages_go_last(cache: CacheState, key: RgbaCacheKey)
    requires
        distinct_page_keys(cache.entries),
    ensures
        holds(cache.entries, key) ==> {
            let used = cache.used(key);
            &&& used.entries.len() == cache.entries.len()
            &&& used.entries.last().key == key
            &&& cache.entries.contains(used.entries.last())
            &&& used.entries.drop_last() == without(cache.entries, key)
            &&& used.bytes == cache.bytes && used.max == cache.max && used.revision
                == cache.revision
        },
        !holds(cache.entries, key) ==> cache.used(key) == cache,
{
    if holds(cache.entries, key) {
        lemma_index_of(cache.entries, key);
        let at = index_of(cache.entries, key);
        let others = without(cache.entries, key);
        assert(others.push(cache.entries[at]).drop_last() =~= others);
    }
}

/// A page that the cache can hold is stored as the one used last, in place of a decode under the
/// same conditions; where it fits beside the others, nothing goes. Animations and pages larger than
/// the limit are refused.
pub proof fn law_stored_pages_are_used_last(
    cache: CacheState,
    entry: CachedRgbaPage,
    protected: Set<u32>,
)
    requires
        cache.sound(),
        entry.bytes == entry.frames.first_frame_bytes,
    ensures
        entry.frames.frame_count != 1 || entry.bytes > cache.max ==> cache.stored(entry, protected)
            == cache,
        entry.frames.frame_count == 1 && cache.max > 0 && cache.bytes + entry.bytes <= cache.max
            && cache.max <= usize::MAX && cache.revision < u64::MAX ==> {
            let stored = cache.stored(entry, protected);
            &&& stored.entries == without(cache.entries, entry.key).push(entry)
            &&& stored.bytes == total(stored.entries)
            &&& stored.revision == cache.revision + 1
        },
{
    lemma_without(cache.entries, entry.key);
    lemma_pushed_total(without(cache.entries, entry.key), entry);
}

proof fn lemma_pushed_total(entries: Pages, entry: CachedRgbaPage)
    ensures
        total(entries.push(entry)) == total(entries) + entry.bytes,
{
    assert(entries.push(entry).drop_last() =~= entries);
}

/// What a lookup finds is a decode of the page that was asked for, large enough for it, and none
/// that is large enough lies nearer to the required size.
pub proof fn law_lookups_find_the_nearest_decode(
    cache: CacheState,
    page: u32,
    requirement: DisplayRequirement,
    i: int,
)
    requires
        0 <= i < cache.entries.len(),
        cache.entries[i].key.page == page,
        cache.entries[i].key.render_signature.suits(requirement),
    ensures
        cache.best(page, requirement) matches Some(found) && {
            let made = found.key.render_signature;
            let other = cache.entries[i].key.render_signature;
            let (w, h) = (requirement.required_w as int, requirement.required_h as int);
            &&& found.key.page == page
            &&& made.suits(requirement)
            &&& cache.entries.contains(found)
            &&& distance(made.target_w as int, w) + distance(made.target_h as int, h) <= distance(
                other.target_w as int,
                w,
            ) + distance(other.target_h as int, h)
        },
{
    let entries = cache.entries;
    assert(page_rank(entries[i], page, requirement) is Some);
    let found = lemma_some_best_page(entries, page, requirement, i);
    let b = choose|k: int| #[trigger] is_best_page(entries, page, requirement, k);
    assert(is_best_page(entries, page, requirement, b));
    assert(!rank_before(
        page_rank(entries[i], page, requirement)->0,
        page_rank(entries[b], page, requirement)->0,
    ));
    assert(entries.contains(entries[b]));
}

proof fn lemma_some_best_page(
    entries: Pages,
    page: u32,
    requirement: DisplayRequirement,
    i: int,
) -> (best: int)
    requires
        0 <= i < entries.len(),
        page_rank(entries[i], page, requirement) is Some,
    ensures
        is_best_page(entries, page, requirement, best),
    decreases entries.len(),
{
    let front = entries.drop_last();
    let last = entries.len() - 1;
    let rank = page_rank(entries[last], page, requirement);
    if exists|k: int|
        0 <= k < front.len() && #[trigger] page_rank(front[k], page, requirement) is Some {
        let k = choose|k: int|
            0 <= k < front.len() && #[trigger] page_rank(front[k], page, requirement) is Some;
        let before = lemma_some_best_page(front, page, requirement, k);
        let best = if rank is Some && rank_before(
            rank->0,
            page_rank(front[before], page, requirement)->0,
        ) {
            last
        } else {
            before
        };
        assert forall|j: int|
            0 <= j < entries.len() && #[trigger] page_rank(entries[j], page, requirement)
                is Some implies !rank_before(
            page_rank(entries[j], page, requirement)->0,
            page_rank(entries[best], page, requirement)->0,
        ) by {
            if j < last {
                assert(front[j] == entries[j]);
                assert(page_rank(front[j], page, requirement) is Some);
            }
        }
        best
    } else {
        assert forall|j: int|
            0 <= j < entries.len() && #[trigger] page_rank(entries[j], page, requirement)
                is Some implies j == last by {
            if j < last {
                assert(front[j] == entries[j]);
                assert(page_rank(front[j], page, requirement) is Some);
            }
        }
        assert(i == last);
        last
    }
}

/// Nothing is found of a page without a decode that is large enough.
pub proof fn law_lookups_find_no_other_decode(
    cache: CacheState,
    page: u32,
    requirement: DisplayRequirement,
)
    requires
        forall|i: int|
            0 <= i < cache.entries.len() ==> (#[trigger] cache.entries[i]).key.page != page
                || !cache.entries[i].key.render_signature.suits(requirement),
    ensures
        cache.best(page, requirement) is None,
        cache.looked_up(page, requirement) == cache,
{
}

proof fn lemma_next_is_first(
    entries: Pages,
    candidates: Seq<u32>,
    inserted_page: u32,
    protected: Set<u32>,
    k: int,
)
    requires
        0 <= k < candidates.len(),
        candidates[k] != inserted_page,
        !protected.contains(candidates[k]),
        holds_page(entries, candidates[k]),
        forall|i: int|
            0 <= i < k ==> (#[trigger] candidates[i]) == inserted_page || protected.contains(
                candidates[i],
            ) || !holds_page(entries, candidates[i]),
    ensures
        next_candidate(entries, candidates, inserted_page, protected) == Some(candidates[k]),
    decreases candidates.len(),
{
    if k > 0 {
        let rest = candidates.drop_first();
        assert(candidates[0] == inserted_page || protected.contains(candidates[0]) || !holds_page(
            entries,
            candidates[0],
        ));
        assert forall|i: int| 0 <= i < k - 1 implies (#[trigger] rest[i]) == inserted_page
            || protected.contains(rest[i]) || !holds_page(entries, rest[i]) by {
            assert(rest[i] == candidates[i + 1]);
        }
        assert(rest[k - 1] == candidates[k]);
        lemma_next_is_first(entries, rest, inserted_page, protected, k - 1);
    }
}

/// Candidates go in their order: the first that is held, is not protected and is not the page that
/// was stored goes with all its decodes. Within the limit none goes.
pub proof fn law_candidates_go_in_their_order(
    entries: Pages,
    bytes: nat,
    max: nat,
    candidates: Seq<u32>,
    inserted_page: u32,
    protected: Set<u32>,
    k: int,
)
    requires
        distinct_page_keys(entries),
        0 <= k < candidates.len(),
        candidates[k] != inserted_page,
        !protected.contains(candidates[k]),
        holds_page(entries, candidates[k]),
        forall|i: int|
            0 <= i < k ==> (#[trigger] candidates[i]) == inserted_page || protected.contains(
                candidates[i],
            ) || !holds_page(entries, candidates[i]),
    ensures
        ({
            let evicted = page_eviction(
                entries,
                bytes,
                max,
                candidates,
                inserted_page,
                protected,
            );
            &&& bytes <= max ==> evicted.left == entries && evicted.gone.len() == 0
                && evicted.pages == 0
            &&& bytes > max ==> evicted.pages > 0 && evicted.gone.len() > 0
                && evicted.gone[0].key.page == candidates[k] && evicted.gone.take(
                of_page(entries, candidates[k]).len() as int,
            ) == of_page(entries, candidates[k])
        }),
{
    lemma_next_is_first(entries, candidates, inserted_page, protected, k);
    if bytes > max {
        let page = candidates[k];
        lemma_page_split(entries, page);
        lemma_of_page(entries, page);
        let own = of_page(entries, page);
        let evicted = page_eviction(entries, bytes, max, candidates, inserted_page, protected);
        assert(own.len() > 0);
        assert(without_page(entries, page).len() < entries.len());
        assert(evicted.gone.take(own.len() as int) =~= own);
        assert(evicted.gone[0] == own[0]);
    }
}

proof fn lemma_of_page(entries: Pages, page: u32)
    ensures
        holds_page(entries, page) <==> of_page(entries, page).len() > 0,
        of_page(entries, page).len() + without_page(entries, page).len() == entries.len(),
        forall|i: int|
            0 <= i < of_page(entries, page).len() ==> (#[trigger] of_page(entries, page)[i]).key.page
                == page,
    decreases entries.len(),
{
    if entries.len() > 0 {
        let front = entries.drop_last();
        lemma_of_page(front, page);
        let last = entries.len() - 1;
        if holds_page(front, page) {
            let i = choose|i: int| 0 <= i < front.len() && (#[trigger] front[i]).key.page == page;
            assert(entries[i].key.page == page);
        }
        if entries.last().key.page == page {
            assert(entries[last].key.page == page);
        } else if holds_page(entries, page) {
            let i = choose|i: int|
                0 <= i < entries.len() && (#[trigger] entries[i]).key.page == page;
            assert(front[i].key.page == page);
        }
    }
}

/// A page for which the candidates free too little is held no longer, else it is; and the report
/// says which.
pub proof fn law_reports_tell_whether_the_page_stayed(
    cache: CacheState,
    entry: CachedRgbaPage,
    candidates: Seq<u32>,
    protected: Set<u32>,
)
    requires
        cache.sound(),
        counter_holds(cache, entry),
        cache.accepts(entry.frames),
    ensures
        ({
            let done = cache.stored_over(entry, candidates, protected);
            let report = cache.stored_over_outcome(entry, candidates, protected);
            &&& report.inserted
            &&& report.inserted_survived ==> holds(done.entries, entry.key)
            &&& !report.inserted_survived ==> !holds_page(done.entries, entry.key.page)
        }),
        ({
            let done = cache.stored(entry, protected);
            let report = cache.stored_outcome(entry, entry.key.page, protected);
            &&& report.inserted
            &&& report.inserted_survived <==> holds(done.entries, entry.key)
        }),
{
    lemma_without(cache.entries, entry.key);
    let placed = cache.placed(entry);
    let others = without(cache.entries, entry.key);
    lemma_pushed_total(others, entry);
    assert(distinct_page_keys(placed.entries)) by {
        assert forall|i: int, j: int| 0 <= i < j < placed.entries.len() implies (
        #[trigger] placed.entries[i]).key != (#[trigger] placed.entries[j]).key by {
            if j == others.len() {
                assert(others[i].key != entry.key);
            }
        }
    }
    law_candidates_only(placed.entries, cache.max, candidates, entry.key.page, protected);
    let evicted = cache.candidates_gone(entry, candidates, protected);
    assert(placed.bytes == total(placed.entries));
    lemma_page_split(evicted.left, entry.key.page);
    lemma_of_page(without_page(evicted.left, entry.key.page), entry.key.page);
    if !cache.gives_up(entry, candidates, protected) {
        let own = of_page(placed.entries, entry.key.page);
        assert(own.last() == entry);
        lemma_of_page_held(evicted.left, entry.key.page, own.len() - 1);
    } else {
        lemma_without_page_holds_none(evicted.left, entry.key.page);
    }
}

proof fn lemma_of_page_held(entries: Pages, page: u32, k: int)
    requires
        0 <= k < of_page(entries, page).len(),
    ensures
        holds(entries, of_page(entries, page)[k].key),
    decreases entries.len(),
{
    if entries.len() > 0 {
        let front = entries.drop_last();
        let last = entries.len() - 1;
        if entries.last().key.page == page && k == of_page(entries, page).len() - 1 {
            assert(entries[last].key == of_page(entries, page)[k].key);
        } else {
            lemma_of_page_held(front, page, k);
            let key = of_page(front, page)[k].key;
            let i = choose|i: int| 0 <= i < front.len() && (#[trigger] front[i]).key == key;
            assert(entries[i].key == key);
        }
    }
}

proof fn lemma_without_page_holds_none(entries: Pages, page: u32)
    ensures
        !holds_page(without_page(entries, page), page),
    decreases entries.len(),
{
    if entries.len() > 0 {
        let front = entries.drop_last();
        lemma_without_page_holds_none(front, page);
        let before = without_page(front, page);
        let after = without_page(entries, page);
        if holds_page(after, page) {
            let i = choose|i: int| 0 <= i < after.len() && (#[trigger] after[i]).key.page == page;
            if i < before.len() {
                assert(before[i].key.page == page);
            }
        }
    }
}

/// The nearest page that went is told by its distance from the current one: one of them lies at
/// that distance, and none is nearer.
pub proof fn law_nearest_is_the_smallest_distance(gone: Pages, current_page: u32, i: int)
    requires
        0 <= i < gone.len(),
    ensures
        nearest(gone, current_page) matches Some(near) && near <= distance(
            gone[i].key.page as int,
            current_page as int,
        ) && exists|k: int|
            0 <= k < gone.len() && distance(
                (#[trigger] gone[k]).key.page as int,
                current_page as int,
            ) == near,
    decreases gone.len(),
{
    let front = gone.drop_last();
    let last = gone.len() - 1;
    if front.len() > 0 {
        law_nearest_is_the_smallest_distance(
            front,
            current_page,
            if i < last {
                i
            } else {
                0
            },
        );
        let near = nearest(front, current_page)->0;
        let k = choose|k: int|
            0 <= k < front.len() && distance(
                (#[trigger] front[k]).key.page as int,
                current_page as int,
            ) == near;
        assert(gone[k] == front[k]);
    }
    assert(gone[last] == gone.last());
}

/// The revision moves on where something went or came, and stays where nothing did.
pub proof fn law_revisions_follow_the_contents(cache: CacheState, page: u32, max: nat)
    requires
        cache.sound(),
        cache.revision < u64::MAX,
    ensures
        holds_page(cache.entries, page) ==> cache.without_decodes_of(page).revision
            == cache.revision + 1,
        !holds_page(cache.entries, page) ==> cache.without_decodes_of(page).revision
            == cache.revision,
        cache.bytes <= max ==> cache.limited(max, Set::empty()).revision == cache.revision
            && cache.limited(max, Set::empty()).entries == cache.entries,
        cache.bytes > max ==> cache.limited(max, Set::empty()).revision == cache.revision + 1,
        cache.limited(max, Set::empty()).max == max,
{
    if cache.bytes > max {
        let entries = cache.entries;
        assert(entries.len() > 0) by {
            if entries.len() == 0 {
                assert(total(entries) == 0);
            }
        }
        lemma_first_unprotected(entries, Set::empty());
    }
}

/// A page that fits beside the others stays, and nothing goes for it.
pub proof fn law_pages_that_fit_stay(
    cache: CacheState,
    entry: CachedRgbaPage,
    candidates: Seq<u32>,
    protected: Set<u32>,
)
    requires
        cache.sound(),
        entry.bytes == entry.frames.first_frame_bytes,
        entry.frames.frame_count == 1,
        cache.max > 0,
        cache.bytes + entry.bytes <= cache.max,
        cache.max <= usize::MAX,
    ensures
        ({
            let report = cache.stored_over_outcome(entry, candidates, protected);
            let done = cache.stored_over(entry, candidates, protected);
            &&& report.inserted && report.inserted_survived
            &&& report.eviction.evicted_count == 0 && report.eviction.evicted_bytes == 0
            &&& report.eviction.nearest_evicted_distance is None
            &&& !report.eviction.protected_evicted
            &&& done.entries == without(cache.entries, entry.key).push(entry)
            &&& cache.revision < u64::MAX ==> done.revision == cache.revision + 1
        }),
{
    lemma_without(cache.entries, entry.key);
    lemma_pushed_total(without(cache.entries, entry.key), entry);
    let evicted = cache.candidates_gone(entry, candidates, protected);
    assert(evicted.gone.len() == 0);
    assert(total(evicted.gone) == 0);
}

/// Pages that the cache cannot hold are refused: it stays as it is, and the report says so.
pub proof fn law_pages_that_cannot_be_held_are_refused(
    cache: CacheState,
    entry: CachedRgbaPage,
    candidates: Seq<u32>,
    protected: Set<u32>,
    current: u32,
)
    requires
        entry.frames.frame_count != 1 || entry.frames.first_frame_bytes > cache.max || cache.max
            == 0,
    ensures
        cache.stored_over(entry, candidates, protected) == cache,
        cache.stored(entry, protected) == cache,
        !cache.stored_over_outcome(entry, candidates, protected).inserted,
        !cache.stored_over_outcome(entry, candidates, protected).inserted_survived,
        !cache.stored_outcome(entry, current, protected).inserted,
        cache.stored_outcome(entry, current, protected).eviction.evicted_count == 0,
{
}

/// A report counts what went: how many entries, how many bytes, and whether one was protected.
pub proof fn law_reports_count_what_went(
    gone: Pages,
    current: u32,
    protected: Set<u32>,
    i: int,
)
    requires
        gone.len() <= usize::MAX,
        total(gone) <= usize::MAX,
    ensures
        outcome_of(gone, current, protected).evicted_count == gone.len(),
        outcome_of(gone, current, protected).evicted_bytes == total(gone),
        0 <= i < gone.len() && protected.contains(gone[i].key.page) ==> outcome_of(
            gone,
            current,
            protected,
        ).protected_evicted,
        gone.len() == 0 ==> outcome_of(gone, current, protected) == no_eviction(),
        removal_outcome(gone).evicted_count == gone.len(),
        removal_outcome(gone).evicted_bytes == total(gone),
        !removal_outcome(gone).protected_evicted,
{
    if 0 <= i < gone.len() && protected.contains(gone[i].key.page) {
        assert(any_protected(gone, protected));
    }
}

} // verus!
