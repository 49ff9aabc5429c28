//! Textures kept in order of use, oldest first, each key at most once: what the texture history
//! and the warm-up cache have in common.
use vstd::prelude::*;

use super::working_set::{
    page_render_signature_rank, rank_before, rank_is_before, signature_rank, DisplayRequirement,
    GpuTextureEntrySnapshot, PageRenderSignatureKey, SignatureRank,
};
use crate::num::{distance, monus};

verus! {

pub type GpuTextureKey = PageRenderSignatureKey;

/// An uploaded texture: its handle and its size in pixels.
#[derive(Clone, Copy, Debug, PartialEq, Eq, Structural)]
pub struct TextureRef {
    pub id: u64,
    pub width: usize,
    pub height: usize,
}

#[derive(Clone, Copy, Debug, PartialEq, Eq, Structural)]
pub struct CachedGpuTexture {
    pub key: GpuTextureKey,
    pub texture: TextureRef,
    pub estimated_bytes: usize,
}

/// Whether a texture has exactly the required size or merely suffices.
#[derive(Clone, Copy, Debug, PartialEq, Eq, Structural)]
pub enum GpuTextureHitKind {
    Exact,
    Suitable,
}

impl GpuTextureHitKind {
    pub fn as_str(self) -> (text: &'static str)
        ensures
            text@ == match self {
                GpuTextureHitKind::Exact => "exact"@,
                GpuTextureHitKind::Suitable => "suitable"@,
            },
    {
        match self {
            GpuTextureHitKind::Exact => "exact",
            GpuTextureHitKind::Suitable => "suitable",
        }
    }
}

/// The cache a texture was found in.
#[derive(Clone, Copy, Debug, PartialEq, Eq, Structural)]
pub enum GpuTextureHitSource {
    History,
    Warmup,
}

impl GpuTextureHitSource {
    pub fn as_str(self) -> (text: &'static str)
        ensures
            text@ == match self {
                GpuTextureHitSource::History => "history"@,
                GpuTextureHitSource::Warmup => "warmup"@,
            },
    {
        match self {
            GpuTextureHitSource::History => "history",
            GpuTextureHitSource::Warmup => "warmup",
        }
    }
}

#[derive(Clone, Copy, Debug, PartialEq, Eq, Structural)]
pub struct GpuTextureHit {
    pub texture: TextureRef,
    pub key: GpuTextureKey,
    pub hit_kind: GpuTextureHitKind,
    pub source: GpuTextureHitSource,
    pub estimated_bytes: usize,
    pub texture_width: usize,
    pub texture_height: usize,
}

/// No key occurs twice.
pub open spec fn distinct_keys(entries: Seq<CachedGpuTexture>) -> bool {
    forall|i: int, j: int|
        0 <= i < j < entries.len() ==> (#[trigger] entries[i]).key != (#[trigger] entries[j]).key
}

pub open spec fn holds_key(entries: Seq<CachedGpuTexture>, key: GpuTextureKey) -> bool {
    exists|i: int| 0 <= i < entries.len() && (#[trigger] entries[i]).key == key
}

/// The position of a held key.
pub open spec fn key_index(entries: Seq<CachedGpuTexture>, key: GpuTextureKey) -> int {
    choose|i: int| 0 <= i < entries.len() && (#[trigger] entries[i]).key == key
}

/// The entries but the one with the given key, in the same order.
pub open spec fn without_key(entries: Seq<CachedGpuTexture>, key: GpuTextureKey) -> Seq<
    CachedGpuTexture,
> {
    if holds_key(entries, key) {
        entries.remove(key_index(entries, key))
    } else {
        entries
    }
}

/// The bytes held under a key.
pub open spec fn bytes_of_key(entries: Seq<CachedGpuTexture>, key: GpuTextureKey) -> nat {
    if holds_key(entries, key) {
        entries[key_index(entries, key)].estimated_bytes as nat
    } else {
        0
    }
}

pub open spec fn total_bytes(entries: Seq<CachedGpuTexture>) -> nat
    decreases entries.len(),
{
    if entries.len() == 0 {
        0
    } else {
        total_bytes(entries.drop_last()) + entries.last().estimated_bytes as nat
    }
}

/// How many of the oldest entries go until the byte count is within the limit.
pub open spec fn evictions(entries: Seq<CachedGpuTexture>, current: nat, max: nat) -> nat
    decreases entries.len(),
{
    if current > max && entries.len() > 0 {
        1 + evictions(
            entries.drop_first(),
            monus(current, entries[0].estimated_bytes as nat),
            max,
        )
    } else {
        0
    }
}

/// The byte count once the `count` oldest entries are gone.
pub open spec fn bytes_after_evicting(
    entries: Seq<CachedGpuTexture>,
    current: nat,
    count: nat,
) -> nat
    decreases count,
{
    if count == 0 || entries.len() == 0 {
        current
    } else {
        bytes_after_evicting(
            entries.drop_first(),
            monus(current, entries[0].estimated_bytes as nat),
            (count - 1) as nat,
        )
    }
}

pub open spec fn entry_rank(
    entry: CachedGpuTexture,
    page: u32,
    requirement: DisplayRequirement,
) -> Option<SignatureRank> {
    signature_rank(
        entry.key.page,
        entry.key.render_signature,
        page,
        requirement,
        entry.estimated_bytes,
    )
}

/// Whether entry `i` suits the requirement and no suitable entry ranks before it.
pub open spec fn is_best_entry(
    entries: Seq<CachedGpuTexture>,
    page: u32,
    requirement: DisplayRequirement,
    i: int,
) -> bool {
    &&& 0 <= i < entries.len()
    &&& entry_rank(entries[i], page, requirement) is Some
    &&& forall|j: int|
        0 <= j < entries.len() && #[trigger] entry_rank(entries[j], page, requirement) is Some
            ==> !rank_before(
            entry_rank(entries[j], page, requirement)->0,
            entry_rank(entries[i], page, requirement)->0,
        )
}

pub open spec fn any_suitable(
    entries: Seq<CachedGpuTexture>,
    page: u32,
    requirement: DisplayRequirement,
) -> bool {
    exists|j: int|
        0 <= j < entries.len() && #[trigger] entry_rank(entries[j], page, requirement) is Some
}

/// What a lookup reports of an entry.
pub open spec fn hit_of(
    entry: CachedGpuTexture,
    requirement: DisplayRequirement,
    source: GpuTextureHitSource,
) -> GpuTextureHit {
    GpuTextureHit {
        texture: entry.texture,
        key: entry.key,
        hit_kind: if entry.key.render_signature.target_w == requirement.required_w
            && entry.key.render_signature.target_h == requirement.required_h {
            GpuTextureHitKind::Exact
        } else {
            GpuTextureHitKind::Suitable
        },
        source,
        estimated_bytes: entry.estimated_bytes,
        texture_width: entry.texture.width,
        texture_height: entry.texture.height,
    }
}

/// The texture that a lookup for a page gives: the best suitable one.
pub open spec fn best_hit(
    entries: Seq<CachedGpuTexture>,
    page: u32,
    requirement: DisplayRequirement,
    source: GpuTextureHitSource,
) -> Option<GpuTextureHit> {
    if any_suitable(entries, page, requirement) {
        Some(
            hit_of(
                entries[choose|i: int| #[trigger] is_best_entry(entries, page, requirement, i)],
                requirement,
                source,
            ),
        )
    } else {
        None
    }
}

/// Where no key occurs twice there is one best entry, so a lookup can give only that one.
pub proof fn lemma_best_hit(
    entries: Seq<CachedGpuTexture>,
    page: u32,
    requirement: DisplayRequirement,
    source: GpuTextureHitSource,
    hit: Option<GpuTextureHit>,
)
    requires
        distinct_keys(entries),
        lookup_finds(entries, page, requirement, source, hit),
    ensures
        hit == best_hit(entries, page, requirement, source),
{
    if hit is Some {
        let a = choose|i: int| #[trigger]
            is_best_entry(entries, page, requirement, i) && hit->0 == hit_of(
                entries[i],
                requirement,
                source,
            );
        let b = choose|i: int| #[trigger] is_best_entry(entries, page, requirement, i);
        assert(entry_rank(entries[a], page, requirement) is Some);
        assert(entry_rank(entries[b], page, requirement) is Some);
        assert(entries[a].key.render_signature == entries[b].key.render_signature);
        assert(entries[a].key == entries[b].key);
        assert(a == b);
    }
}

/// A lookup finds the best suitable entry, and finds nothing if and only if none is suitable.
pub open spec fn lookup_finds(
    entries: Seq<CachedGpuTexture>,
    page: u32,
    requirement: DisplayRequirement,
    source: GpuTextureHitSource,
    hit: Option<GpuTextureHit>,
) -> bool {
    match hit {
        None => !any_suitable(entries, page, requirement),
        Some(hit) => exists|i: int| #[trigger]
            is_best_entry(entries, page, requirement, i) && hit == hit_of(
                entries[i],
                requirement,
                source,
            ),
    }
}

/// What the planners see of the entries, oldest first.
pub open spec fn snapshots_of(entries: Seq<CachedGpuTexture>) -> Seq<GpuTextureEntrySnapshot> {
    entries.map_values(
        |entry: CachedGpuTexture|
            GpuTextureEntrySnapshot {
                key: entry.key,
                page: entry.key.page,
                bytes: entry.estimated_bytes,
            },
    )
}

/// The position of a key, if it is held.
pub fn find_key(entries: &Vec<CachedGpuTexture>, key: GpuTextureKey) -> (index: Option<usize>)
    requires
        distinct_keys(entries@),
    ensures
        index is Some <==> holds_key(entries@, key),
        index matches Some(i) ==> i < entries@.len() && i == key_index(entries@, key)
            && entries@[i as int].key == key,
{
    let mut i: usize = 0;
    while i < entries.len()
        invariant
            i <= entries@.len(),
            distinct_keys(entries@),
            forall|k: int| 0 <= k < i ==> (#[trigger] entries@[k]).key != key,
        decreases entries@.len() - i,
    {
        if entries[i].key == key {
            assert(holds_key(entries@, key));
            let ghost found = key_index(entries@, key);
            assert(entries@[found].key == key);
            return Some(i);
        }
        i = i + 1;
    }
    None
}

/// The position of the best suitable entry.
pub fn best_suitable_index(
    entries: &Vec<CachedGpuTexture>,
    page: u32,
    requirement: DisplayRequirement,
) -> (index: Option<usize>)
    ensures
        index is None ==> !any_suitable(entries@, page, requirement),
        index matches Some(i) ==> is_best_entry(entries@, page, requirement, i as int),
{
    let mut best: Option<(SignatureRank, usize)> = None;
    let mut i: usize = 0;
    while i < entries.len()
        invariant
            i <= entries@.len(),
            best is None ==> forall|j: int|
                0 <= j < i ==> #[trigger] entry_rank(entries@[j], page, requirement) is None,
            best matches Some((rank, k)) ==> k < i && entry_rank(
                entries@[k as int],
                page,
                requirement,
            ) == Some(rank) && forall|j: int|
                0 <= j < i && #[trigger] entry_rank(entries@[j], page, requirement) is Some
                    ==> !rank_before(entry_rank(entries@[j], page, requirement)->0, rank),
        decreases entries@.len() - i,
    {
        let entry: CachedGpuTexture = entries[i];
        match page_render_signature_rank(
            entry.key.page,
            entry.key.render_signature,
            page,
            requirement,
            entry.estimated_bytes,
        ) {
            Some(rank) => {
                let better: bool = match best {
                    Some((previous, _)) => rank_is_before(rank, previous),
                    None => true,
                };
                if better {
                    best = Some((rank, i));
                }
            },
            None => {},
        }
        i = i + 1;
    }
    match best {
        Some((_, k)) => Some(k),
        None => None,
    }
}

/// The best suitable texture for a page.
pub fn peek(
    entries: &Vec<CachedGpuTexture>,
    page: u32,
    requirement: DisplayRequirement,
    source: GpuTextureHitSource,
) -> (hit: Option<GpuTextureHit>)
    ensures
        lookup_finds(entries@, page, requirement, source, hit),
{
    match best_suitable_index(entries, page, requirement) {
        Some(i) => {
            let entry: CachedGpuTexture = entries[i];
            let signature = entry.key.render_signature;
            let hit_kind = if signature.target_w == requirement.required_w && signature.target_h
                == requirement.required_h {
                GpuTextureHitKind::Exact
            } else {
                GpuTextureHitKind::Suitable
            };
            let hit = GpuTextureHit {
                texture: entry.texture,
                key: entry.key,
                hit_kind,
                source,
                estimated_bytes: entry.estimated_bytes,
                texture_width: entry.texture.width,
                texture_height: entry.texture.height,
            };
            assert(is_best_entry(entries@, page, requirement, i as int));
            Some(hit)
        },
        None => None,
    }
}

/// The entries as the planners see them.
pub fn snapshot_entries(entries: &Vec<CachedGpuTexture>) -> (snapshots: Vec<
    GpuTextureEntrySnapshot,
>)
    ensures
        snapshots@ == snapshots_of(entries@),
{
    let mut snapshots: Vec<GpuTextureEntrySnapshot> = Vec::new();
    let mut i: usize = 0;
    while i < entries.len()
        invariant
            i <= entries@.len(),
            snapshots@ == snapshots_of(entries@).take(i as int),
        decreases entries@.len() - i,
    {
        let entry: CachedGpuTexture = entries[i];
        snapshots.push(
            GpuTextureEntrySnapshot {
                key: entry.key,
                page: entry.key.page,
                bytes: entry.estimated_bytes,
            },
        );
        i = i + 1;
        assert(snapshots@ =~= snapshots_of(entries@).take(i as int));
    }
    assert(snapshots_of(entries@).take(i as int) =~= snapshots_of(entries@));
    snapshots
}

/// Removes the oldest entries until the byte count is within the limit; returns the new byte
/// count and how many went.
pub fn evict_oldest(entries: &mut Vec<CachedGpuTexture>, current: usize, max: usize) -> (result: (
    usize,
    usize,
))
    ensures
        result.1 == evictions(old(entries)@, current as nat, max as nat),
        result.1 <= old(entries)@.len(),
        result.0 == bytes_after_evicting(old(entries)@, current as nat, result.1 as nat),
        final(entries)@ == old(entries)@.skip(result.1 as int),
{
    let mut bytes: usize = current;
    let mut count: usize = 0;
    let start_len: usize = entries.len();
    assert(entries@.skip(0) =~= entries@);
    while bytes > max && entries.len() > 0
        invariant
            count <= start_len,
            start_len == old(entries)@.len(),
            entries@ == old(entries)@.skip(count as int),
            count + evictions(entries@, bytes as nat, max as nat) == evictions(
                old(entries)@,
                current as nat,
                max as nat,
            ),
            forall|extra: nat|
                bytes_after_evicting(old(entries)@, current as nat, count as nat + extra)
                    == #[trigger] bytes_after_evicting(entries@, bytes as nat, extra),
        decreases entries@.len(),
    {
        let ghost before = entries@;
        let ghost bytes_before = bytes as nat;
        let oldest: CachedGpuTexture = entries.remove(0);
        assert(entries@ =~= before.drop_first());
        assert(entries@ =~= old(entries)@.skip(count + 1));
        bytes = bytes.saturating_sub(oldest.estimated_bytes);
        count = count + 1;
        assert forall|extra: nat| bytes_after_evicting(old(entries)@, current as nat, count as nat + extra)
            == #[trigger] bytes_after_evicting(entries@, bytes as nat, extra) by {
            assert(bytes_after_evicting(before, bytes_before, extra + 1) == bytes_after_evicting(
                entries@,
                bytes as nat,
                extra,
            ));
        }
    }
    assert(bytes_after_evicting(entries@, bytes as nat, 0) == bytes);
    assert(evictions(entries@, bytes as nat, max as nat) == 0);
    (bytes, count)
}

/// Appending adds the entry's bytes; dropping the oldest takes its bytes away.
pub proof fn lemma_total_bytes(entries: Seq<CachedGpuTexture>, entry: CachedGpuTexture)
    ensures
        total_bytes(entries.push(entry)) == total_bytes(entries) + entry.estimated_bytes,
        entries.len() > 0 ==> total_bytes(entries) == entries[0].estimated_bytes as nat
            + total_bytes(entries.drop_first()),
    decreases entries.len(),
{
    assert(entries.push(entry).drop_last() =~= entries);
    if entries.len() == 1 {
        assert(entries.drop_first() =~= Seq::empty());
        assert(entries.drop_last() =~= Seq::empty());
    } else if entries.len() > 1 {
        lemma_total_bytes(entries.drop_last(), entry);
        assert(entries.drop_first().drop_last() =~= entries.drop_last().drop_first());
    }
}

/// Removing one entry takes exactly its bytes away.
pub proof fn lemma_total_bytes_remove(entries: Seq<CachedGpuTexture>, i: int)
    requires
        0 <= i < entries.len(),
    ensures
        total_bytes(entries) == total_bytes(entries.remove(i)) + entries[i].estimated_bytes,
    decreases entries.len(),
{
    if i == entries.len() - 1 {
        assert(entries.remove(i) =~= entries.drop_last());
    } else {
        lemma_total_bytes_remove(entries.drop_last(), i);
        assert(entries.remove(i).drop_last() =~= entries.drop_last().remove(i));
    }
}

/// Taking out an entry by its key, where the key is held.
pub proof fn lemma_key_index(entries: Seq<CachedGpuTexture>, key: GpuTextureKey)
    requires
        holds_key(entries, key),
    ensures
        0 <= key_index(entries, key) < entries.len(),
        entries[key_index(entries, key)].key == key,
{
}

/// Without a key, the other entries keep their distinct keys and the total drops by the bytes
/// held under it.
pub proof fn lemma_without_key(entries: Seq<CachedGpuTexture>, key: GpuTextureKey)
    requires
        distinct_keys(entries),
    ensures
        distinct_keys(without_key(entries, key)),
        !holds_key(without_key(entries, key), key),
        total_bytes(entries) == total_bytes(without_key(entries, key)) + bytes_of_key(entries, key),
{
    if holds_key(entries, key) {
        lemma_key_index(entries, key);
        lemma_total_bytes_remove(entries, key_index(entries, key));
    }
}

/// When the byte count is the sum of the entries' bytes, evicting keeps it so and ends within
/// the limit, and never reaches a last entry that fits alone.
pub proof fn lemma_evictions(entries: Seq<CachedGpuTexture>, max: nat)
    ensures
        ({
            let count = evictions(entries, total_bytes(entries), max);
            &&& count <= entries.len()
            &&& bytes_after_evicting(entries, total_bytes(entries), count) == total_bytes(
                entries.skip(count as int),
            )
            &&& total_bytes(entries.skip(count as int)) <= max
            &&& entries.len() > 0 && entries.last().estimated_bytes <= max ==> count
                < entries.len()
        }),
    decreases entries.len(),
{
    let total = total_bytes(entries);
    let count = evictions(entries, total, max);
    if total > max && entries.len() > 0 {
        lemma_total_bytes(entries, entries[0]);
        let rest = entries.drop_first();
        lemma_evictions(rest, max);
        assert(rest.skip((count - 1) as int) =~= entries.skip(count as int));
        if entries.len() == 1 {
            assert(rest =~= Seq::empty());
            assert(total_bytes(rest) == 0);
            assert(entries.last() == entries[0]);
        } else {
            assert(rest.last() == entries.last());
        }
    } else {
        assert(entries.skip(0) =~= entries);
    }
}

/// No texture goes that could have stayed: with the last of them that goes, the limit would be
/// exceeded. The oldest go first.
pub proof fn law_no_more_goes_than_must(entries: Seq<CachedGpuTexture>, max: nat)
    ensures
        ({
            let count = evictions(entries, total_bytes(entries), max) as int;
            &&& total_bytes(entries) <= max ==> count == 0
            &&& count > 0 ==> total_bytes(entries.skip(count - 1)) > max
        }),
    decreases entries.len(),
{
    let total = total_bytes(entries);
    let count = evictions(entries, total, max);
    if total > max && entries.len() > 0 {
        lemma_total_bytes(entries, entries[0]);
        let rest = entries.drop_first();
        law_no_more_goes_than_must(rest, max);
        lemma_evictions(entries, max);
        if count == 1 {
            assert(entries.skip(0) =~= entries);
        } else {
            assert(rest.skip(count - 2) =~= entries.skip(count - 1));
        }
    }
}

/// Without a key, every other key is held as before and the order of the others is kept.
pub proof fn law_other_keys_are_kept(
    entries: Seq<CachedGpuTexture>,
    key: GpuTextureKey,
    other: CachedGpuTexture,
)
    requires
        distinct_keys(entries),
    ensures
        other.key != key ==> (without_key(entries, key).contains(other) <==> entries.contains(
            other,
        )),
        without_key(entries, key).len() + (if holds_key(entries, key) {
            1int
        } else {
            0int
        }) == entries.len(),
{
    if holds_key(entries, key) {
        lemma_key_index(entries, key);
        let at = key_index(entries, key);
        let rest = entries.remove(at);
        if other.key != key && entries.contains(other) {
            let i = choose|i: int| 0 <= i < entries.len() && entries[i] == other;
            if i < at {
                assert(rest[i] == other);
            } else {
                assert(rest[i - 1] == other);
            }
        }
        if rest.contains(other) {
            let i = choose|i: int| 0 <= i < rest.len() && rest[i] == other;
            if i < at {
                assert(entries[i] == other);
            } else {
                assert(entries[i + 1] == other);
            }
        }
    }
}

/// What a lookup finds is a held texture of the page that was asked for, large enough for it, and
/// none that is large enough lies nearer to the required size. A texture of exactly that size is
/// told as such.
pub proof fn law_lookups_find_the_nearest_size(
    entries: Seq<CachedGpuTexture>,
    page: u32,
    requirement: DisplayRequirement,
    source: GpuTextureHitSource,
    i: int,
)
    requires
        distinct_keys(entries),
        0 <= i < entries.len(),
        entries[i].key.page == page,
        entries[i].key.render_signature.suits(requirement),
    ensures
        best_hit(entries, page, requirement, source) matches Some(hit) && {
            let made = hit.key.render_signature;
            let other = entries[i].key.render_signature;
            let (w, h) = (requirement.required_w as int, requirement.required_h as int);
            &&& hit.key.page == page
            &&& hit.source == source
            &&& made.suits(requirement)
            &&& distance(made.target_w as int, w) + distance(made.target_h as int, h) <= distance(
                other.target_w as int,
                w,
            ) + distance(other.target_h as int, h)
            &&& (hit.hit_kind is Exact) <==> made.target_w == w && made.target_h == h
            &&& exists|k: int|
                0 <= k < entries.len() && (#[trigger] entries[k]).key == hit.key
                    && entries[k].texture == hit.texture && entries[k].estimated_bytes
                    == hit.estimated_bytes
        },
{
    assert(entry_rank(entries[i], page, requirement) is Some);
    let found = lemma_some_best(entries, page, requirement, i);
    let b = choose|k: int| #[trigger] is_best_entry(entries, page, requirement, k);
    assert(is_best_entry(entries, page, requirement, b));
    assert(!rank_before(
        entry_rank(entries[i], page, requirement)->0,
        entry_rank(entries[b], page, requirement)->0,
    ));
    assert(entries[b].key == best_hit(entries, page, requirement, source)->0.key);
}

proof fn lemma_some_best(
    entries: Seq<CachedGpuTexture>,
    page: u32,
    requirement: DisplayRequirement,
    i: int,
) -> (best: int)
    requires
        0 <= i < entries.len(),
        entry_rank(entries[i], page, requirement) is Some,
    ensures
        is_best_entry(entries, page, requirement, best),
    decreases entries.len(),
{
    let front = entries.drop_last();
    let last = entries.len() - 1;
    let rank = entry_rank(entries[last], page, requirement);
    if exists|k: int|
        0 <= k < front.len() && #[trigger] entry_rank(front[k], page, requirement) is Some {
        let k = choose|k: int|
            0 <= k < front.len() && #[trigger] entry_rank(front[k], page, requirement) is Some;
        let before = lemma_some_best(front, page, requirement, k);
        let best = if rank is Some && rank_before(
            rank->0,
            entry_rank(front[before], page, requirement)->0,
        ) {
            last
        } else {
            before
        };
        assert forall|j: int|
            0 <= j < entries.len() && #[trigger] entry_rank(entries[j], page, requirement)
                is Some implies !rank_before(
            entry_rank(entries[j], page, requirement)->0,
            entry_rank(entries[best], page, requirement)->0,
        ) by {
            if j < last {
                assert(front[j] == entries[j]);
                assert(entry_rank(front[j], page, requirement) is Some);
            }
        }
        best
    } else {
        assert forall|j: int|
            0 <= j < entries.len() && #[trigger] entry_rank(entries[j], page, requirement)
                is Some implies j == last by {
            if j < last {
                assert(front[j] == entries[j]);
                assert(entry_rank(front[j], page, requirement) is Some);
            }
        }
        assert(i == last);
        last
    }
}

/// Nothing is found for a page of which no texture is large enough.
pub proof fn law_lookups_find_nothing_else(
    entries: Seq<CachedGpuTexture>,
    page: u32,
    requirement: DisplayRequirement,
    source: GpuTextureHitSource,
)
    requires
        forall|i: int|
            0 <= i < entries.len() ==> (#[trigger] entries[i]).key.page != page
                || !entries[i].key.render_signature.suits(requirement),
    ensures
        best_hit(entries, page, requirement, source) is None,
{
}

} // verus!
