//! Which upcoming page to upload ahead of time, and which warm textures to let go for it.
//!
//! While there is room, the nearest missing page is added. Once the cache is full, a page is
//! added only in place of pages further away.
use vstd::prelude::*;

use std::collections::HashMap;

use super::rgba_page_cache::RgbaCacheKey;
use super::working_set::{
    page_render_signature_rank, rank_before, rank_is_before, signature_rank, DisplayRequirement,
    GpuTextureEntrySnapshot, PageRenderSignatureKey, RenderSignature, SignatureRank,
};
use crate::num::{capped, greatest, max_u32, monus};
use crate::sorting::{
    all_told_apart, is_weak_order, law_sorting_forgets_the_order, stable_sort, stable_sorted, Sortable,
};

verus! {

/// A decoded page that could be uploaded.
#[derive(Clone, Copy, Debug, PartialEq, Eq)]
pub struct RgbaReadyEntrySnapshot {
    pub key: RgbaCacheKey,
    pub page: u32,
    pub bytes: usize,
    pub signature: RenderSignature,
    pub source: &'static str,
}

/// An upcoming page with the decode that would be uploaded for it.
#[derive(Clone, Copy, Debug, PartialEq, Eq, Structural)]
pub struct GpuWarmupCandidateSnapshot {
    pub rgba_key: RgbaCacheKey,
    pub key: PageRenderSignatureKey,
    pub page: u32,
    pub bytes: usize,
    pub distance: u32,
    pub requirement: DisplayRequirement,
}

#[derive(Clone, Copy, Debug, PartialEq, Eq)]
pub struct GpuWarmupEvictCandidate {
    pub key: PageRenderSignatureKey,
    pub page: u32,
    pub bytes: usize,
    pub reason: &'static str,
}

#[derive(Clone, Copy, Debug, PartialEq, Eq, Structural)]
pub struct GpuWarmupUploadCandidate {
    pub rgba_key: RgbaCacheKey,
    pub key: PageRenderSignatureKey,
    pub page: u32,
    pub bytes: usize,
    pub distance: u32,
    pub requirement: DisplayRequirement,
}

/// A plan in numbers.
#[derive(Clone, Copy, Debug, PartialEq, Eq)]
pub struct GpuWarmupPlanSnapshot {
    pub visible_end: Option<u32>,
    pub l2_ready_count: usize,
    pub future_candidate_count: usize,
    pub warm_count: usize,
    pub warm_bytes: usize,
    pub free_bytes: usize,
    pub best_missing_page: Option<u32>,
    pub worst_warm_page: Option<u32>,
    pub replacement_needed: usize,
    pub replacement_count: usize,
    pub stale_evict_count: usize,
    pub upload_count: usize,
    pub pending_uploads: usize,
    pub upload_page: Option<u32>,
    pub upload_bytes: usize,
    pub upload_mode: Option<&'static str>,
    pub evict_count: usize,
    pub idle_reason: Option<&'static str>,
}

impl Default for GpuWarmupPlanSnapshot {
    fn default() -> (snapshot: Self)
        ensures
            snapshot == empty_summary(),
    {
        GpuWarmupPlanSnapshot {
            visible_end: None,
            l2_ready_count: 0,
            future_candidate_count: 0,
            warm_count: 0,
            warm_bytes: 0,
            free_bytes: 0,
            best_missing_page: None,
            worst_warm_page: None,
            replacement_needed: 0,
            replacement_count: 0,
            stale_evict_count: 0,
            upload_count: 0,
            pending_uploads: 0,
            upload_page: None,
            upload_bytes: 0,
            upload_mode: None,
            evict_count: 0,
            idle_reason: None,
        }
    }
}

/// The numbers of no plan at all.
pub open spec fn empty_summary() -> GpuWarmupPlanSnapshot {
    GpuWarmupPlanSnapshot {
        visible_end: None,
        l2_ready_count: 0,
        future_candidate_count: 0,
        warm_count: 0,
        warm_bytes: 0,
        free_bytes: 0,
        best_missing_page: None,
        worst_warm_page: None,
        replacement_needed: 0,
        replacement_count: 0,
        stale_evict_count: 0,
        upload_count: 0,
        pending_uploads: 0,
        upload_page: None,
        upload_bytes: 0,
        upload_mode: None,
        evict_count: 0,
        idle_reason: None,
    }
}

pub struct GpuWarmupPlan {
    pub summary: GpuWarmupPlanSnapshot,
    pub stale_evict_candidates: Vec<GpuWarmupEvictCandidate>,
    pub replacement_evict_candidates: Vec<GpuWarmupEvictCandidate>,
    pub upload_candidate: Option<GpuWarmupUploadCandidate>,
}

impl GpuWarmupPlan {
    pub fn summary(&self) -> (summary: GpuWarmupPlanSnapshot)
        ensures
            summary == self.summary,
    {
        self.summary
    }
}

/// Nearest page first; then by page, size and bytes.
impl Sortable for GpuWarmupCandidateSnapshot {
    open spec fn precedes(&self, other: &Self) -> bool {
        let a = self.key.render_signature;
        let b = other.key.render_signature;
        if self.distance != other.distance {
            self.distance < other.distance
        } else if self.page != other.page {
            self.page < other.page
        } else if a.target_w != b.target_w {
            a.target_w < b.target_w
        } else if a.target_h != b.target_h {
            a.target_h < b.target_h
        } else {
            self.bytes < other.bytes
        }
    }

    fn is_before(&self, other: &Self) -> bool {
        let a: RenderSignature = self.key.render_signature;
        let b: RenderSignature = other.key.render_signature;
        if self.distance != other.distance {
            self.distance < other.distance
        } else if self.page != other.page {
            self.page < other.page
        } else if a.target_w != b.target_w {
            a.target_w < b.target_w
        } else if a.target_h != b.target_h {
            a.target_h < b.target_h
        } else {
            self.bytes < other.bytes
        }
    }
}

/// The order in which warm textures give way: furthest page first, then the largest.
impl Sortable for GpuTextureEntrySnapshot {
    open spec fn precedes(&self, other: &Self) -> bool {
        let a = self.key.render_signature;
        let b = other.key.render_signature;
        if self.page != other.page {
            self.page > other.page
        } else if self.bytes != other.bytes {
            self.bytes > other.bytes
        } else if a.target_w != b.target_w {
            a.target_w > b.target_w
        } else {
            a.target_h > b.target_h
        }
    }

    fn is_before(&self, other: &Self) -> bool {
        let a: RenderSignature = self.key.render_signature;
        let b: RenderSignature = other.key.render_signature;
        if self.page != other.page {
            self.page > other.page
        } else if self.bytes != other.bytes {
            self.bytes > other.bytes
        } else if a.target_w != b.target_w {
            a.target_w > b.target_w
        } else {
            a.target_h > b.target_h
        }
    }
}

pub open spec fn ready_rank(
    entry: RgbaReadyEntrySnapshot,
    page: u32,
    requirement: DisplayRequirement,
) -> Option<SignatureRank> {
    signature_rank(entry.page, entry.signature, page, requirement, entry.bytes)
}

/// The first ready entry that suits the page and is beaten by no other.
pub open spec fn is_best_ready(
    entries: Seq<RgbaReadyEntrySnapshot>,
    page: u32,
    requirement: DisplayRequirement,
    i: int,
) -> bool {
    &&& 0 <= i < entries.len()
    &&& ready_rank(entries[i], page, requirement) is Some
    &&& forall|j: int|
        0 <= j < entries.len() && #[trigger] ready_rank(entries[j], page, requirement) is Some ==> {
            &&& !rank_before(
                ready_rank(entries[j], page, requirement)->0,
                ready_rank(entries[i], page, requirement)->0,
            )
            &&& j < i ==> rank_before(
                ready_rank(entries[i], page, requirement)->0,
                ready_rank(entries[j], page, requirement)->0,
            )
        }
}

pub open spec fn any_ready(
    entries: Seq<RgbaReadyEntrySnapshot>,
    page: u32,
    requirement: DisplayRequirement,
) -> bool {
    exists|j: int|
        0 <= j < entries.len() && #[trigger] ready_rank(entries[j], page, requirement) is Some
}

pub fn best_ready_candidate(
    page: u32,
    requirement: DisplayRequirement,
    ready_entries: &[RgbaReadyEntrySnapshot],
) -> (best: Option<RgbaReadyEntrySnapshot>)
    ensures
        best is Some <==> any_ready(ready_entries@, page, requirement),
        best matches Some(best) ==> exists|i: int| #[trigger]
            is_best_ready(ready_entries@, page, requirement, i) && best == ready_entries@[i],
{
    let mut best: Option<(SignatureRank, usize)> = None;
    let mut i: usize = 0;
    while i < ready_entries.len()
        invariant
            i <= ready_entries@.len(),
            best is None ==> forall|j: int|
                0 <= j < i ==> #[trigger] ready_rank(ready_entries@[j], page, requirement) is None,
            best matches Some((rank, k)) ==> k < i && ready_rank(
                ready_entries@[k as int],
                page,
                requirement,
            ) == Some(rank) && forall|j: int|
                0 <= j < i && #[trigger] ready_rank(ready_entries@[j], page, requirement) is Some
                    ==> !rank_before(ready_rank(ready_entries@[j], page, requirement)->0, rank) && (
                j < k ==> rank_before(
                    rank,
                    ready_rank(ready_entries@[j], page, requirement)->0,
                )),
        decreases ready_entries@.len() - i,
    {
        let candidate: RgbaReadyEntrySnapshot = ready_entries[i];
        match page_render_signature_rank(
            candidate.page,
            candidate.signature,
            page,
            requirement,
            candidate.bytes,
        ) {
            Some(rank) => {
                let better: bool = match best {
                    Some((previous, _)) => rank_is_before(rank, previous),
                    None => true,
                };
                if better {
                    best = Some((rank, i));
                }
            },
            None => {},
        }
        i = i + 1;
    }
    match best {
        Some((_, k)) => {
            assert(is_best_ready(ready_entries@, page, requirement, k as int));
            Some(ready_entries[k])
        },
        None => None,
    }
}

/// The upload that a ready entry would give for a page.
pub open spec fn candidate_from(
    ready: RgbaReadyEntrySnapshot,
    page: u32,
    distance: u32,
    requirement: DisplayRequirement,
) -> GpuWarmupCandidateSnapshot {
    GpuWarmupCandidateSnapshot {
        rgba_key: ready.key,
        key: PageRenderSignatureKey { page, render_signature: ready.signature },
        page,
        bytes: ready.bytes,
        distance,
        requirement,
    }
}

/// The candidate for an upcoming page: its best ready decode, or none while nothing suitable is
/// decoded.
pub fn resolve_future_candidate(
    page: u32,
    distance: u32,
    requirement: DisplayRequirement,
    ready_entries: &[RgbaReadyEntrySnapshot],
) -> (candidate: Option<GpuWarmupCandidateSnapshot>)
    ensures
        candidate is Some <==> any_ready(ready_entries@, page, requirement),
        candidate matches Some(candidate) ==> exists|i: int| #[trigger]
            is_best_ready(ready_entries@, page, requirement, i) && candidate == candidate_from(
                ready_entries@[i],
                page,
                distance,
                requirement,
            ),
{
    match best_ready_candidate(page, requirement, ready_entries) {
        Some(ready) => Some(
            GpuWarmupCandidateSnapshot {
                rgba_key: ready.key,
                key: PageRenderSignatureKey { page, render_signature: ready.signature },
                page,
                bytes: ready.bytes,
                distance,
                requirement,
            },
        ),
        None => None,
    }
}

/// Whether a texture can stand for the page under the requirement.
pub open spec fn satisfies(
    entry: GpuTextureEntrySnapshot,
    page: u32,
    requirement: DisplayRequirement,
) -> bool {
    entry.page == page && entry.key.render_signature.suits(requirement)
}

pub fn entry_satisfies_requirement(
    entry: &GpuTextureEntrySnapshot,
    page: u32,
    requirement: DisplayRequirement,
) -> (satisfied: bool)
    ensures
        satisfied == satisfies(*entry, page, requirement),
{
    page_render_signature_rank(
        entry.page,
        entry.key.render_signature,
        page,
        requirement,
        entry.bytes,
    ).is_some()
}

pub open spec fn any_satisfies(
    entries: Seq<GpuTextureEntrySnapshot>,
    candidate: GpuWarmupCandidateSnapshot,
) -> bool {
    exists|i: int|
        0 <= i < entries.len() && satisfies(
            #[trigger] entries[i],
            candidate.page,
            candidate.requirement,
        )
}

/// Whether a texture for the candidate's page is already there, warm or shown before.
pub open spec fn is_satisfied(
    candidate: GpuWarmupCandidateSnapshot,
    warm: Seq<GpuTextureEntrySnapshot>,
    history: Seq<GpuTextureEntrySnapshot>,
) -> bool {
    any_satisfies(warm, candidate) || any_satisfies(history, candidate)
}

fn any_entry_satisfies(
    entries: &[GpuTextureEntrySnapshot],
    candidate: &GpuWarmupCandidateSnapshot,
) -> (satisfied: bool)
    ensures
        satisfied == any_satisfies(entries@, *candidate),
{
    let mut i: usize = 0;
    while i < entries.len()
        invariant
            i <= entries@.len(),
            forall|k: int|
                0 <= k < i ==> !satisfies(
                    #[trigger] entries@[k],
                    candidate.page,
                    candidate.requirement,
                ),
        decreases entries@.len() - i,
    {
        if entry_satisfies_requirement(&entries[i], candidate.page, candidate.requirement) {
            assert(satisfies(entries@[i as int], candidate.page, candidate.requirement));
            return true;
        }
        i = i + 1;
    }
    false
}

pub fn candidate_is_satisfied(
    candidate: &GpuWarmupCandidateSnapshot,
    warm_entries: &[GpuTextureEntrySnapshot],
    history_entries: &[GpuTextureEntrySnapshot],
) -> (satisfied: bool)
    ensures
        satisfied == is_satisfied(*candidate, warm_entries@, history_entries@),
{
    any_entry_satisfies(warm_entries, candidate) || any_entry_satisfies(history_entries, candidate)
}

/// Why a warm texture is no longer of use, if it is not.
pub open spec fn stale_reason(
    entry: GpuTextureEntrySnapshot,
    visible_end: u32,
    desired: Map<u32, DisplayRequirement>,
) -> Option<&'static str> {
    if entry.page <= visible_end {
        Some("past")
    } else if !desired.dom().contains(entry.page) {
        Some("outside_desired_future")
    } else if !entry.key.render_signature.suits(desired[entry.page]) {
        Some("requirement_mismatch")
    } else {
        None
    }
}

pub open spec fn evict_candidate(entry: GpuTextureEntrySnapshot, reason: &'static str) ->
    GpuWarmupEvictCandidate {
    GpuWarmupEvictCandidate { key: entry.key, page: entry.page, bytes: entry.bytes, reason }
}

/// The warm textures that are of no more use, with the reason, in their order.
pub open spec fn stale_entries(
    entries: Seq<GpuTextureEntrySnapshot>,
    visible_end: u32,
    desired: Map<u32, DisplayRequirement>,
) -> Seq<GpuWarmupEvictCandidate>
    decreases entries.len(),
{
    if entries.len() == 0 {
        Seq::empty()
    } else {
        let before = stale_entries(entries.drop_last(), visible_end, desired);
        match stale_reason(entries.last(), visible_end, desired) {
            Some(reason) => before.push(evict_candidate(entries.last(), reason)),
            None => before,
        }
    }
}

/// The warm textures that stay, in their order.
pub open spec fn retained_entries(
    entries: Seq<GpuTextureEntrySnapshot>,
    visible_end: u32,
    desired: Map<u32, DisplayRequirement>,
) -> Seq<GpuTextureEntrySnapshot>
    decreases entries.len(),
{
    if entries.len() == 0 {
        Seq::empty()
    } else {
        let before = retained_entries(entries.drop_last(), visible_end, desired);
        match stale_reason(entries.last(), visible_end, desired) {
            Some(_) => before,
            None => before.push(entries.last()),
        }
    }
}

pub open spec fn snapshot_total(entries: Seq<GpuTextureEntrySnapshot>) -> nat
    decreases entries.len(),
{
    if entries.len() == 0 {
        0
    } else {
        snapshot_total(entries.drop_last()) + entries.last().bytes as nat
    }
}

pub open spec fn furthest_page(entries: Seq<GpuTextureEntrySnapshot>) -> Option<u32>
    decreases entries.len(),
{
    if entries.len() == 0 {
        None
    } else {
        match furthest_page(entries.drop_last()) {
            Some(page) => Some(greatest(page as int, entries.last().page as int) as u32),
            None => Some(entries.last().page),
        }
    }
}

/// A candidate that is not there yet and fits the cache.
pub open spec fn is_missing(
    candidate: GpuWarmupCandidateSnapshot,
    capacity: nat,
    warm: Seq<GpuTextureEntrySnapshot>,
    history: Seq<GpuTextureEntrySnapshot>,
) -> bool {
    !is_satisfied(candidate, warm, history) && candidate.bytes <= capacity
}

/// The position of the first missing candidate, or the number of candidates.
pub open spec fn first_missing(
    candidates: Seq<GpuWarmupCandidateSnapshot>,
    capacity: nat,
    warm: Seq<GpuTextureEntrySnapshot>,
    history: Seq<GpuTextureEntrySnapshot>,
) -> int
    decreases candidates.len(),
{
    if candidates.len() == 0 || is_missing(candidates[0], capacity, warm, history) {
        0
    } else {
        1 + first_missing(candidates.drop_first(), capacity, warm, history)
    }
}

/// Whether a candidate among the first `count` is not there yet and is too large for the cache.
pub open spec fn oversized_among(
    candidates: Seq<GpuWarmupCandidateSnapshot>,
    count: int,
    capacity: nat,
    warm: Seq<GpuTextureEntrySnapshot>,
    history: Seq<GpuTextureEntrySnapshot>,
) -> bool {
    exists|k: int|
        0 <= k < count && k < candidates.len() && !is_satisfied(
            #[trigger] candidates[k],
            warm,
            history,
        ) && candidates[k].bytes > capacity
}

/// A warm texture that may give way to the candidate: of a later page, or of the same page
/// without satisfying its requirement.
pub open spec fn may_give_way(
    entry: GpuTextureEntrySnapshot,
    candidate: GpuWarmupCandidateSnapshot,
) -> bool {
    entry.page > candidate.page || (entry.page == candidate.page && !satisfies(
        entry,
        candidate.page,
        candidate.requirement,
    ))
}

pub open spec fn giving_way(
    entries: Seq<GpuTextureEntrySnapshot>,
    candidate: GpuWarmupCandidateSnapshot,
) -> Seq<GpuTextureEntrySnapshot>
    decreases entries.len(),
{
    if entries.len() == 0 {
        entries
    } else {
        let before = giving_way(entries.drop_last(), candidate);
        if may_give_way(entries.last(), candidate) {
            before.push(entries.last())
        } else {
            before
        }
    }
}

/// How many of the entries, from the front, are needed to free `needed` bytes.
pub open spec fn needed_count(entries: Seq<GpuTextureEntrySnapshot>, needed: nat, freed: nat) -> nat
    decreases entries.len(),
{
    if freed >= needed || entries.len() == 0 {
        0
    } else {
        1 + needed_count(entries.drop_first(), needed, capped(freed + entries[0].bytes as nat))
    }
}

/// The uploads that wait behind a page: the candidates that are not there yet, from the first
/// one of a later page on.
pub open spec fn waiting_after(
    candidates: Seq<GpuWarmupCandidateSnapshot>,
    page: u32,
    warm: Seq<GpuTextureEntrySnapshot>,
    history: Seq<GpuTextureEntrySnapshot>,
) -> nat
    decreases candidates.len(),
{
    if candidates.len() == 0 {
        0
    } else if candidates[0].page <= page {
        waiting_after(candidates.drop_first(), page, warm, history)
    } else {
        unsatisfied_count(candidates, warm, history)
    }
}

pub open spec fn unsatisfied_count(
    candidates: Seq<GpuWarmupCandidateSnapshot>,
    warm: Seq<GpuTextureEntrySnapshot>,
    history: Seq<GpuTextureEntrySnapshot>,
) -> nat
    decreases candidates.len(),
{
    if candidates.len() == 0 {
        0
    } else {
        unsatisfied_count(candidates.drop_first(), warm, history) + if is_satisfied(
            candidates[0],
            warm,
            history,
        ) {
            0nat
        } else {
            1nat
        }
    }
}

/// What to do for the nearest missing page.
pub enum UploadDecision {
    /// Every candidate is there or too large.
    NothingMissing,
    /// There is room for it.
    FreeSpace { candidate: GpuWarmupCandidateSnapshot },
    /// It takes the place of these textures.
    Replace {
        candidate: GpuWarmupCandidateSnapshot,
        needed: nat,
        victims: Seq<GpuTextureEntrySnapshot>,
    },
    /// The textures that may give way do not free enough.
    NoRoom { candidate: GpuWarmupCandidateSnapshot, needed: nat },
}

pub open spec fn upload_decision(
    ordered: Seq<GpuWarmupCandidateSnapshot>,
    capacity: nat,
    warm: Seq<GpuTextureEntrySnapshot>,
    history: Seq<GpuTextureEntrySnapshot>,
) -> UploadDecision {
    let first = first_missing(ordered, capacity, warm, history);
    let free = monus(capacity, capped(snapshot_total(warm)));
    if first >= ordered.len() {
        UploadDecision::NothingMissing
    } else {
        let candidate = ordered[first];
        if candidate.bytes <= free {
            UploadDecision::FreeSpace { candidate }
        } else {
            let needed = monus(candidate.bytes as nat, free);
            let replaceable = stable_sorted(giving_way(warm, candidate));
            if capped(snapshot_total(replaceable)) < needed {
                UploadDecision::NoRoom { candidate, needed }
            } else {
                UploadDecision::Replace {
                    candidate,
                    needed,
                    victims: replaceable.take(needed_count(replaceable, needed, 0) as int),
                }
            }
        }
    }
}

pub open spec fn upload_of(candidate: GpuWarmupCandidateSnapshot) -> GpuWarmupUploadCandidate {
    GpuWarmupUploadCandidate {
        rgba_key: candidate.rgba_key,
        key: candidate.key,
        page: candidate.page,
        bytes: candidate.bytes,
        distance: candidate.distance,
        requirement: candidate.requirement,
    }
}

/// The page that is missing most, if any.
pub open spec fn missing_page(decision: UploadDecision) -> Option<u32> {
    match decision {
        UploadDecision::NothingMissing => None,
        UploadDecision::FreeSpace { candidate } => Some(candidate.page),
        UploadDecision::Replace { candidate, .. } => Some(candidate.page),
        UploadDecision::NoRoom { candidate, .. } => Some(candidate.page),
    }
}

pub open spec fn chosen_upload(decision: UploadDecision) -> Option<GpuWarmupUploadCandidate> {
    match decision {
        UploadDecision::FreeSpace { candidate } => Some(upload_of(candidate)),
        UploadDecision::Replace { candidate, .. } => Some(upload_of(candidate)),
        _ => None,
    }
}

pub open spec fn chosen_victims(decision: UploadDecision) -> Seq<GpuWarmupEvictCandidate> {
    match decision {
        UploadDecision::Replace { victims, .. } => victims.map_values(
            |entry: GpuTextureEntrySnapshot| evict_candidate(entry, "rank_replacement"),
        ),
        _ => Seq::empty(),
    }
}

pub open spec fn bytes_to_replace(decision: UploadDecision) -> nat {
    match decision {
        UploadDecision::Replace { needed, .. } => needed,
        UploadDecision::NoRoom { needed, .. } => needed,
        _ => 0,
    }
}

pub open spec fn upload_mode(decision: UploadDecision) -> Option<&'static str> {
    match decision {
        UploadDecision::FreeSpace { .. } => Some("free-space"),
        UploadDecision::Replace { .. } => Some("rank-replacement"),
        _ => None,
    }
}

/// The numbers of a plan.
pub open spec fn plan_summary(
    visible_end: u32,
    l2_ready_count: usize,
    capacity: nat,
    ordered: Seq<GpuWarmupCandidateSnapshot>,
    stale: Seq<GpuWarmupEvictCandidate>,
    warm: Seq<GpuTextureEntrySnapshot>,
    history: Seq<GpuTextureEntrySnapshot>,
) -> GpuWarmupPlanSnapshot {
    let decision = upload_decision(ordered, capacity, warm, history);
    let upload = chosen_upload(decision);
    let victims = chosen_victims(decision);
    let evict_count = stale.len() + victims.len();
    GpuWarmupPlanSnapshot {
        visible_end: Some(visible_end),
        l2_ready_count,
        future_candidate_count: ordered.len() as usize,
        warm_count: warm.len() as usize,
        warm_bytes: capped(snapshot_total(warm)) as usize,
        free_bytes: monus(capacity, capped(snapshot_total(warm))) as usize,
        best_missing_page: missing_page(decision),
        worst_warm_page: furthest_page(warm),
        replacement_needed: bytes_to_replace(decision) as usize,
        replacement_count: victims.len() as usize,
        stale_evict_count: stale.len() as usize,
        upload_count: if upload is Some {
            1
        } else {
            0
        },
        pending_uploads: match upload {
            Some(upload) => waiting_after(ordered, upload.page, warm, history) as usize,
            None => 0,
        },
        upload_page: match upload {
            Some(upload) => Some(upload.page),
            None => None,
        },
        upload_bytes: match upload {
            Some(upload) => upload.bytes,
            None => 0,
        },
        upload_mode: upload_mode(decision),
        evict_count: evict_count as usize,
        idle_reason: if upload is Some || evict_count > 0 {
            None
        } else if ordered.len() == 0 {
            Some("no-l2-ready")
        } else if decision is NothingMissing {
            if oversized_among(ordered, ordered.len() as int, capacity, warm, history) {
                Some("no-suitable-entry")
            } else {
                Some("already-cached")
            }
        } else {
            Some("no-rank-improvement")
        },
    }
}

/// Splits the warm textures into those that are of no more use and those that stay.
fn split_warm_entries(
    entries: &[GpuTextureEntrySnapshot],
    visible_end: u32,
    desired: &HashMap<u32, DisplayRequirement>,
) -> (split: (Vec<GpuWarmupEvictCandidate>, Vec<GpuTextureEntrySnapshot>))
    ensures
        split.0@ == stale_entries(entries@, visible_end, desired@),
        split.1@ == retained_entries(entries@, visible_end, desired@),
        split.0@.len() + split.1@.len() == entries@.len(),
{
    broadcast use vstd::std_specs::hash::group_hash_axioms;

    let mut stale: Vec<GpuWarmupEvictCandidate> = Vec::new();
    let mut retained: Vec<GpuTextureEntrySnapshot> = Vec::new();
    let mut i: usize = 0;
    assert(entries@.take(0) =~= Seq::empty());
    while i < entries.len()
        invariant
            i <= entries@.len(),
            stale@ == stale_entries(entries@.take(i as int), visible_end, desired@),
            retained@ == retained_entries(entries@.take(i as int), visible_end, desired@),
            stale@.len() + retained@.len() == i,
        decreases entries@.len() - i,
    {
        let entry: GpuTextureEntrySnapshot = entries[i];
        assert(entries@.take(i + 1).drop_last() =~= entries@.take(i as int));
        assert(entries@.take(i + 1).last() == entry);
        if entry.page <= visible_end {
            stale.push(
                GpuWarmupEvictCandidate {
                    key: entry.key,
                    page: entry.page,
                    bytes: entry.bytes,
                    reason: "past",
                },
            );
        } else {
            match desired.get(&entry.page) {
                None => {
                    stale.push(
                        GpuWarmupEvictCandidate {
                            key: entry.key,
                            page: entry.page,
                            bytes: entry.bytes,
                            reason: "outside_desired_future",
                        },
                    );
                },
                Some(requirement) => {
                    if entry_satisfies_requirement(&entry, entry.page, *requirement) {
                        retained.push(entry);
                    } else {
                        stale.push(
                            GpuWarmupEvictCandidate {
                                key: entry.key,
                                page: entry.page,
                                bytes: entry.bytes,
                                reason: "requirement_mismatch",
                            },
                        );
                    }
                },
            }
        }
        i = i + 1;
    }
    assert(entries@.take(i as int) =~= entries@);
    (stale, retained)
}

fn snapshot_bytes(entries: &Vec<GpuTextureEntrySnapshot>) -> (bytes: usize)
    ensures
        bytes == capped(snapshot_total(entries@)),
{
    let mut bytes: usize = 0;
    let mut i: usize = 0;
    assert(entries@.take(0) =~= Seq::empty());
    while i < entries.len()
        invariant
            i <= entries@.len(),
            bytes == capped(snapshot_total(entries@.take(i as int))),
        decreases entries@.len() - i,
    {
        assert(entries@.take(i + 1).drop_last() =~= entries@.take(i as int));
        bytes = bytes.saturating_add(entries[i].bytes);
        i = i + 1;
    }
    assert(entries@.take(i as int) =~= entries@);
    bytes
}

fn last_warm_page(entries: &Vec<GpuTextureEntrySnapshot>) -> (page: Option<u32>)
    ensures
        page == furthest_page(entries@),
{
    let mut page: Option<u32> = None;
    let mut i: usize = 0;
    assert(entries@.take(0) =~= Seq::empty());
    while i < entries.len()
        invariant
            i <= entries@.len(),
            page == furthest_page(entries@.take(i as int)),
        decreases entries@.len() - i,
    {
        assert(entries@.take(i + 1).drop_last() =~= entries@.take(i as int));
        page = match page {
            Some(page) => Some(max_u32(page, entries[i].page)),
            None => Some(entries[i].page),
        };
        i = i + 1;
    }
    assert(entries@.take(i as int) =~= entries@);
    page
}

/// The first missing candidate, and whether a candidate before it is too large for the cache.
fn find_missing(
    ordered: &Vec<GpuWarmupCandidateSnapshot>,
    capacity: usize,
    warm: &Vec<GpuTextureEntrySnapshot>,
    history: &[GpuTextureEntrySnapshot],
) -> (found: (Option<usize>, bool))
    ensures
        ({
            let first = first_missing(ordered@, capacity as nat, warm@, history@);
            &&& found.0 is Some <==> first < ordered@.len()
            &&& found.0 matches Some(i) ==> i == first
            &&& found.0 is None ==> found.1 == oversized_among(
                ordered@,
                ordered@.len() as int,
                capacity as nat,
                warm@,
                history@,
            )
        }),
{
    let mut oversized: bool = false;
    let mut i: usize = 0;
    assert(ordered@.skip(0) =~= ordered@);
    while i < ordered.len()
        invariant
            i <= ordered@.len(),
            first_missing(ordered@, capacity as nat, warm@, history@) == i + first_missing(
                ordered@.skip(i as int),
                capacity as nat,
                warm@,
                history@,
            ),
            oversized == oversized_among(ordered@, i as int, capacity as nat, warm@, history@),
        decreases ordered@.len() - i,
    {
        let candidate: GpuWarmupCandidateSnapshot = ordered[i];
        assert(ordered@.skip(i as int)[0] == candidate);
        assert(ordered@.skip(i as int).drop_first() =~= ordered@.skip(i + 1));
        let ghost oversized_before = oversized;
        if candidate_is_satisfied(&candidate, warm.as_slice(), history) {
        } else if candidate.bytes > capacity {
            oversized = true;
            assert(!is_satisfied(ordered@[i as int], warm@, history@));
        } else {
            return (Some(i), oversized);
        }
        assert(oversized == oversized_among(
            ordered@,
            i + 1,
            capacity as nat,
            warm@,
            history@,
        )) by {
            if oversized_before {
                let k = choose|k: int|
                    0 <= k < i && k < ordered@.len() && !is_satisfied(
                        #[trigger] ordered@[k],
                        warm@,
                        history@,
                    ) && ordered@[k].bytes > capacity;
                assert(!is_satisfied(ordered@[k], warm@, history@));
            }
        }
        i = i + 1;
    }
    (None, oversized)
}

/// The warm textures that may give way to the candidate, in the order in which they would.
fn replaceable_entries(
    warm: &Vec<GpuTextureEntrySnapshot>,
    candidate: &GpuWarmupCandidateSnapshot,
) -> (entries: Vec<GpuTextureEntrySnapshot>)
    ensures
        entries@ == stable_sorted(giving_way(warm@, *candidate)),
        entries@.len() <= warm@.len(),
{
    let mut entries: Vec<GpuTextureEntrySnapshot> = Vec::new();
    let mut i: usize = 0;
    assert(warm@.take(0) =~= Seq::empty());
    while i < warm.len()
        invariant
            i <= warm@.len(),
            entries@ == giving_way(warm@.take(i as int), *candidate),
            entries@.len() <= i,
        decreases warm@.len() - i,
    {
        let entry: GpuTextureEntrySnapshot = warm[i];
        assert(warm@.take(i + 1).drop_last() =~= warm@.take(i as int));
        assert(warm@.take(i + 1).last() == entry);
        if entry.page > candidate.page || (entry.page == candidate.page
            && !entry_satisfies_requirement(&entry, candidate.page, candidate.requirement)) {
            entries.push(entry);
        }
        i = i + 1;
    }
    assert(warm@.take(i as int) =~= warm@);
    proof {
        crate::sorting::law_sorting_keeps_the_elements(entries@);
    }
    stable_sort(entries)
}

/// The first of the entries, as many as free the needed bytes.
fn take_victims(replaceable: &Vec<GpuTextureEntrySnapshot>, needed: usize) -> (victims: Vec<
    GpuWarmupEvictCandidate,
>)
    ensures
        victims@ == replaceable@.take(
            needed_count(replaceable@, needed as nat, 0) as int,
        ).map_values(
            |entry: GpuTextureEntrySnapshot| evict_candidate(entry, "rank_replacement"),
        ),
        victims@.len() <= replaceable@.len(),
{
    let mut victims: Vec<GpuWarmupEvictCandidate> = Vec::new();
    let mut freed: usize = 0;
    let mut i: usize = 0;
    let ghost all = replaceable@.map_values(
        |entry: GpuTextureEntrySnapshot| evict_candidate(entry, "rank_replacement"),
    );
    assert(replaceable@.skip(0) =~= replaceable@);
    while i < replaceable.len() && freed < needed
        invariant
            i <= replaceable@.len(),
            all == replaceable@.map_values(
                |entry: GpuTextureEntrySnapshot| evict_candidate(entry, "rank_replacement"),
            ),
            victims@ == all.take(i as int),
            needed_count(replaceable@, needed as nat, 0) == i + needed_count(
                replaceable@.skip(i as int),
                needed as nat,
                freed as nat,
            ),
        decreases replaceable@.len() - i,
    {
        let entry: GpuTextureEntrySnapshot = replaceable[i];
        assert(replaceable@.skip(i as int)[0] == entry);
        assert(replaceable@.skip(i as int).drop_first() =~= replaceable@.skip(i + 1));
        freed = freed.saturating_add(entry.bytes);
        victims.push(
            GpuWarmupEvictCandidate {
                key: entry.key,
                page: entry.page,
                bytes: entry.bytes,
                reason: "rank_replacement",
            },
        );
        i = i + 1;
        assert(victims@ =~= all.take(i as int));
    }
    assert(all.take(i as int) =~= replaceable@.take(i as int).map_values(
        |entry: GpuTextureEntrySnapshot| evict_candidate(entry, "rank_replacement"),
    ));
    victims
}

fn count_unsatisfied(
    ordered: &Vec<GpuWarmupCandidateSnapshot>,
    from: usize,
    warm: &Vec<GpuTextureEntrySnapshot>,
    history: &[GpuTextureEntrySnapshot],
) -> (count: usize)
    requires
        from <= ordered@.len(),
    ensures
        count == unsatisfied_count(ordered@.skip(from as int), warm@, history@),
{
    let mut count: usize = 0;
    let mut i: usize = from;
    while i < ordered.len()
        invariant
            from <= i <= ordered@.len(),
            count <= i - from,
            count + unsatisfied_count(ordered@.skip(i as int), warm@, history@)
                == unsatisfied_count(ordered@.skip(from as int), warm@, history@),
        decreases ordered@.len() - i,
    {
        assert(ordered@.skip(i as int).drop_first() =~= ordered@.skip(i + 1));
        if !candidate_is_satisfied(&ordered[i], warm.as_slice(), history) {
            count = count + 1;
        }
        i = i + 1;
    }
    assert(ordered@.skip(i as int) =~= Seq::empty());
    count
}

fn count_waiting(
    ordered: &Vec<GpuWarmupCandidateSnapshot>,
    page: u32,
    warm: &Vec<GpuTextureEntrySnapshot>,
    history: &[GpuTextureEntrySnapshot],
) -> (count: usize)
    ensures
        count == waiting_after(ordered@, page, warm@, history@),
{
    let mut i: usize = 0;
    assert(ordered@.skip(0) =~= ordered@);
    while i < ordered.len() && ordered[i].page <= page
        invariant
            i <= ordered@.len(),
            waiting_after(ordered@, page, warm@, history@) == waiting_after(
                ordered@.skip(i as int),
                page,
                warm@,
                history@,
            ),
        decreases ordered@.len() - i,
    {
        assert(ordered@.skip(i as int).drop_first() =~= ordered@.skip(i + 1));
        i = i + 1;
    }
    count_unsatisfied(ordered, i, warm, history)
}

fn upload_from(candidate: &GpuWarmupCandidateSnapshot) -> (upload: GpuWarmupUploadCandidate)
    ensures
        upload == upload_of(*candidate),
{
    GpuWarmupUploadCandidate {
        rgba_key: candidate.rgba_key,
        key: candidate.key,
        page: candidate.page,
        bytes: candidate.bytes,
        distance: candidate.distance,
        requirement: candidate.requirement,
    }
}

/// Plans one step of warming: which textures are of no more use, which candidate to upload, and
/// which textures give way to it.
pub fn plan_gpu_warmup(
    visible_end: u32,
    l2_ready_count: usize,
    warm_capacity_bytes: usize,
    candidates: &[GpuWarmupCandidateSnapshot],
    current_warm_entries: &[GpuTextureEntrySnapshot],
    history_entries: &[GpuTextureEntrySnapshot],
    desired_future_requirements: &HashMap<u32, DisplayRequirement>,
) -> (plan: GpuWarmupPlan)
    ensures
        ({
            let ordered = stable_sorted(candidates@);
            let capacity = warm_capacity_bytes as nat;
            let stale = stale_entries(
                current_warm_entries@,
                visible_end,
                desired_future_requirements@,
            );
            let warm = retained_entries(
                current_warm_entries@,
                visible_end,
                desired_future_requirements@,
            );
            let decision = upload_decision(ordered, capacity, warm, history_entries@);
            &&& plan.stale_evict_candidates@ == stale
            &&& plan.replacement_evict_candidates@ == chosen_victims(decision)
            &&& plan.upload_candidate == chosen_upload(decision)
            &&& plan.summary == plan_summary(
                visible_end,
                l2_ready_count,
                capacity,
                ordered,
                stale,
                warm,
                history_entries@,
            )
        }),
{
    let mut copied: Vec<GpuWarmupCandidateSnapshot> = Vec::new();
    let mut i: usize = 0;
    while i < candidates.len()
        invariant
            i <= candidates@.len(),
            copied@ == candidates@.take(i as int),
        decreases candidates@.len() - i,
    {
        copied.push(candidates[i]);
        i = i + 1;
        assert(copied@ =~= candidates@.take(i as int));
    }
    assert(candidates@.take(i as int) =~= candidates@);
    let ordered: Vec<GpuWarmupCandidateSnapshot> = stable_sort(copied);
    let (stale, retained): (Vec<GpuWarmupEvictCandidate>, Vec<GpuTextureEntrySnapshot>) =
        split_warm_entries(current_warm_entries, visible_end, desired_future_requirements);
    let retained_warm_bytes: usize = snapshot_bytes(&retained);
    let free_bytes: usize = warm_capacity_bytes.saturating_sub(retained_warm_bytes);
    let worst_warm_page: Option<u32> = last_warm_page(&retained);

    let mut upload_candidate: Option<GpuWarmupUploadCandidate> = None;
    let mut victims: Vec<GpuWarmupEvictCandidate> = Vec::new();
    let mut best_missing_page: Option<u32> = None;
    let mut replacement_needed: usize = 0;
    let mut upload_mode: Option<&'static str> = None;

    let ghost decision = upload_decision(
        ordered@,
        warm_capacity_bytes as nat,
        retained@,
        history_entries@,
    );
    let (missing, had_oversized_candidate): (Option<usize>, bool) = find_missing(
        &ordered,
        warm_capacity_bytes,
        &retained,
        history_entries,
    );
    match missing {
        Some(index) => {
            let candidate: GpuWarmupCandidateSnapshot = ordered[index];
            best_missing_page = Some(candidate.page);
            if candidate.bytes <= free_bytes {
                upload_mode = Some("free-space");
                upload_candidate = Some(upload_from(&candidate));
                assert(chosen_victims(decision) =~= victims@);
            } else {
                let needed: usize = candidate.bytes - free_bytes;
                replacement_needed = needed;
                let replaceable: Vec<GpuTextureEntrySnapshot> = replaceable_entries(
                    &retained,
                    &candidate,
                );
                if snapshot_bytes(&replaceable) >= needed {
                    victims = take_victims(&replaceable, needed);
                    upload_mode = Some("rank-replacement");
                    upload_candidate = Some(upload_from(&candidate));
                }
            }
        },
        None => {},
    }
    assert(victims@ =~= chosen_victims(decision));
    let upload_count: usize = if upload_candidate.is_some() {
        1
    } else {
        0
    };
    let pending_uploads: usize = match upload_candidate {
        Some(upload) => count_waiting(&ordered, upload.page, &retained, history_entries),
        None => 0,
    };
    let warm_count: usize = current_warm_entries.len();
    assert(stale@.len() + victims@.len() <= warm_count);
    let evict_count: usize = stale.len() + victims.len();
    let idle_reason: Option<&'static str> = if upload_count == 0 && evict_count == 0 {
        if ordered.len() == 0 {
            Some("no-l2-ready")
        } else if had_oversized_candidate && best_missing_page.is_none() {
            Some("no-suitable-entry")
        } else if best_missing_page.is_some() {
            Some("no-rank-improvement")
        } else {
            Some("already-cached")
        }
    } else {
        None
    };
    let summary = GpuWarmupPlanSnapshot {
        visible_end: Some(visible_end),
        l2_ready_count,
        future_candidate_count: ordered.len(),
        warm_count: retained.len(),
        warm_bytes: retained_warm_bytes,
        free_bytes,
        best_missing_page,
        worst_warm_page,
        replacement_needed,
        replacement_count: victims.len(),
        stale_evict_count: stale.len(),
        upload_count,
        pending_uploads,
        upload_page: match upload_candidate {
            Some(upload) => Some(upload.page),
            None => None,
        },
        upload_bytes: match upload_candidate {
            Some(upload) => upload.bytes,
            None => 0,
        },
        upload_mode,
        evict_count,
        idle_reason,
    };
    GpuWarmupPlan {
        summary,
        stale_evict_candidates: stale,
        replacement_evict_candidates: victims,
        upload_candidate,
    }
}

/// Each warm texture either stays or is listed as stale.
pub proof fn law_warm_textures_are_split(
    entries: Seq<GpuTextureEntrySnapshot>,
    visible_end: u32,
    desired: Map<u32, DisplayRequirement>,
)
    ensures
        stale_entries(entries, visible_end, desired).len() + retained_entries(
            entries,
            visible_end,
            desired,
        ).len() == entries.len(),
        forall|i: int|
            0 <= i < retained_entries(entries, visible_end, desired).len() ==> stale_reason(
                #[trigger] retained_entries(entries, visible_end, desired)[i],
                visible_end,
                desired,
            ) is None,
    decreases entries.len(),
{
    if entries.len() > 0 {
        law_warm_textures_are_split(entries.drop_last(), visible_end, desired);
    }
}

/// A texture of a page that is still wanted under a requirement it suits stays, whatever is
/// decoded at the moment.
pub proof fn law_wanted_textures_stay(
    entries: Seq<GpuTextureEntrySnapshot>,
    visible_end: u32,
    desired: Map<u32, DisplayRequirement>,
    i: int,
)
    requires
        0 <= i < entries.len(),
        entries[i].page > visible_end,
        desired.dom().contains(entries[i].page),
        entries[i].key.render_signature.suits(desired[entries[i].page]),
    ensures
        retained_entries(entries, visible_end, desired).contains(entries[i]),
    decreases entries.len(),
{
    let kept = retained_entries(entries, visible_end, desired);
    let before = retained_entries(entries.drop_last(), visible_end, desired);
    if i == entries.len() - 1 {
        assert(kept.last() == entries[i]);
        assert(kept[kept.len() - 1] == entries[i]);
    } else {
        law_wanted_textures_stay(entries.drop_last(), visible_end, desired, i);
        let j = choose|j: int| 0 <= j < before.len() && before[j] == entries[i];
        assert(kept[j] == entries[i]);
    }
}

proof fn lemma_snapshot_total_first(entries: Seq<GpuTextureEntrySnapshot>)
    requires
        entries.len() > 0,
    ensures
        snapshot_total(entries) == entries[0].bytes as nat + snapshot_total(entries.drop_first()),
    decreases entries.len(),
{
    if entries.len() == 1 {
        assert(entries.drop_first() =~= Seq::empty());
        assert(entries.drop_last() =~= Seq::empty());
    } else {
        lemma_snapshot_total_first(entries.drop_last());
        assert(entries.drop_first().drop_last() =~= entries.drop_last().drop_first());
    }
}

/// The entries counted by [`needed_count`] free the needed bytes where all of them together do,
/// and without the last of them they would not.
pub proof fn lemma_needed_count(
    entries: Seq<GpuTextureEntrySnapshot>,
    needed: nat,
    freed: nat,
)
    requires
        needed <= usize::MAX,
        freed + snapshot_total(entries) >= needed,
    ensures
        needed_count(entries, needed, freed) <= entries.len(),
        freed + snapshot_total(entries.take(needed_count(entries, needed, freed) as int))
            >= needed,
        needed_count(entries, needed, freed) > 0 ==> freed + snapshot_total(
            entries.take(needed_count(entries, needed, freed) - 1),
        ) < needed,
    decreases entries.len(),
{
    let count = needed_count(entries, needed, freed);
    if freed >= needed || entries.len() == 0 {
        assert(entries.take(0) =~= Seq::empty());
    } else {
        let next = capped(freed + entries[0].bytes as nat);
        let rest = entries.drop_first();
        lemma_snapshot_total_first(entries);
        if next < needed {
            lemma_needed_count(rest, needed, next);
            let c = needed_count(rest, needed, next) as int;
            lemma_snapshot_total_first(entries.take(c + 1));
            assert(entries.take(c + 1).drop_first() =~= rest.take(c));
            if c > 0 {
                lemma_snapshot_total_first(entries.take(c));
                assert(entries.take(c).drop_first() =~= rest.take(c - 1));
            }
        } else {
            assert(needed_count(rest, needed, next) == 0);
            assert(entries.take(1).drop_first() =~= Seq::empty());
            lemma_snapshot_total_first(entries.take(1));
            assert(entries.take(0) =~= Seq::empty());
        }
    }
}

/// A planned upload fits: the room that is free, together with what gives way, holds it; and the
/// textures that give way are all of a later page, or of the same page and unsuitable.
pub proof fn law_planned_upload_fits(
    ordered: Seq<GpuWarmupCandidateSnapshot>,
    capacity: nat,
    warm: Seq<GpuTextureEntrySnapshot>,
    history: Seq<GpuTextureEntrySnapshot>,
)
    requires
        capacity <= usize::MAX,
    ensures
        ({
            let free = monus(capacity, capped(snapshot_total(warm)));
            match upload_decision(ordered, capacity, warm, history) {
                UploadDecision::FreeSpace { candidate } => candidate.bytes <= free,
                UploadDecision::Replace { candidate, needed, victims } => {
                    &&& candidate.bytes <= capacity
                    &&& free + snapshot_total(victims) >= candidate.bytes
                    &&& forall|i: int|
                        0 <= i < victims.len() ==> may_give_way(#[trigger] victims[i], candidate)
                },
                _ => true,
            }
        }),
{
    match upload_decision(ordered, capacity, warm, history) {
        UploadDecision::Replace { candidate, needed, victims } => {
            lemma_first_missing(ordered, capacity, warm, history);
            let found = giving_way(warm, candidate);
            let replaceable = stable_sorted(found);
            lemma_needed_count(replaceable, needed, 0);
            lemma_giving_way(warm, candidate);
            crate::sorting::law_sorting_keeps_the_elements(found);
            assert forall|i: int| 0 <= i < victims.len() implies may_give_way(
                #[trigger] victims[i],
                candidate,
            ) by {
                broadcast use vstd::seq_lib::group_to_multiset_ensures;

                assert(victims[i] == replaceable[i]);
                assert(replaceable.to_multiset().contains(replaceable[i]));
                assert(found.to_multiset().contains(replaceable[i]));
                assert(found.contains(replaceable[i]));
            }
        },
        _ => {},
    }
}

proof fn lemma_giving_way(
    entries: Seq<GpuTextureEntrySnapshot>,
    candidate: GpuWarmupCandidateSnapshot,
)
    ensures
        forall|i: int|
            0 <= i < giving_way(entries, candidate).len() ==> may_give_way(
                #[trigger] giving_way(entries, candidate)[i],
                candidate,
            ),
    decreases entries.len(),
{
    if entries.len() > 0 {
        let before = giving_way(entries.drop_last(), candidate);
        let now = giving_way(entries, candidate);
        lemma_giving_way(entries.drop_last(), candidate);
        assert forall|i: int| 0 <= i < now.len() implies may_give_way(
            #[trigger] now[i],
            candidate,
        ) by {
            if i < before.len() {
                assert(now[i] == before[i]);
            }
        }
    }
}

proof fn lemma_first_missing(
    candidates: Seq<GpuWarmupCandidateSnapshot>,
    capacity: nat,
    warm: Seq<GpuTextureEntrySnapshot>,
    history: Seq<GpuTextureEntrySnapshot>,
)
    ensures
        0 <= first_missing(candidates, capacity, warm, history) <= candidates.len(),
        first_missing(candidates, capacity, warm, history) < candidates.len() ==> is_missing(
            candidates[first_missing(candidates, capacity, warm, history)],
            capacity,
            warm,
            history,
        ),
    decreases candidates.len(),
{
    if candidates.len() > 0 && !is_missing(candidates[0], capacity, warm, history) {
        lemma_first_missing(candidates.drop_first(), capacity, warm, history);
    }
}

/// The plan does not depend on the order in which candidates are supplied, where no two of them
/// agree in distance, page, size and bytes.
pub proof fn law_plan_forgets_the_order_of_candidates(
    candidates: Seq<GpuWarmupCandidateSnapshot>,
    others: Seq<GpuWarmupCandidateSnapshot>,
    visible_end: u32,
    l2_ready_count: usize,
    capacity: nat,
    stale: Seq<GpuWarmupEvictCandidate>,
    warm: Seq<GpuTextureEntrySnapshot>,
    history: Seq<GpuTextureEntrySnapshot>,
)
    requires
        candidates.to_multiset() == others.to_multiset(),
        all_told_apart(candidates),
    ensures
        upload_decision(stable_sorted(candidates), capacity, warm, history) == upload_decision(
            stable_sorted(others),
            capacity,
            warm,
            history,
        ),
        plan_summary(
            visible_end,
            l2_ready_count,
            capacity,
            stable_sorted(candidates),
            stale,
            warm,
            history,
        ) == plan_summary(
            visible_end,
            l2_ready_count,
            capacity,
            stable_sorted(others),
            stale,
            warm,
            history,
        ),
{
    assert(is_weak_order::<GpuWarmupCandidateSnapshot>());
    law_sorting_forgets_the_order(candidates, others);
}

proof fn lemma_none_missing_before(
    candidates: Seq<GpuWarmupCandidateSnapshot>,
    capacity: nat,
    warm: Seq<GpuTextureEntrySnapshot>,
    history: Seq<GpuTextureEntrySnapshot>,
    i: int,
)
    requires
        0 <= i < first_missing(candidates, capacity, warm, history),
        i < candidates.len(),
    ensures
        !is_missing(candidates[i], capacity, warm, history),
    decreases candidates.len(),
{
    if i > 0 {
        lemma_none_missing_before(candidates.drop_first(), capacity, warm, history, i - 1);
    }
}

proof fn lemma_sorted_contains<T: Sortable>(items: Seq<T>, i: int) -> (at: int)
    requires
        0 <= i < items.len(),
    ensures
        0 <= at < stable_sorted(items).len(),
        stable_sorted(items)[at] == items[i],
{
    broadcast use vstd::seq_lib::group_to_multiset_ensures;

    crate::sorting::law_sorting_keeps_the_elements(items);
    let sorted = stable_sorted(items);
    assert(items.contains(items[i]));
    assert(sorted.to_multiset().contains(items[i]));
    assert(sorted.contains(items[i]));
    choose|at: int| 0 <= at < sorted.len() && sorted[at] == items[i]
}

proof fn lemma_from_unsorted<T: Sortable>(items: Seq<T>, at: int) -> (i: int)
    requires
        0 <= at < stable_sorted(items).len(),
    ensures
        0 <= i < items.len(),
        stable_sorted(items)[at] == items[i],
{
    broadcast use vstd::seq_lib::group_to_multiset_ensures;

    crate::sorting::law_sorting_keeps_the_elements(items);
    let sorted = stable_sorted(items);
    assert(sorted.contains(sorted[at]));
    assert(items.to_multiset().contains(sorted[at]));
    assert(items.contains(sorted[at]));
    choose|i: int| 0 <= i < items.len() && items[i] == sorted[at]
}

/// Whether a texture of the page that suits the requirement is among the entries.
pub open spec fn has_texture(
    entries: Seq<GpuTextureEntrySnapshot>,
    page: u32,
    requirement: DisplayRequirement,
) -> bool {
    exists|i: int|
        0 <= i < entries.len() && (#[trigger] entries[i]).page == page
            && entries[i].key.render_signature.suits(requirement)
}

/// What is uploaded is a page of which no texture is there yet and that fits the cache, and no
/// nearer page is left out but for one that has its texture or is too large. Nothing is missing
/// only where that holds of every page.
pub proof fn law_nearest_missing_page_is_uploaded(
    candidates: Seq<GpuWarmupCandidateSnapshot>,
    capacity: nat,
    warm: Seq<GpuTextureEntrySnapshot>,
    history: Seq<GpuTextureEntrySnapshot>,
    k: int,
)
    requires
        0 <= k < candidates.len(),
    ensures
        ({
            let decision = upload_decision(stable_sorted(candidates), capacity, warm, history);
            let other = candidates[k];
            let settled = has_texture(warm, other.page, other.requirement) || has_texture(
                history,
                other.page,
                other.requirement,
            ) || other.bytes > capacity;
            &&& chosen_upload(decision) matches Some(upload) ==> {
                &&& upload.bytes <= capacity
                &&& !has_texture(warm, upload.page, upload.requirement)
                &&& !has_texture(history, upload.page, upload.requirement)
                &&& other.distance < upload.distance ==> settled
                &&& exists|i: int|
                    0 <= i < candidates.len() && (#[trigger] candidates[i]).page == upload.page
                        && candidates[i].rgba_key == upload.rgba_key && candidates[i].key
                        == upload.key && candidates[i].bytes == upload.bytes
                        && candidates[i].distance == upload.distance
            }
            &&& decision is NothingMissing ==> settled
        }),
{
    let ordered = stable_sorted(candidates);
    let first = first_missing(ordered, capacity, warm, history);
    let decision = upload_decision(ordered, capacity, warm, history);
    let other = candidates[k];
    lemma_first_missing(ordered, capacity, warm, history);
    assert(is_weak_order::<GpuWarmupCandidateSnapshot>());
    crate::sorting::law_sorting_sorts(candidates);
    let at = lemma_sorted_contains(candidates, k);
    assert(!is_missing(other, capacity, warm, history) ==> has_texture(
        warm,
        other.page,
        other.requirement,
    ) || has_texture(history, other.page, other.requirement) || other.bytes > capacity) by {
        if any_satisfies(warm, other) {
            let i = choose|i: int|
                0 <= i < warm.len() && satisfies(
                    #[trigger] warm[i],
                    other.page,
                    other.requirement,
                );
            assert(warm[i].page == other.page);
        }
        if any_satisfies(history, other) {
            let i = choose|i: int|
                0 <= i < history.len() && satisfies(
                    #[trigger] history[i],
                    other.page,
                    other.requirement,
                );
            assert(history[i].page == other.page);
        }
    }
    if first < ordered.len() {
        let chosen = ordered[first];
        let i = lemma_from_unsorted(candidates, first);
        assert(candidates[i].page == chosen.page);
        if has_texture(warm, chosen.page, chosen.requirement) {
            let j = choose|j: int|
                0 <= j < warm.len() && (#[trigger] warm[j]).page == chosen.page
                    && warm[j].key.render_signature.suits(chosen.requirement);
            assert(satisfies(warm[j], chosen.page, chosen.requirement));
        }
        if has_texture(history, chosen.page, chosen.requirement) {
            let j = choose|j: int|
                0 <= j < history.len() && (#[trigger] history[j]).page == chosen.page
                    && history[j].key.render_signature.suits(chosen.requirement);
            assert(satisfies(history[j], chosen.page, chosen.requirement));
        }
        if other.distance < chosen.distance {
            if at > first {
                assert(!ordered[at].precedes(&ordered[first]));
            }
            assert(at < first);
            lemma_none_missing_before(ordered, capacity, warm, history, at);
        }
    } else {
        lemma_none_missing_before(ordered, capacity, warm, history, at);
    }
}

proof fn lemma_giving_way_holds(
    entries: Seq<GpuTextureEntrySnapshot>,
    candidate: GpuWarmupCandidateSnapshot,
    k: int,
) -> (at: int)
    requires
        0 <= k < entries.len(),
        may_give_way(entries[k], candidate),
    ensures
        0 <= at < giving_way(entries, candidate).len(),
        giving_way(entries, candidate)[at] == entries[k],
    decreases entries.len(),
{
    if k == entries.len() - 1 {
        giving_way(entries, candidate).len() - 1
    } else {
        lemma_giving_way_holds(entries.drop_last(), candidate, k)
    }
}

/// Textures give way only where the page does not fit beside them, and only textures of later
/// pages, or of the same page that do not suit it any longer. The furthest go first, and no more of
/// them than are needed.
pub proof fn law_further_pages_give_way(
    ordered: Seq<GpuWarmupCandidateSnapshot>,
    capacity: nat,
    warm: Seq<GpuTextureEntrySnapshot>,
    history: Seq<GpuTextureEntrySnapshot>,
    v: int,
    k: int,
)
    requires
        capacity <= usize::MAX,
        snapshot_total(warm) <= capacity,
        0 <= k < warm.len(),
    ensures
        match upload_decision(ordered, capacity, warm, history) {
            UploadDecision::FreeSpace { candidate } => snapshot_total(warm) + candidate.bytes
                <= capacity,
            UploadDecision::Replace { candidate, needed, victims } => {
                &&& snapshot_total(warm) + candidate.bytes > capacity
                &&& snapshot_total(warm) + candidate.bytes <= capacity + snapshot_total(victims)
                &&& victims.len() > 0 && snapshot_total(warm) + candidate.bytes > capacity
                    + snapshot_total(victims.drop_last())
                &&& 0 <= v < victims.len() ==> {
                    &&& victims[v].page >= candidate.page
                    &&& victims[v].page == candidate.page
                        ==> !victims[v].key.render_signature.suits(candidate.requirement)
                    &&& warm[k].page > victims[v].page && warm[k].page > candidate.page
                        ==> victims.contains(warm[k])
                }
            },
            UploadDecision::NoRoom { candidate, needed } => snapshot_total(warm) + candidate.bytes
                > capacity,
            UploadDecision::NothingMissing => true,
        },
{
    law_planned_upload_fits(ordered, capacity, warm, history);
    match upload_decision(ordered, capacity, warm, history) {
        UploadDecision::Replace { candidate, needed, victims } => {
            let found = giving_way(warm, candidate);
            let replaceable = stable_sorted(found);
            let count = needed_count(replaceable, needed, 0) as int;
            lemma_needed_count(replaceable, needed, 0);
            assert(victims.drop_last() =~= replaceable.take(count - 1));
            assert(is_weak_order::<GpuTextureEntrySnapshot>());
            crate::sorting::law_sorting_sorts(found);
            if 0 <= v < victims.len() {
                assert(may_give_way(victims[v], candidate));
                assert(victims[v] == replaceable[v]);
                if warm[k].page > victims[v].page && warm[k].page > candidate.page {
                    let i = lemma_giving_way_holds(warm, candidate, k);
                    let at = lemma_sorted_contains(found, i);
                    if at > v {
                        assert(!replaceable[at].precedes(&replaceable[v]));
                    }
                    assert(at < v || replaceable[at] == replaceable[v]);
                    assert(victims[at] == warm[k]);
                }
            }
        },
        _ => {},
    }
}

/// A texture of a page on screen or before it is of no more use, nor is one of a page that is not
/// wanted or one that does not suit what its page needs; each is told with its reason.
pub proof fn law_useless_textures_go(
    entry: GpuTextureEntrySnapshot,
    visible_end: u32,
    desired: Map<u32, DisplayRequirement>,
)
    ensures
        entry.page <= visible_end ==> stale_reason(entry, visible_end, desired) == Some("past"),
        entry.page > visible_end && !desired.dom().contains(entry.page) ==> stale_reason(
            entry,
            visible_end,
            desired,
        ) == Some("outside_desired_future"),
        entry.page > visible_end && desired.dom().contains(entry.page)
            && !entry.key.render_signature.suits(desired[entry.page]) ==> stale_reason(
            entry,
            visible_end,
            desired,
        ) == Some("requirement_mismatch"),
        entry.page > visible_end && desired.dom().contains(entry.page)
            && entry.key.render_signature.suits(desired[entry.page]) ==> stale_reason(
            entry,
            visible_end,
            desired,
        ) is None,
{
}

/// The numbers of a plan agree with what it does.
pub proof fn law_summaries_tell_the_plan(
    visible_end: u32,
    ready: usize,
    capacity: nat,
    ordered: Seq<GpuWarmupCandidateSnapshot>,
    stale: Seq<GpuWarmupEvictCandidate>,
    warm: Seq<GpuTextureEntrySnapshot>,
    history: Seq<GpuTextureEntrySnapshot>,
)
    requires
        ordered.len() <= usize::MAX,
        warm.len() <= usize::MAX,
        stale.len() + chosen_victims(upload_decision(ordered, capacity, warm, history)).len()
            <= usize::MAX,
        capacity <= usize::MAX,
    ensures
        ({
            let decision = upload_decision(ordered, capacity, warm, history);
            let upload = chosen_upload(decision);
            let summary = plan_summary(
                visible_end,
                ready,
                capacity,
                ordered,
                stale,
                warm,
                history,
            );
            &&& summary.visible_end == Some(visible_end) && summary.l2_ready_count == ready
            &&& summary.future_candidate_count == ordered.len() && summary.warm_count == warm.len()
            &&& snapshot_total(warm) <= capacity ==> summary.warm_bytes == snapshot_total(warm)
                && summary.warm_bytes + summary.free_bytes == capacity
            &&& upload is Some <==> summary.upload_count == 1
            &&& upload is None <==> summary.upload_count == 0
            &&& upload matches Some(upload) ==> summary.upload_page == Some(upload.page)
                && summary.upload_bytes == upload.bytes && summary.best_missing_page == Some(
                upload.page,
            )
            &&& upload is None ==> summary.upload_page is None && summary.upload_bytes == 0
                && summary.pending_uploads == 0
            &&& summary.stale_evict_count == stale.len()
            &&& summary.replacement_count == chosen_victims(decision).len()
            &&& summary.evict_count == stale.len() + chosen_victims(decision).len()
            &&& summary.idle_reason is None <==> upload is Some || summary.evict_count > 0
            &&& ordered.len() == 0 && stale.len() == 0 ==> summary.idle_reason == Some(
                "no-l2-ready",
            )
        }),
{
}

/// The furthest page among textures is the page of one of them, and none is further.
pub proof fn law_furthest_page_is_the_largest(entries: Seq<GpuTextureEntrySnapshot>, i: int)
    requires
        0 <= i < entries.len(),
    ensures
        furthest_page(entries) matches Some(page) && entries[i].page <= page && exists|k: int|
            0 <= k < entries.len() && (#[trigger] entries[k]).page == page,
    decreases entries.len(),
{
    let front = entries.drop_last();
    let last = entries.len() - 1;
    if front.len() > 0 {
        law_furthest_page_is_the_largest(
            front,
            if i < last {
                i
            } else {
                0
            },
        );
        let page = furthest_page(front)->0;
        let k = choose|k: int| 0 <= k < front.len() && (#[trigger] front[k]).page == page;
        assert(entries[k].page == page);
    }
    assert(entries[last].page <= furthest_page(entries)->0);
}

/// The uploads that wait are those of later pages: a page that is planned now does not wait, and
/// nor does one that has its texture.
pub proof fn law_later_pages_wait(
    candidate: GpuWarmupCandidateSnapshot,
    page: u32,
    warm: Seq<GpuTextureEntrySnapshot>,
    history: Seq<GpuTextureEntrySnapshot>,
)
    ensures
        waiting_after(Seq::empty(), page, warm, history) == 0,
        candidate.page <= page ==> waiting_after(seq![candidate], page, warm, history) == 0,
        candidate.page > page && is_satisfied(candidate, warm, history) ==> waiting_after(
            seq![candidate],
            page,
            warm,
            history,
        ) == 0,
        candidate.page > page && !is_satisfied(candidate, warm, history) ==> waiting_after(
            seq![candidate],
            page,
            warm,
            history,
        ) == 1,
{
    reveal_with_fuel(waiting_after, 3);
    reveal_with_fuel(unsatisfied_count, 3);
    assert(seq![candidate].drop_first() =~= Seq::empty());
}

} // verus!
