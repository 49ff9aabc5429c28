//! Background decoding: which pages to send to the workers, and what becomes of their results.
//!
//! The manager holds no channel and no thread. It is handed commands and results, and hands back
//! the requests to send, the status to publish and the notifications to pass on.
use vstd::prelude::*;

use std::collections::{HashMap, HashSet};
use std::sync::Arc;

use super::auto_spread_plan::AutoSpreadPlan;
use super::decode_layout::request_display_width_for_pair;
use super::page_sequences::{mention, mentioned};
use super::rgba_page_cache::{
    page_entry, pages_in_order, CacheState, CachedRgbaPage, FrameSet, Pages, RgbaCacheKey,
    RgbaInsertOutcome, RgbaPageCache,
};
use super::streaming_cache::{
    auto_streaming_order, desired_auto_streaming_sequence, set_of, streaming_order,
    streaming_plan, Admission, SimpleStreamingCachePolicy, StreamingCachePlan,
    StreamingCachePlanner, StreamingCacheStopReason, StreamingCompletionAdmissionInput,
    StreamingCompletionAdmissionPlan, StreamingCompletionDropReason, StreamingPlan,
};
use super::streaming_laws::{
    before, first_but_for, law_current_page_is_decoded_first, law_current_unit_is_decoded_first,
};
use super::working_set::{
    BgAdmissionState, BgInflightEntry, BgRenderContext, PageRenderSignatureKey, RenderSignature,
    WorkingSetAnchorPage,
};
use crate::domain::{BookId, SpreadMode, ViewerQuality};
use crate::num::{capped, greatest, least, max_usize, min_u32, monus, saturating_mul_usize};

verus! {

/// What the viewer shows and under which settings, as the background work needs to know it.
pub struct ViewerWorkerManagerSnapshot {
    pub generation: u64,
    pub book_id: BookId,
    pub book_path: String,
    pub page_count: u32,
    pub spread_setting: SpreadMode,
    pub cover_blank: bool,
    pub quality: ViewerQuality,
    pub auto_spread_plan: Option<Arc<AutoSpreadPlan>>,
    pub requested_page: u32,
    pub displayed_page: u32,
    pub target_page: u32,
    pub visible_page_first: Option<u32>,
    pub visible_page_second: Option<u32>,
    pub loading: bool,
    pub nav_mode_follow_latest: bool,
    pub prefetch_dir: i32,
    pub max_tex_side: u32,
    pub full_equivalent_area_w: u32,
    pub full_equivalent_area_h: u32,
    pub background_worker_count: usize,
    pub rgba_cache_max_mb: u16,
    pub active_animation_stream_view: Option<u32>,
    pub animation_stream_request_id: Option<u64>,
}

/// How one page would be decoded in the background.
#[derive(Clone, Copy, Debug, PartialEq, Eq, Structural)]
pub struct BgCandidateLayout {
    pub effective_spread: bool,
    pub page_decode_w: u32,
    pub page_decode_h: u32,
}

impl ViewerWorkerManagerSnapshot {
    pub open spec fn wf(self) -> bool {
        self.auto_spread_plan matches Some(plan) ==> (*plan).wf()
    }

    /// The physical page that navigation stands at.
    pub open spec fn base_page(self) -> u32 {
        if self.nav_mode_follow_latest {
            self.target_page
        } else if self.loading {
            self.requested_page
        } else {
            self.displayed_page
        }
    }

    /// The base page, brought into the book.
    pub open spec fn anchor_page(self) -> u32 {
        least(self.base_page() as int, monus(self.page_count as nat, 1) as int) as u32
    }

    /// The cover stands alone, opposite a blank page.
    pub open spec fn leading_blank(self, page: u32) -> bool {
        &&& self.cover_blank
        &&& page == 0
        &&& self.spread_setting != SpreadMode::Single
        &&& self.page_count > 0
    }

    /// The pages that are shown together when navigation stands at `page`.
    pub open spec fn pages_at(self, page: u32) -> (Option<u32>, Option<u32>) {
        if page >= self.page_count {
            (None, None)
        } else if self.leading_blank(page) {
            (Some(0), None)
        } else {
            match self.spread_setting {
                SpreadMode::Auto => match self.auto_spread_plan {
                    Some(plan) => if page < (*plan).page_count() {
                        let unit = (*plan).unit_of(page as int);
                        (Some(unit.first_page), unit.second_page)
                    } else {
                        (Some(page), None)
                    },
                    None => (Some(page), None),
                },
                SpreadMode::Spread => if page + 1 < self.page_count {
                    (Some(page), Some((page + 1) as u32))
                } else {
                    (Some(page), None)
                },
                SpreadMode::Single => (Some(page), None),
            }
        }
    }

    pub open spec fn layout_at(self, page: u32) -> BgCandidateLayout {
        let spread = self.pages_at(page).1 is Some || self.leading_blank(page);
        BgCandidateLayout {
            effective_spread: spread,
            page_decode_w: if spread {
                greatest((self.full_equivalent_area_w + 1) / 2, 1) as u32
            } else {
                self.full_equivalent_area_w
            },
            page_decode_h: self.full_equivalent_area_h,
        }
    }

    /// The conditions under which `page` would be decoded.
    pub open spec fn signature_at(self, page: u32) -> RenderSignature {
        RenderSignature {
            quality: self.quality,
            target_w: self.layout_at(page).page_decode_w,
            target_h: self.layout_at(page).page_decode_h,
            max_tex_side: self.max_tex_side,
        }
    }

    /// The pages on screen, each once.
    pub open spec fn visible(self) -> Seq<u32> {
        let first = match self.visible_page_first {
            Some(page) => seq![page],
            None => Seq::empty(),
        };
        match self.visible_page_second {
            Some(page) => mentioned(first, page),
            None => first,
        }
    }

    /// The pages in order of importance.
    pub open spec fn desired(self) -> Seq<u32> {
        match self.auto_spread_plan {
            Some(plan) => if self.spread_setting == SpreadMode::Auto {
                auto_streaming_order(*plan, self.anchor_page(), self.page_count, self.visible())
            } else {
                streaming_order(self.anchor_page(), self.page_count, self.visible())
            },
            None => streaming_order(self.anchor_page(), self.page_count, self.visible()),
        }
    }

    pub open spec fn limit_bytes(self) -> nat {
        capped(capped(self.rgba_cache_max_mb as nat * 1024) * 1024)
    }

    pub fn current_generation(&self) -> (generation: u64)
        ensures
            generation == self.generation,
    {
        self.generation
    }
}

/// Whether what is known of the background work does not carry over to the next snapshot: there
/// was none, or the book, the limit or a render condition changed.
pub open spec fn conditions_changed(
    previous: Option<ViewerWorkerManagerSnapshot>,
    next: ViewerWorkerManagerSnapshot,
) -> bool {
    match previous {
        None => true,
        Some(previous) => {
            ||| previous.book_id != next.book_id
            ||| previous.rgba_cache_max_mb != next.rgba_cache_max_mb
            ||| previous.quality != next.quality
            ||| previous.max_tex_side != next.max_tex_side
            ||| previous.full_equivalent_area_w != next.full_equivalent_area_w
            ||| previous.full_equivalent_area_h != next.full_equivalent_area_h
            ||| previous.spread_setting != next.spread_setting
            ||| previous.cover_blank != next.cover_blank
        },
    }
}

pub fn bg_cache_saturation_reset_required(
    previous: &Option<ViewerWorkerManagerSnapshot>,
    next: &ViewerWorkerManagerSnapshot,
) -> (required: bool)
    ensures
        required == conditions_changed(*previous, *next),
{
    match previous {
        None => true,
        Some(previous) => previous.book_id != next.book_id || previous.rgba_cache_max_mb
            != next.rgba_cache_max_mb || previous.quality != next.quality || previous.max_tex_side
            != next.max_tex_side || previous.full_equivalent_area_w != next.full_equivalent_area_w
            || previous.full_equivalent_area_h != next.full_equivalent_area_h
            || previous.spread_setting != next.spread_setting || previous.cover_blank
            != next.cover_blank,
    }
}

/// How many pages a plan may name: four for each free worker, and at least four.
pub fn streaming_candidate_limit(worker_capacity: usize) -> (limit: usize)
    ensures
        limit == capped((greatest(worker_capacity as int, 1) * 4) as nat),
{
    saturating_mul_usize(max_usize(worker_capacity, 1), 4)
}

pub fn navigation_base_page(snapshot: &ViewerWorkerManagerSnapshot) -> (page: u32)
    ensures
        page == snapshot.base_page(),
{
    if snapshot.nav_mode_follow_latest {
        snapshot.target_page
    } else if snapshot.loading {
        snapshot.requested_page
    } else {
        snapshot.displayed_page
    }
}

pub fn streaming_anchor_page(snapshot: &ViewerWorkerManagerSnapshot) -> (page: u32)
    ensures
        page == snapshot.anchor_page(),
{
    min_u32(navigation_base_page(snapshot), snapshot.page_count.saturating_sub(1))
}

/// The name of the page that navigation stands at.
pub fn streaming_anchor_source(snapshot: &ViewerWorkerManagerSnapshot) -> (source: &'static str)
    ensures
        source@ == if snapshot.nav_mode_follow_latest {
            "target_page"@
        } else if snapshot.loading {
            "requested_page"@
        } else {
            "displayed_page"@
        },
{
    if snapshot.nav_mode_follow_latest {
        "target_page"
    } else if snapshot.loading {
        "requested_page"
    } else {
        "displayed_page"
    }
}

/// The anchor page, marked with how pages are paired.
pub open spec fn working_set_anchor(snapshot: ViewerWorkerManagerSnapshot) -> WorkingSetAnchorPage {
    match snapshot.spread_setting {
        SpreadMode::Single => WorkingSetAnchorPage::Single {
            requested_page: snapshot.anchor_page(),
        },
        SpreadMode::Spread => WorkingSetAnchorPage::Spread {
            navigation_page: snapshot.anchor_page(),
        },
        SpreadMode::Auto => WorkingSetAnchorPage::Auto {
            navigation_page: snapshot.anchor_page(),
        },
    }
}

pub fn working_set_anchor_from_navigation_state(snapshot: &ViewerWorkerManagerSnapshot) -> (anchor:
    WorkingSetAnchorPage)
    ensures
        anchor == working_set_anchor(*snapshot),
{
    let physical_page: u32 = streaming_anchor_page(snapshot);
    match snapshot.spread_setting {
        SpreadMode::Single => WorkingSetAnchorPage::Single { requested_page: physical_page },
        SpreadMode::Spread => WorkingSetAnchorPage::Spread { navigation_page: physical_page },
        SpreadMode::Auto => WorkingSetAnchorPage::Auto { navigation_page: physical_page },
    }
}

pub fn bg_cache_limit_bytes(snapshot: &ViewerWorkerManagerSnapshot) -> (bytes: usize)
    ensures
        bytes == snapshot.limit_bytes(),
{
    saturating_mul_usize(saturating_mul_usize(snapshot.rgba_cache_max_mb as usize, 1024), 1024)
}

/// For each cached page, the bytes of all its decodes.
pub open spec fn eviction_bytes(entries: Pages) -> Map<u32, usize>
    decreases entries.len(),
{
    if entries.len() == 0 {
        Map::empty()
    } else {
        let before = eviction_bytes(entries.drop_last());
        let page = entries.last().key.page;
        let held: nat = if before.dom().contains(page) {
            before[page] as nat
        } else {
            0
        };
        before.insert(page, capped(held + entries.last().bytes as nat) as usize)
    }
}

pub fn bg_cache_page_eviction_bytes(bg_rgba_cache: &RgbaPageCache) -> (bytes: HashMap<u32, usize>)
    ensures
        bytes@ == eviction_bytes(bg_rgba_cache.entries@),
{
    broadcast use vstd::std_specs::hash::group_hash_axioms;

    let mut bytes: HashMap<u32, usize> = HashMap::new();
    let mut i: usize = 0;
    let ghost entries = bg_rgba_cache.entries@;
    assert(entries.take(0) =~= Seq::empty());
    assert(bytes@ =~= Map::empty());
    while i < bg_rgba_cache.entries.len()
        invariant
            i <= entries.len(),
            entries == bg_rgba_cache.entries@,
            bytes@ == eviction_bytes(entries.take(i as int)),
        decreases entries.len() - i,
    {
        let entry: CachedRgbaPage = bg_rgba_cache.entries[i];
        assert(entries.take(i + 1).drop_last() =~= entries.take(i as int));
        let held: usize = match bytes.get(&entry.key.page) {
            Some(held) => *held,
            None => 0,
        };
        bytes.insert(entry.key.page, held.saturating_add(entry.bytes));
        i = i + 1;
    }
    assert(entries.take(i as int) =~= entries);
    bytes
}

pub fn snapshot_visible_pages(snapshot: &ViewerWorkerManagerSnapshot) -> (pages: (
    Option<u32>,
    Option<u32>,
))
    ensures
        pages == (snapshot.visible_page_first, snapshot.visible_page_second),
{
    (snapshot.visible_page_first, snapshot.visible_page_second)
}

/// The pages on screen, as a list and as a set.
fn collect_visible_pages(snapshot: &ViewerWorkerManagerSnapshot) -> (pages: (
    Vec<u32>,
    HashSet<u32>,
))
    ensures
        pages.0@ == snapshot.visible(),
        pages.1@ == snapshot.visible().to_set(),
{
    let (first, second): (Option<u32>, Option<u32>) = snapshot_visible_pages(snapshot);
    let mut pages: Vec<u32> = Vec::new();
    let mut set: HashSet<u32> = HashSet::new();
    assert(set@ =~= pages@.to_set());
    match first {
        Some(page) => {
            mention(&mut pages, &mut set, page);
            assert(pages@ =~= seq![page]);
        },
        None => {},
    }
    match second {
        Some(page) => {
            mention(&mut pages, &mut set, page);
        },
        None => {},
    }
    (pages, set)
}

/// The pages on screen are the ones that the cache keeps.
pub fn bg_cache_protected_pages(snapshot: &ViewerWorkerManagerSnapshot) -> (pages: HashSet<u32>)
    ensures
        pages@ == snapshot.visible().to_set(),
{
    collect_visible_pages(snapshot).1
}

pub fn is_leading_cover_blank_spread(
    snapshot: &ViewerWorkerManagerSnapshot,
    physical_page: u32,
) -> (leading: bool)
    ensures
        leading == snapshot.leading_blank(physical_page),
{
    snapshot.cover_blank && physical_page == 0 && snapshot.spread_setting != SpreadMode::Single
        && snapshot.page_count > 0
}

pub fn resolve_candidate_pages(
    snapshot: &ViewerWorkerManagerSnapshot,
    physical_page: u32,
) -> (pages: (Option<u32>, Option<u32>))
    requires
        snapshot.wf(),
    ensures
        pages == snapshot.pages_at(physical_page),
{
    if snapshot.page_count == 0 || physical_page >= snapshot.page_count {
        return (None, None);
    }
    if is_leading_cover_blank_spread(snapshot, physical_page) {
        return (Some(0), None);
    }
    match snapshot.spread_setting {
        SpreadMode::Auto => match &snapshot.auto_spread_plan {
            Some(plan) => match plan.pages_for_logical_page(physical_page) {
                Some((first, second)) => (Some(first), second),
                None => (Some(physical_page), None),
            },
            None => (Some(physical_page), None),
        },
        SpreadMode::Spread => if physical_page + 1 < snapshot.page_count {
            (Some(physical_page), Some(physical_page + 1))
        } else {
            (Some(physical_page), None)
        },
        SpreadMode::Single => (Some(physical_page), None),
    }
}

pub fn resolve_candidate_layout(
    snapshot: &ViewerWorkerManagerSnapshot,
    physical_page: u32,
) -> (layout: BgCandidateLayout)
    requires
        snapshot.wf(),
    ensures
        layout == snapshot.layout_at(physical_page),
{
    let (_, page_right): (Option<u32>, Option<u32>) = resolve_candidate_pages(
        snapshot,
        physical_page,
    );
    let effective_spread: bool = page_right.is_some() || is_leading_cover_blank_spread(
        snapshot,
        physical_page,
    );
    BgCandidateLayout {
        effective_spread,
        page_decode_w: request_display_width_for_pair(
            snapshot.full_equivalent_area_w,
            effective_spread,
        ),
        page_decode_h: snapshot.full_equivalent_area_h,
    }
}

fn candidate_signature(snapshot: &ViewerWorkerManagerSnapshot, page: u32) -> (signature:
    RenderSignature)
    requires
        snapshot.wf(),
    ensures
        signature == snapshot.signature_at(page),
{
    let layout: BgCandidateLayout = resolve_candidate_layout(snapshot, page);
    RenderSignature::from_decode_request(
        snapshot.quality,
        layout.page_decode_w,
        layout.page_decode_h,
        snapshot.max_tex_side,
    )
}

/// Whether a result was decoded for the book and under the conditions of the snapshot.
pub open spec fn still_current(
    snapshot: ViewerWorkerManagerSnapshot,
    entry: BgInflightEntry,
) -> bool {
    let context = entry.render_context;
    &&& snapshot.book_id == context.book_id
    &&& snapshot.quality == context.quality
    &&& snapshot.max_tex_side == context.max_tex_side
    &&& snapshot.full_equivalent_area_w == context.full_equivalent_area_w
    &&& snapshot.full_equivalent_area_h == context.full_equivalent_area_h
    &&& snapshot.spread_setting == context.spread_setting
    &&& snapshot.cover_blank == context.cover_blank
    &&& snapshot.layout_at(entry.page).effective_spread == context.spread_mode
    &&& snapshot.signature_at(entry.page) == entry.render_signature
}

/// Why a result no longer counts; `None` if and only if it does.
pub open spec fn stale_result(
    snapshot: ViewerWorkerManagerSnapshot,
    entry: BgInflightEntry,
) -> Option<&'static str> {
    if snapshot.book_id != entry.render_context.book_id {
        Some("book_changed")
    } else if !still_current(snapshot, entry) {
        Some("render_condition_changed")
    } else {
        None
    }
}

pub fn bg_result_is_stale(snapshot: &ViewerWorkerManagerSnapshot, entry: &BgInflightEntry) -> (
reason: Option<&'static str>)
    requires
        snapshot.wf(),
    ensures
        reason == stale_result(*snapshot, *entry),
{
    let context: BgRenderContext = entry.render_context;
    if snapshot.book_id != context.book_id {
        return Some("book_changed");
    }
    if snapshot.quality != context.quality || snapshot.max_tex_side != context.max_tex_side
        || snapshot.full_equivalent_area_w != context.full_equivalent_area_w
        || snapshot.full_equivalent_area_h != context.full_equivalent_area_h
        || snapshot.spread_setting != context.spread_setting || snapshot.cover_blank
        != context.cover_blank {
        return Some("render_condition_changed");
    }
    let layout: BgCandidateLayout = resolve_candidate_layout(snapshot, entry.page);
    if layout.effective_spread != context.spread_mode || candidate_signature(snapshot, entry.page)
        != entry.render_signature {
        return Some("render_condition_changed");
    }
    None
}

/// Puts the cache under the snapshot's limit and reports its pages, bytes and limit.
pub fn refresh_bg_rgba_cache_limit(
    bg_rgba_cache: &mut RgbaPageCache,
    snapshot: &ViewerWorkerManagerSnapshot,
) -> (report: (Vec<u32>, usize, usize))
    requires
        old(bg_rgba_cache).wf(),
    ensures
        final(bg_rgba_cache).wf(),
        final(bg_rgba_cache)@ == old(bg_rgba_cache)@.limited(
            snapshot.limit_bytes(),
            snapshot.visible().to_set(),
        ),
        report.0@ == pages_in_order(final(bg_rgba_cache)@.entries),
        report.1 == final(bg_rgba_cache).current_bytes,
        report.2 == snapshot.limit_bytes(),
{
    let protected_pages: HashSet<u32> = bg_cache_protected_pages(snapshot);
    let current_physical_page: u32 = streaming_anchor_page(snapshot);
    let max_bytes: usize = bg_cache_limit_bytes(snapshot);
    let _ = bg_rgba_cache.set_max_bytes_with_context(
        max_bytes,
        current_physical_page,
        &protected_pages,
    );
    (bg_rgba_cache.page_order(), bg_rgba_cache.current_bytes(), bg_rgba_cache.max_bytes())
}

/// What the manager tells the viewer.
#[derive(Debug)]
pub enum ViewerWorkerManagerNotification {
    BgDispatched {
        generation: u64,
        request_id: u64,
        page: u32,
        render_signature: RenderSignature,
    },
    DroppedStale { request_id: u64, reason: &'static str },
    Error { message: String },
}

#[derive(Clone, Copy, Debug)]
pub struct ViewerWorkerManagerDebugState {
    pub inflight_by_request_id: usize,
    pub fifo_len: usize,
    pub dispatch_limit_reason: Option<&'static str>,
}

/// Whether the background work has nothing left to do for a book.
#[derive(Clone, Copy, Debug, PartialEq, Eq, Structural)]
pub struct L2StreamingStatus {
    pub generation: u64,
    pub book_id: Option<BookId>,
    pub settled: bool,
}

impl Default for L2StreamingStatus {
    fn default() -> (status: Self)
        ensures
            status == (L2StreamingStatus { generation: 0, book_id: None, settled: false }),
    {
        L2StreamingStatus { generation: 0, book_id: None, settled: false }
    }
}

/// The status to publish for a snapshot.
pub open spec fn status_for(snapshot: Option<ViewerWorkerManagerSnapshot>, settled: bool) ->
    L2StreamingStatus {
    match snapshot {
        Some(snapshot) => L2StreamingStatus {
            generation: snapshot.generation,
            book_id: Some(snapshot.book_id),
            settled,
        },
        None => L2StreamingStatus { generation: 0, book_id: None, settled },
    }
}

pub fn update_l2_settled_status(snapshot: &Option<ViewerWorkerManagerSnapshot>, settled: bool) -> (
status: L2StreamingStatus)
    ensures
        status == status_for(*snapshot, settled),
{
    match snapshot {
        Some(snapshot) => L2StreamingStatus {
            generation: snapshot.generation,
            book_id: Some(snapshot.book_id),
            settled,
        },
        None => L2StreamingStatus { generation: 0, book_id: None, settled },
    }
}

pub enum ViewerWorkerManagerCommand {
    Update(ViewerWorkerManagerSnapshot),
    DebugState,
    Shutdown,
}

#[derive(Clone, Copy, Debug, PartialEq, Eq, Structural)]
pub enum WorkerManagerCommandOutcome {
    Continue,
    UpdateApplied,
    Shutdown,
}

/// A result as it comes back from a worker.
#[derive(Clone, Copy, Debug)]
pub struct BgResult {
    pub request_id: u64,
    pub is_animation_chunk: bool,
    pub left: Option<FrameSet>,
    pub left_is_animation_stream: bool,
    pub right: Option<FrameSet>,
    pub right_is_animation_stream: bool,
}

impl BgResult {
    /// The page that the result holds, if it is a page and no part of an animation.
    pub open spec fn page_frames(self) -> Option<FrameSet> {
        if self.left is Some && !self.left_is_animation_stream {
            self.left
        } else if self.right is Some && !self.right_is_animation_stream {
            self.right
        } else {
            None
        }
    }

    fn frames(&self) -> (frames: Option<FrameSet>)
        ensures
            frames == self.page_frames(),
    {
        if self.left.is_some() && !self.left_is_animation_stream {
            self.left
        } else if self.right.is_some() && !self.right_is_animation_stream {
            self.right
        } else {
            None
        }
    }
}

/// The requests in flight, the workers' slots, and what has been learnt of single pages.
pub struct ViewerWorkerManagerState {
    pub snapshot: Option<ViewerWorkerManagerSnapshot>,
    pub active_generation: Option<u64>,
    /// A page has already gone for another one.
    pub bg_cache_saturated: bool,
    pub bg_admission_state: Vec<(PageRenderSignatureKey, BgAdmissionState)>,
    pub bg_inflight: Vec<BgInflightEntry>,
    pub prefetch_inflight_pages_by_shard: Vec<Option<u32>>,
    pub background_worker_count: usize,
    pub bg_summary_dispatch_count: usize,
}

pub open spec fn distinct_requests(inflight: Seq<BgInflightEntry>) -> bool {
    forall|i: int, j: int|
        0 <= i < j < inflight.len() ==> (#[trigger] inflight[i]).request_id != (
        #[trigger] inflight[j]).request_id
}

pub open spec fn tracks(inflight: Seq<BgInflightEntry>, request_id: u64) -> bool {
    exists|i: int| 0 <= i < inflight.len() && (#[trigger] inflight[i]).request_id == request_id
}

/// The position of a tracked request.
pub open spec fn request_index(inflight: Seq<BgInflightEntry>, request_id: u64) -> int {
    choose|i: int| 0 <= i < inflight.len() && (#[trigger] inflight[i]).request_id == request_id
}

/// The requests without one of them.
pub open spec fn without_request(inflight: Seq<BgInflightEntry>, request_id: u64) -> Seq<
    BgInflightEntry,
> {
    if tracks(inflight, request_id) {
        inflight.remove(request_index(inflight, request_id))
    } else {
        inflight
    }
}

/// The pages in flight.
pub open spec fn inflight_pages(inflight: Seq<BgInflightEntry>) -> Seq<u32> {
    inflight.map_values(|entry: BgInflightEntry| entry.page)
}

/// Whether a page may not be dispatched again.
pub open spec fn refused(state: BgAdmissionState) -> bool {
    state == BgAdmissionState::TooLargeForBgRgba || state == BgAdmissionState::InsertDidNotSurvive
}

/// The pages that may not be dispatched again.
pub open spec fn refused_pages(states: Seq<(PageRenderSignatureKey, BgAdmissionState)>) -> Seq<u32>
    decreases states.len(),
{
    if states.len() == 0 {
        Seq::empty()
    } else if refused(states.last().1) {
        refused_pages(states.drop_last()).push(states.last().0.page)
    } else {
        refused_pages(states.drop_last())
    }
}

/// The states with `state` noted for `key`, in place of what was noted before.
pub open spec fn noted(
    states: Seq<(PageRenderSignatureKey, BgAdmissionState)>,
    key: PageRenderSignatureKey,
    state: BgAdmissionState,
) -> Seq<(PageRenderSignatureKey, BgAdmissionState)>
    decreases states.len(),
{
    if states.len() == 0 {
        seq![(key, state)]
    } else if states[0].0 == key {
        seq![(key, state)] + states.drop_first()
    } else {
        seq![states[0]] + noted(states.drop_first(), key, state)
    }
}

fn note_admission(
    states: &mut Vec<(PageRenderSignatureKey, BgAdmissionState)>,
    key: PageRenderSignatureKey,
    state: BgAdmissionState,
)
    ensures
        final(states)@ == noted(old(states)@, key, state),
{
    let ghost all = states@;
    let mut i: usize = 0;
    assert(all.skip(0) =~= all);
    assert(all.take(0) + noted(all, key, state) =~= noted(all, key, state));
    while i < states.len()
        invariant
            i <= states@.len(),
            states@ == all,
            all == old(states)@,
            all.take(i as int) + noted(all.skip(i as int), key, state) == noted(all, key, state),
        decreases states@.len() - i,
    {
        let ghost left = all.skip(i as int);
        assert(left[0] == all[i as int]);
        assert(left.drop_first() =~= all.skip(i + 1));
        if states[i].0 == key {
            states.set(i, (key, state));
            assert(states@ =~= all.take(i as int) + (seq![(key, state)] + all.skip(i + 1)));
            return;
        }
        assert(all.take(i as int) + (seq![all[i as int]] + noted(all.skip(i + 1), key, state))
            =~= all.take(i + 1) + noted(all.skip(i + 1), key, state));
        i = i + 1;
    }
    states.push((key, state));
    assert(all.skip(i as int) =~= Seq::empty());
    assert(states@ =~= all.take(i as int) + seq![(key, state)]);
}

/// The shard that decodes a page.
pub open spec fn shard_of(page: u32, worker_count: usize) -> int {
    page as int % greatest(worker_count as int, 1)
}

fn page_shard(page: u32, worker_count: usize) -> (shard: usize)
    ensures
        shard == shard_of(page, worker_count),
        shard < greatest(worker_count as int, 1),
{
    page as usize % max_usize(worker_count, 1)
}

/// The slots once `page` is done: its own slot is freed, a slot that holds another page is left.
pub open spec fn slot_released(slots: Seq<Option<u32>>, page: u32, worker_count: usize) -> Seq<
    Option<u32>,
> {
    let shard = shard_of(page, worker_count);
    if shard < slots.len() && slots[shard] == Some(page) {
        slots.update(shard, None)
    } else {
        slots
    }
}

/// The slots once `page` is under way: its slot is taken, if it was free.
pub open spec fn slot_taken(slots: Seq<Option<u32>>, page: u32, worker_count: usize) -> Seq<
    Option<u32>,
> {
    let shard = shard_of(page, worker_count);
    if shard < slots.len() && slots[shard] is None {
        slots.update(shard, Some(page))
    } else {
        slots
    }
}

fn release_slot(slots: &mut Vec<Option<u32>>, page: u32, worker_count: usize)
    ensures
        final(slots)@ == slot_released(old(slots)@, page, worker_count),
{
    let shard: usize = page_shard(page, worker_count);
    if shard < slots.len() {
        let held: bool = match slots[shard] {
            Some(current) => current == page,
            None => false,
        };
        if held {
            slots.set(shard, None);
        }
    }
}

/// The pages to send now, in order: one for each shard that is free, as many as there are
/// workers free. `chosen` marks the shards that are spoken for.
pub open spec fn dispatch_choice(
    pages: Seq<u32>,
    worker_count: usize,
    slots: Seq<Option<u32>>,
    available: nat,
    chosen: Seq<bool>,
) -> Seq<u32>
    decreases pages.len(),
{
    if pages.len() == 0 || available == 0 {
        Seq::empty()
    } else {
        let shard = shard_of(pages[0], worker_count);
        let busy = shard < slots.len() && slots[shard] is Some;
        if chosen[shard] || busy {
            dispatch_choice(pages.drop_first(), worker_count, slots, available, chosen)
        } else {
            seq![pages[0]] + dispatch_choice(
                pages.drop_first(),
                worker_count,
                slots,
                (available - 1) as nat,
                chosen.update(shard, true),
            )
        }
    }
}

/// No shard spoken for.
pub open spec fn no_shards(worker_count: usize) -> Seq<bool> {
    Seq::new(greatest(worker_count as int, 1) as nat, |i: int| false)
}

impl ViewerWorkerManagerState {
    pub open spec fn wf(self) -> bool {
        &&& distinct_requests(self.bg_inflight@)
        &&& self.snapshot matches Some(snapshot) ==> snapshot.wf()
    }

    /// The workers that are free.
    pub open spec fn free_workers(self, snapshot: ViewerWorkerManagerSnapshot) -> nat {
        monus(snapshot.background_worker_count as nat, self.bg_inflight@.len())
    }

    pub fn new() -> (state: Self)
        ensures
            state.wf(),
            state.snapshot is None,
            state.active_generation is None,
            !state.bg_cache_saturated,
            state.bg_admission_state@.len() == 0,
            state.bg_inflight@.len() == 0,
            state.prefetch_inflight_pages_by_shard@.len() == 0,
            state.background_worker_count == 0,
            state.bg_summary_dispatch_count == 0,
    {
        Self {
            snapshot: None,
            active_generation: None,
            bg_cache_saturated: false,
            bg_admission_state: Vec::new(),
            bg_inflight: Vec::new(),
            prefetch_inflight_pages_by_shard: Vec::new(),
            background_worker_count: 0,
            bg_summary_dispatch_count: 0,
        }
    }

    fn available_slots(&self, snapshot: &ViewerWorkerManagerSnapshot) -> (slots: usize)
        ensures
            slots == self.free_workers(*snapshot),
    {
        snapshot.background_worker_count.saturating_sub(self.bg_inflight.len())
    }

    pub fn release_prefetch_inflight_slot(&mut self, page: u32)
        ensures
            final(self).prefetch_inflight_pages_by_shard@ == slot_released(
                old(self).prefetch_inflight_pages_by_shard@,
                page,
                old(self).background_worker_count,
            ),
            *final(self) == (ViewerWorkerManagerState {
                prefetch_inflight_pages_by_shard: final(self).prefetch_inflight_pages_by_shard,
                ..*old(self)
            }),
    {
        release_slot(
            &mut self.prefetch_inflight_pages_by_shard,
            page,
            self.background_worker_count,
        );
    }

    /// The pages to send now.
    pub fn select_dispatch_pages(
        &self,
        snapshot: &ViewerWorkerManagerSnapshot,
        dispatch_pages: &Vec<u32>,
    ) -> (pages: Vec<u32>)
        ensures
            pages@ == dispatch_choice(
                dispatch_pages@,
                snapshot.background_worker_count,
                self.prefetch_inflight_pages_by_shard@,
                self.free_workers(*snapshot),
                no_shards(snapshot.background_worker_count),
            ),
    {
        let worker_count: usize = snapshot.background_worker_count;
        let mut chosen: Vec<bool> = vec![false; max_usize(worker_count, 1)];
        let mut available: usize = self.available_slots(snapshot);
        let ghost slots = self.prefetch_inflight_pages_by_shard@;
        let mut pages: Vec<u32> = Vec::new();
        let mut i: usize = 0;
        let ghost whole = dispatch_choice(
            dispatch_pages@,
            worker_count,
            slots,
            available as nat,
            chosen@,
        );
        assert(chosen@ =~= no_shards(worker_count));
        assert(dispatch_pages@.skip(0) =~= dispatch_pages@);
        assert(pages@ + whole =~= whole);
        while i < dispatch_pages.len() && available > 0
            invariant
                i <= dispatch_pages@.len(),
                slots == self.prefetch_inflight_pages_by_shard@,
                chosen@.len() == greatest(worker_count as int, 1),
                whole == pages@ + dispatch_choice(
                    dispatch_pages@.skip(i as int),
                    worker_count,
                    slots,
                    available as nat,
                    chosen@,
                ),
            decreases dispatch_pages@.len() - i,
        {
            let page: u32 = dispatch_pages[i];
            let ghost left = dispatch_pages@.skip(i as int);
            assert(left[0] == page);
            assert(left.drop_first() =~= dispatch_pages@.skip(i + 1));
            let shard: usize = page_shard(page, worker_count);
            let busy: bool = shard < self.prefetch_inflight_pages_by_shard.len()
                && self.prefetch_inflight_pages_by_shard[shard].is_some();
            if !chosen[shard] && !busy {
                let ghost before = pages@;
                let ghost rest = dispatch_choice(
                    dispatch_pages@.skip(i + 1),
                    worker_count,
                    slots,
                    (available - 1) as nat,
                    chosen@.update(shard as int, true),
                );
                pages.push(page);
                chosen.set(shard, true);
                available = available - 1;
                assert(before + (seq![page] + rest) =~= pages@ + rest);
            }
            i = i + 1;
        }
        assert(pages@ + Seq::<u32>::empty() =~= pages@);
        pages
    }

    /// The request that a page makes under a snapshot.
    pub open spec fn request_for(
        snapshot: ViewerWorkerManagerSnapshot,
        page: u32,
        request_id: u64,
    ) -> BgInflightEntry {
        BgInflightEntry {
            request_id,
            page,
            render_signature: snapshot.signature_at(page),
            render_context: BgRenderContext {
                book_id: snapshot.book_id,
                quality: snapshot.quality,
                spread_setting: snapshot.spread_setting,
                spread_mode: snapshot.layout_at(page).effective_spread,
                cover_blank: snapshot.cover_blank,
                full_equivalent_area_w: snapshot.full_equivalent_area_w,
                full_equivalent_area_h: snapshot.full_equivalent_area_h,
                max_tex_side: snapshot.max_tex_side,
            },
            working_set_anchor_page: working_set_anchor(snapshot),
            source_view: Some(page),
        }
    }

    /// Notes that a page was sent under an id that is not in flight.
    pub fn record_dispatch(
        &mut self,
        snapshot: &ViewerWorkerManagerSnapshot,
        page: u32,
        request_id: u64,
    ) -> (notification: ViewerWorkerManagerNotification)
        requires
            old(self).wf(),
            snapshot.wf(),
            !tracks(old(self).bg_inflight@, request_id),
        ensures
            final(self).wf(),
            final(self).bg_inflight@ == old(self).bg_inflight@.push(
                Self::request_for(*snapshot, page, request_id),
            ),
            final(self).prefetch_inflight_pages_by_shard@ == slot_taken(
                old(self).prefetch_inflight_pages_by_shard@,
                page,
                snapshot.background_worker_count,
            ),
            final(self).bg_summary_dispatch_count == capped(
                old(self).bg_summary_dispatch_count as nat + 1,
            ),
            *final(self) == (ViewerWorkerManagerState {
                bg_inflight: final(self).bg_inflight,
                prefetch_inflight_pages_by_shard: final(self).prefetch_inflight_pages_by_shard,
                bg_summary_dispatch_count: final(self).bg_summary_dispatch_count,
                ..*old(self)
            }),
            notification == (ViewerWorkerManagerNotification::BgDispatched {
                generation: snapshot.generation,
                request_id,
                page,
                render_signature: snapshot.signature_at(page),
            }),
    {
        let layout: BgCandidateLayout = resolve_candidate_layout(snapshot, page);
        let render_signature: RenderSignature = candidate_signature(snapshot, page);
        let entry = BgInflightEntry {
            request_id,
            page,
            render_signature,
            render_context: BgRenderContext {
                book_id: snapshot.book_id,
                quality: snapshot.quality,
                spread_setting: snapshot.spread_setting,
                spread_mode: layout.effective_spread,
                cover_blank: snapshot.cover_blank,
                full_equivalent_area_w: snapshot.full_equivalent_area_w,
                full_equivalent_area_h: snapshot.full_equivalent_area_h,
                max_tex_side: snapshot.max_tex_side,
            },
            working_set_anchor_page: working_set_anchor_from_navigation_state(snapshot),
            source_view: Some(page),
        };
        let ghost before = self.bg_inflight@;
        self.bg_inflight.push(entry);
        assert(distinct_requests(self.bg_inflight@)) by {
            let now = self.bg_inflight@;
            assert forall|i: int, j: int| 0 <= i < j < now.len() implies (
            #[trigger] now[i]).request_id != (#[trigger] now[j]).request_id by {
                assert(now[i] == before[i]);
            }
        }
        self.bg_summary_dispatch_count = self.bg_summary_dispatch_count.saturating_add(1);
        let shard: usize = page_shard(page, snapshot.background_worker_count);
        if shard < self.prefetch_inflight_pages_by_shard.len()
            && self.prefetch_inflight_pages_by_shard[shard].is_none() {
            self.prefetch_inflight_pages_by_shard.set(shard, Some(page));
        }
        ViewerWorkerManagerNotification::BgDispatched {
            generation: snapshot.generation,
            request_id,
            page,
            render_signature,
        }
    }

    fn collect_inflight_pages(&self) -> (pages: Vec<u32>)
        ensures
            pages@ == inflight_pages(self.bg_inflight@),
    {
        let mut pages: Vec<u32> = Vec::new();
        let ghost all = inflight_pages(self.bg_inflight@);
        let mut i: usize = 0;
        while i < self.bg_inflight.len()
            invariant
                i <= self.bg_inflight@.len(),
                all == inflight_pages(self.bg_inflight@),
                pages@ == all.take(i as int),
            decreases self.bg_inflight@.len() - i,
        {
            pages.push(self.bg_inflight[i].page);
            i = i + 1;
            assert(pages@ =~= all.take(i as int));
        }
        assert(all.take(i as int) =~= all);
        pages
    }

    fn collect_refused_pages(&self) -> (pages: Vec<u32>)
        ensures
            pages@ == refused_pages(self.bg_admission_state@),
    {
        let mut pages: Vec<u32> = Vec::new();
        let ghost all = self.bg_admission_state@;
        let mut i: usize = 0;
        assert(all.take(0) =~= Seq::empty());
        while i < self.bg_admission_state.len()
            invariant
                i <= all.len(),
                all == self.bg_admission_state@,
                pages@ == refused_pages(all.take(i as int)),
            decreases all.len() - i,
        {
            let (key, state): (PageRenderSignatureKey, BgAdmissionState) =
                self.bg_admission_state[i];
            assert(all.take(i + 1).drop_last() =~= all.take(i as int));
            if state == BgAdmissionState::TooLargeForBgRgba || state
                == BgAdmissionState::InsertDidNotSurvive {
                pages.push(key.page);
            }
            i = i + 1;
        }
        assert(all.take(i as int) =~= all);
        pages
    }

    /// Sets the pages in order and matches them with the cache, the requests in flight and the
    /// workers.
    pub fn build_streaming_cache_context(
        &self,
        snapshot: &ViewerWorkerManagerSnapshot,
        bg_cache_pages: &[u32],
        cache_current_bytes: usize,
        cache_max_bytes: usize,
        worker_capacity: usize,
    ) -> (context: StreamingCacheContext)
        requires
            snapshot.wf(),
        ensures
            context.visible_pages@ == snapshot.visible(),
            context.visible_page_set@ == snapshot.visible().to_set(),
            context.too_large_pages@ == refused_pages(self.bg_admission_state@).to_set(),
            context.desired_sequence@ == snapshot.desired(),
            context.plan.stop_reason is Some,
            context.plan@ == self.plan_for(
                *snapshot,
                bg_cache_pages@,
                cache_current_bytes,
                cache_max_bytes,
                worker_capacity,
            ),
    {
        let current_physical_page: u32 = streaming_anchor_page(snapshot);
        let (visible_pages, visible_page_set): (Vec<u32>, HashSet<u32>) = collect_visible_pages(
            snapshot,
        );
        let too_large_pages: HashSet<u32> = set_of(self.collect_refused_pages().as_slice());
        let inflight: HashSet<u32> = set_of(self.collect_inflight_pages().as_slice());
        let mut policy_pages: Vec<u32> = Vec::new();
        let mut i: usize = 0;
        while i < visible_pages.len()
            invariant
                i <= visible_pages@.len(),
                policy_pages@ == visible_pages@.take(i as int),
            decreases visible_pages@.len() - i,
        {
            policy_pages.push(visible_pages[i]);
            i = i + 1;
            assert(policy_pages@ =~= visible_pages@.take(i as int));
        }
        assert(visible_pages@.take(i as int) =~= visible_pages@);
        let simple = SimpleStreamingCachePolicy::new(
            current_physical_page,
            snapshot.page_count,
            policy_pages,
        );
        let desired_sequence: Vec<u32> = match &snapshot.auto_spread_plan {
            Some(plan) => if snapshot.spread_setting == SpreadMode::Auto {
                desired_auto_streaming_sequence(
                    plan,
                    current_physical_page,
                    snapshot.page_count,
                    &visible_pages,
                )
            } else {
                simple.desired_sequence()
            },
            None => simple.desired_sequence(),
        };
        let plan: StreamingCachePlan = StreamingCachePlanner::plan(
            &desired_sequence,
            bg_cache_pages,
            cache_current_bytes,
            cache_max_bytes,
            self.bg_cache_saturated,
            streaming_candidate_limit(worker_capacity),
            &inflight,
            &too_large_pages,
            &visible_page_set,
            &visible_page_set,
            worker_capacity,
        );
        StreamingCacheContext {
            visible_pages,
            visible_page_set,
            too_large_pages,
            desired_sequence,
            plan,
        }
    }

    /// The plan of the streaming planner for this state.
    pub open spec fn plan_for(
        self,
        snapshot: ViewerWorkerManagerSnapshot,
        cache_pages: Seq<u32>,
        cache_current_bytes: usize,
        cache_max_bytes: usize,
        worker_capacity: usize,
    ) -> StreamingPlan {
        streaming_plan(
            snapshot.desired(),
            cache_pages,
            cache_current_bytes,
            cache_max_bytes,
            self.bg_cache_saturated,
            capped((greatest(worker_capacity as int, 1) * 4) as nat),
            inflight_pages(self.bg_inflight@).to_set(),
            refused_pages(self.bg_admission_state@).to_set(),
            snapshot.visible().to_set(),
            snapshot.visible().to_set(),
            worker_capacity,
        )
    }

    /// Whether background work is due at all.
    pub open spec fn work_is_due(self) -> bool {
        match self.snapshot {
            None => false,
            Some(snapshot) => {
                &&& snapshot.page_count > 0
                &&& snapshot.active_animation_stream_view is None
                &&& snapshot.animation_stream_request_id is None
                &&& snapshot.prefetch_dir != 0
            },
        }
    }

    /// The cache under the snapshot's limit.
    pub open spec fn refreshed(self, cache: CacheState) -> CacheState {
        match self.snapshot {
            None => cache,
            Some(snapshot) => cache.limited(snapshot.limit_bytes(), snapshot.visible().to_set()),
        }
    }

    /// The plan for a cache that has been put under the snapshot's limit.
    pub open spec fn pump_plan(self, cache: CacheState) -> StreamingPlan
        recommends
            self.snapshot is Some,
    {
        let snapshot = self.snapshot->0;
        self.plan_for(
            snapshot,
            pages_in_order(cache.entries),
            cache.bytes as usize,
            cache.max as usize,
            self.free_workers(snapshot) as usize,
        )
    }

    /// What a pump hands back, given the cache as the pump left it: the pages to send where the
    /// plan dispatches, and as settled where the plan finds nothing to do and nothing is in
    /// flight.
    pub open spec fn pumped(self, cache: CacheState, outcome: PumpOutcome) -> bool {
        let plan = self.pump_plan(cache);
        let dispatches = self.work_is_due() && (plan.stop_reason
            == StreamingCacheStopReason::CacheNotFullDispatch || plan.stop_reason
            == StreamingCacheStopReason::PriorityImprovementDispatch);
        let idle = self.work_is_due() && (plan.stop_reason
            == StreamingCacheStopReason::NoDispatchablePages || plan.stop_reason
            == StreamingCacheStopReason::CacheFullNoPriorityImprovement);
        &&& outcome.dispatch_pages@ == if dispatches {
            dispatch_choice(
                plan.dispatch,
                self.snapshot->0.background_worker_count,
                self.prefetch_inflight_pages_by_shard@,
                self.free_workers(self.snapshot->0),
                no_shards(self.snapshot->0.background_worker_count),
            )
        } else {
            Seq::empty()
        }
        &&& outcome.status == status_for(self.snapshot, idle && self.bg_inflight@.len() == 0)
    }

    /// The state once a new snapshot has been taken over.
    pub open spec fn took_over(
        before: ViewerWorkerManagerState,
        snapshot: ViewerWorkerManagerSnapshot,
        after: ViewerWorkerManagerState,
    ) -> bool {
        let changed = conditions_changed(before.snapshot, snapshot);
        let recounted = before.background_worker_count != snapshot.background_worker_count;
        &&& after.snapshot == Some(snapshot)
        &&& after.active_generation == Some(snapshot.generation)
        &&& after.background_worker_count == snapshot.background_worker_count
        &&& after.bg_summary_dispatch_count == before.bg_summary_dispatch_count
        &&& after.bg_cache_saturated == (before.bg_cache_saturated && !changed)
        &&& after.bg_inflight@ == if changed {
            Seq::empty()
        } else {
            before.bg_inflight@
        }
        &&& after.bg_admission_state@ == if changed {
            Seq::empty()
        } else {
            before.bg_admission_state@
        }
        &&& after.prefetch_inflight_pages_by_shard@ == if changed || recounted {
            free_slots(snapshot.background_worker_count)
        } else {
            before.prefetch_inflight_pages_by_shard@
        }
    }

    /// Plans the next requests and tells whether the work has settled: nothing is in flight, and
    /// nothing is left that could be improved.
    pub fn pump_background_work(&self, bg_rgba_cache: &mut RgbaPageCache) -> (outcome: PumpOutcome)
        requires
            self.wf(),
            old(bg_rgba_cache).wf(),
        ensures
            final(bg_rgba_cache).wf(),
            final(bg_rgba_cache)@ == if self.work_is_due() {
                self.refreshed(old(bg_rgba_cache)@)
            } else {
                old(bg_rgba_cache)@
            },
            self.pumped(final(bg_rgba_cache)@, outcome),
    {
        let none: Vec<u32> = Vec::new();
        match &self.snapshot {
            None => PumpOutcome {
                dispatch_pages: none,
                status: update_l2_settled_status(&self.snapshot, false),
            },
            Some(snapshot) => {
                if snapshot.page_count == 0 || snapshot.active_animation_stream_view.is_some()
                    || snapshot.animation_stream_request_id.is_some() || snapshot.prefetch_dir
                    == 0 {
                    return PumpOutcome {
                        dispatch_pages: none,
                        status: update_l2_settled_status(&self.snapshot, false),
                    };
                }
                let (pages, current_bytes, max_bytes): (Vec<u32>, usize, usize) =
                    refresh_bg_rgba_cache_limit(bg_rgba_cache, snapshot);
                let context: StreamingCacheContext = self.build_streaming_cache_context(
                    snapshot,
                    pages.as_slice(),
                    current_bytes,
                    max_bytes,
                    self.available_slots(snapshot),
                );
                let (dispatches, idle): (bool, bool) = match context.plan.stop_reason {
                    Some(StreamingCacheStopReason::CacheNotFullDispatch) => (true, false),
                    Some(StreamingCacheStopReason::PriorityImprovementDispatch) => (true, false),
                    Some(StreamingCacheStopReason::NoDispatchablePages) => (false, true),
                    Some(StreamingCacheStopReason::CacheFullNoPriorityImprovement) => (false, true),
                    _ => (false, false),
                };
                let dispatch_pages: Vec<u32> = if dispatches {
                    self.select_dispatch_pages(snapshot, &context.plan.dispatch_pages)
                } else {
                    none
                };
                PumpOutcome {
                    dispatch_pages,
                    status: update_l2_settled_status(
                        &self.snapshot,
                        idle && self.bg_inflight.len() == 0,
                    ),
                }
            },
        }
    }
}

/// What the planner worked with, next to its plan.
pub struct StreamingCacheContext {
    pub visible_pages: Vec<u32>,
    pub visible_page_set: HashSet<u32>,
    pub too_large_pages: HashSet<u32>,
    pub desired_sequence: Vec<u32>,
    pub plan: StreamingCachePlan,
}

/// The pages to send, and the status to publish.
pub struct PumpOutcome {
    pub dispatch_pages: Vec<u32>,
    pub status: L2StreamingStatus,
}

/// What to do once a result has been dealt with.
pub struct BgResultOutcome {
    /// More work may be due.
    pub pump: bool,
    /// A page has become available.
    pub repaint: bool,
    pub status: L2StreamingStatus,
    pub notification: Option<ViewerWorkerManagerNotification>,
}

/// A decoded page that is still wanted, on its way into the cache.
#[derive(Clone, Copy, Debug)]
pub struct ReceivedPage {
    pub entry: BgInflightEntry,
    pub frames: FrameSet,
}

impl ReceivedPage {
    pub open spec fn key(self) -> RgbaCacheKey {
        RgbaCacheKey { page: self.entry.page, render_signature: self.entry.render_signature }
    }

    pub open spec fn request_key(self) -> PageRenderSignatureKey {
        PageRenderSignatureKey {
            page: self.entry.page,
            render_signature: self.entry.render_signature,
        }
    }

    pub open spec fn cache_entry(self) -> CachedRgbaPage {
        page_entry(self.key(), self.frames, "background")
    }
}

/// A dropped result, as it is reported.
pub open spec fn dropped(request_id: u64, reason: &'static str) -> ViewerWorkerManagerNotification {
    ViewerWorkerManagerNotification::DroppedStale { request_id, reason }
}

impl ViewerWorkerManagerState {
    /// Whether the result answers a request that is in flight.
    pub open spec fn answers(self, result: BgResult) -> bool {
        self.snapshot is Some && !result.is_animation_chunk && tracks(
            self.bg_inflight@,
            result.request_id,
        )
    }

    pub open spec fn answered_request(self, result: BgResult) -> BgInflightEntry {
        self.bg_inflight@[request_index(self.bg_inflight@, result.request_id)]
    }

    /// Why a result does not reach the cache; `None` if and only if it does.
    pub open spec fn early_drop(self, result: BgResult) -> Option<&'static str> {
        match self.snapshot {
            None => Some("missing_snapshot"),
            Some(snapshot) => if result.is_animation_chunk {
                Some("animation_stream_not_managed_here")
            } else if !tracks(self.bg_inflight@, result.request_id) {
                Some("untracked_bg_result")
            } else if stale_result(snapshot, self.answered_request(result)) is Some {
                stale_result(snapshot, self.answered_request(result))
            } else {
                match result.page_frames() {
                    None => Some("background_empty_frames"),
                    Some(frames) => if frames.frame_count != 1 {
                        Some("background_non_static_frames")
                    } else {
                        None
                    },
                }
            },
        }
    }

    /// The page that a result brings to the cache.
    pub open spec fn received(self, result: BgResult) -> ReceivedPage {
        ReceivedPage { entry: self.answered_request(result), frames: result.page_frames()->0 }
    }

    fn drop_result(&self, request_id: u64, reason: &'static str) -> (outcome: BgResultOutcome)
        ensures
            !outcome.pump,
            !outcome.repaint,
            outcome.status == status_for(self.snapshot, false),
            outcome.notification == Some(dropped(request_id, reason)),
    {
        BgResultOutcome {
            pump: false,
            repaint: false,
            status: update_l2_settled_status(&self.snapshot, false),
            notification: Some(
                ViewerWorkerManagerNotification::DroppedStale { request_id, reason },
            ),
        }
    }

    /// Matches a result with its request, which is no longer in flight, and sorts out what is
    /// of no use.
    pub fn receive_result(&mut self, result: &BgResult) -> (received: Result<
        ReceivedPage,
        BgResultOutcome,
    >)
        requires
            old(self).wf(),
        ensures
            final(self).wf(),
            received is Ok <==> old(self).early_drop(*result) is None,
            received matches Ok(received) ==> received == old(self).received(*result),
            received matches Err(outcome) ==> {
                &&& !outcome.pump
                &&& !outcome.repaint
                &&& outcome.status == status_for(old(self).snapshot, false)
                &&& outcome.notification == Some(
                    dropped(result.request_id, old(self).early_drop(*result)->0),
                )
            },
            final(self).bg_inflight@ == if old(self).answers(*result) {
                without_request(old(self).bg_inflight@, result.request_id)
            } else {
                old(self).bg_inflight@
            },
            final(self).prefetch_inflight_pages_by_shard@ == if old(self).answers(*result) {
                slot_released(
                    old(self).prefetch_inflight_pages_by_shard@,
                    old(self).answered_request(*result).page,
                    old(self).background_worker_count,
                )
            } else {
                old(self).prefetch_inflight_pages_by_shard@
            },
            *final(self) == (ViewerWorkerManagerState {
                bg_inflight: final(self).bg_inflight,
                prefetch_inflight_pages_by_shard: final(self).prefetch_inflight_pages_by_shard,
                ..*old(self)
            }),
    {
        if self.snapshot.is_none() {
            return Err(self.drop_result(result.request_id, "missing_snapshot"));
        }
        if result.is_animation_chunk {
            return Err(
                self.drop_result(result.request_id, "animation_stream_not_managed_here"),
            );
        }
        let mut found: Option<usize> = None;
        let mut i: usize = 0;
        while i < self.bg_inflight.len() && found.is_none()
            invariant
                i <= self.bg_inflight@.len(),
                distinct_requests(self.bg_inflight@),
                found is None ==> forall|k: int|
                    0 <= k < i ==> (#[trigger] self.bg_inflight@[k]).request_id
                        != result.request_id,
                found matches Some(k) ==> k < self.bg_inflight@.len()
                    && self.bg_inflight@[k as int].request_id == result.request_id,
            decreases self.bg_inflight@.len() - i,
        {
            if self.bg_inflight[i].request_id == result.request_id {
                found = Some(i);
            }
            i = i + 1;
        }
        let index: usize = match found {
            Some(index) => index,
            None => {
                return Err(self.drop_result(result.request_id, "untracked_bg_result"));
            },
        };
        assert(tracks(self.bg_inflight@, result.request_id));
        let ghost at = request_index(self.bg_inflight@, result.request_id);
        assert(self.bg_inflight@[at].request_id == result.request_id);
        assert(at == index);
        let entry: BgInflightEntry = self.bg_inflight.remove(index);
        self.release_prefetch_inflight_slot(entry.page);
        let stale: Option<&'static str> = match &self.snapshot {
            Some(snapshot) => bg_result_is_stale(snapshot, &entry),
            None => None,
        };
        match stale {
            Some(reason) => {
                return Err(self.drop_result(result.request_id, reason));
            },
            None => {},
        }
        let frames: FrameSet = match result.frames() {
            Some(frames) => frames,
            None => {
                return Err(self.drop_result(result.request_id, "background_empty_frames"));
            },
        };
        if RgbaPageCache::static_rgba_bytes(&frames).is_none() {
            return Err(self.drop_result(result.request_id, "background_non_static_frames"));
        }
        Ok(ReceivedPage { entry, frames })
    }

    /// What is reported where a page has arrived and the cache cannot be had.
    pub fn cache_unavailable(&self) -> (outcome: BgResultOutcome)
        ensures
            !outcome.pump,
            !outcome.repaint,
            outcome.status == status_for(self.snapshot, false),
            outcome.notification matches Some(
                ViewerWorkerManagerNotification::Error { message },
            ) && message@ == "bg cache lock poisoned"@,
    {
        BgResultOutcome {
            pump: false,
            repaint: false,
            status: update_l2_settled_status(&self.snapshot, false),
            notification: Some(
                ViewerWorkerManagerNotification::Error {
                    message: "bg cache lock poisoned".to_owned(),
                },
            ),
        }
    }

    /// The question whether a received page enters a cache under the snapshot's limit.
    pub open spec fn admission_of(self, received: ReceivedPage, cache: CacheState) -> Admission {
        let snapshot = self.snapshot->0;
        Admission {
            desired_sequence: snapshot.desired(),
            cache_pages: pages_in_order(cache.entries),
            page_eviction_bytes: eviction_bytes(cache.entries),
            cache_current_bytes: monus(
                cache.bytes,
                super::rgba_page_cache::bytes_under(cache.entries, received.key()),
            ) as usize,
            cache_max_bytes: snapshot.limit_bytes() as usize,
            completed_page: received.entry.page,
            completed_entry_bytes: received.frames.first_frame_bytes,
            visible_pages: snapshot.visible().to_set(),
            protected_pages: snapshot.visible().to_set(),
        }
    }

    /// The pages that go for a received page that is let in.
    pub open spec fn victims_of(self, received: ReceivedPage, cache: CacheState) -> Seq<u32> {
        let admission = self.admission_of(received, cache);
        if admission.fits() {
            Seq::empty()
        } else {
            admission.chosen()
        }
    }

    /// Lets a received page into the cache, or not, by the present order of importance.
    pub fn admit_received(&mut self, bg_rgba_cache: &mut RgbaPageCache, received: ReceivedPage) -> (
    outcome: BgResultOutcome)
        requires
            old(self).wf(),
            old(self).snapshot is Some,
            old(bg_rgba_cache).wf(),
        ensures
            final(self).wf(),
            final(bg_rgba_cache).wf(),
            ({
                let cache = old(self).refreshed(old(bg_rgba_cache)@);
                let admission = old(self).admission_of(received, cache);
                let visible = old(self).snapshot->0.visible().to_set();
                let victims = old(self).victims_of(received, cache);
                let report = cache.stored_over_outcome(received.cache_entry(), victims, visible);
                let key = received.request_key();
                &&& outcome.pump
                &&& outcome.status == status_for(
                    old(self).snapshot,
                    old(self).bg_inflight@.len() == 0,
                )
                &&& admission.drop_reason() is Some ==> {
                    &&& final(bg_rgba_cache)@ == cache
                    &&& !outcome.repaint
                    &&& outcome.notification is None
                    &&& final(self).bg_cache_saturated == old(self).bg_cache_saturated
                    &&& final(self).bg_admission_state@ == if admission.drop_reason() == Some(
                        StreamingCompletionDropReason::TooLargeForBgRgba,
                    ) {
                        noted(
                            old(self).bg_admission_state@,
                            key,
                            BgAdmissionState::TooLargeForBgRgba,
                        )
                    } else {
                        old(self).bg_admission_state@
                    }
                }
                &&& admission.drop_reason() is None ==> {
                    &&& final(bg_rgba_cache)@ == cache.stored_over(
                        received.cache_entry(),
                        victims,
                        visible,
                    )
                    &&& outcome.repaint == report.inserted_survived
                    &&& outcome.notification == if report.inserted_survived {
                        None
                    } else {
                        Some(dropped(received.entry.request_id, "background_insert_evicted"))
                    }
                    &&& final(self).bg_cache_saturated == (old(self).bg_cache_saturated
                        || report.eviction.evicted_count > 0 || !report.inserted_survived)
                    &&& final(self).bg_admission_state@ == noted(
                        old(self).bg_admission_state@,
                        key,
                        if report.inserted_survived {
                            BgAdmissionState::Admissible
                        } else {
                            BgAdmissionState::InsertDidNotSurvive
                        },
                    )
                }
            }),
            *final(self) == (ViewerWorkerManagerState {
                bg_cache_saturated: final(self).bg_cache_saturated,
                bg_admission_state: final(self).bg_admission_state,
                ..*old(self)
            }),
    {
        let settled: bool = self.bg_inflight.len() == 0;
        let status: L2StreamingStatus = update_l2_settled_status(&self.snapshot, settled);
        let key = RgbaCacheKey {
            page: received.entry.page,
            render_signature: received.entry.render_signature,
        };
        let request_key: PageRenderSignatureKey = received.entry.key();
        let ghost cache = self.refreshed(bg_rgba_cache@);
        let inserted: Result<RgbaInsertOutcome, bool> = match &self.snapshot {
            None => Err(false),
            Some(snapshot) => {
                let (pages, current_bytes, max_bytes): (Vec<u32>, usize, usize) =
                    refresh_bg_rgba_cache_limit(bg_rgba_cache, snapshot);
                let page_eviction_bytes: HashMap<u32, usize> = bg_cache_page_eviction_bytes(
                    bg_rgba_cache,
                );
                let context: StreamingCacheContext = self.build_streaming_cache_context(
                    snapshot,
                    pages.as_slice(),
                    current_bytes,
                    max_bytes,
                    self.available_slots(snapshot),
                );
                let existing_exact_bytes: usize = bg_rgba_cache.bytes_of(&key);
                let admission: StreamingCompletionAdmissionPlan =
                    StreamingCachePlanner::plan_completion_admission(
                    StreamingCompletionAdmissionInput {
                        desired_sequence: context.desired_sequence.as_slice(),
                        cache_pages: pages.as_slice(),
                        page_eviction_bytes: &page_eviction_bytes,
                        cache_current_bytes: current_bytes.saturating_sub(existing_exact_bytes),
                        cache_max_bytes: max_bytes,
                        completed_page: received.entry.page,
                        completed_entry_bytes: received.frames.first_frame_bytes,
                        visible_pages: &context.visible_page_set,
                        protected_pages: &context.visible_page_set,
                    },
                );
                if !admission.admitted {
                    Err(
                        admission.drop_reason == Some(
                            StreamingCompletionDropReason::TooLargeForBgRgba,
                        ),
                    )
                } else {
                    Ok(
                        bg_rgba_cache.insert_with_eviction_candidates(
                            key,
                            received.frames,
                            "background",
                            &admission.evict_candidates,
                            &context.visible_page_set,
                        ),
                    )
                }
            },
        };
        match inserted {
            Err(too_large) => {
                if too_large {
                    note_admission(
                        &mut self.bg_admission_state,
                        request_key,
                        BgAdmissionState::TooLargeForBgRgba,
                    );
                }
                BgResultOutcome { pump: true, repaint: false, status, notification: None }
            },
            Ok(inserted) => {
                if inserted.eviction.evicted_count > 0 || !inserted.inserted_survived {
                    self.bg_cache_saturated = true;
                }
                if !inserted.inserted || !inserted.inserted_survived {
                    note_admission(
                        &mut self.bg_admission_state,
                        request_key,
                        BgAdmissionState::InsertDidNotSurvive,
                    );
                    BgResultOutcome {
                        pump: true,
                        repaint: false,
                        status,
                        notification: Some(
                            ViewerWorkerManagerNotification::DroppedStale {
                                request_id: received.entry.request_id,
                                reason: "background_insert_evicted",
                            },
                        ),
                    }
                } else {
                    note_admission(
                        &mut self.bg_admission_state,
                        request_key,
                        BgAdmissionState::Admissible,
                    );
                    BgResultOutcome { pump: true, repaint: true, status, notification: None }
                }
            },
        }
    }

    /// Deals with one result: sorts out what is of no use, and lets the rest into the cache or
    /// not.
    pub fn handle_background_result_streaming(
        &mut self,
        bg_rgba_cache: &mut RgbaPageCache,
        result: &BgResult,
    ) -> (outcome: BgResultOutcome)
        requires
            old(self).wf(),
            old(bg_rgba_cache).wf(),
        ensures
            final(self).wf(),
            final(bg_rgba_cache).wf(),
            outcome.pump == (old(self).early_drop(*result) is None),
            old(self).early_drop(*result) matches Some(reason) ==> {
                &&& final(bg_rgba_cache)@ == old(bg_rgba_cache)@
                &&& !outcome.repaint
                &&& outcome.status == status_for(old(self).snapshot, false)
                &&& outcome.notification == Some(dropped(result.request_id, reason))
                &&& final(self).bg_cache_saturated == old(self).bg_cache_saturated
                &&& final(self).bg_admission_state@ == old(self).bg_admission_state@
            },
            old(self).early_drop(*result) is None ==> ({
                let received = old(self).received(*result);
                let cache = old(self).refreshed(old(bg_rgba_cache)@);
                let admission = old(self).admission_of(received, cache);
                let visible = old(self).snapshot->0.visible().to_set();
                let victims = old(self).victims_of(received, cache);
                let report = cache.stored_over_outcome(received.cache_entry(), victims, visible);
                &&& outcome.status == status_for(
                    old(self).snapshot,
                    final(self).bg_inflight@.len() == 0,
                )
                &&& final(bg_rgba_cache)@ == if admission.drop_reason() is Some {
                    cache
                } else {
                    cache.stored_over(received.cache_entry(), victims, visible)
                }
                &&& outcome.repaint == (admission.drop_reason() is None
                    && report.inserted_survived)
                &&& outcome.notification == if admission.drop_reason() is Some
                    || report.inserted_survived {
                    None
                } else {
                    Some(dropped(result.request_id, "background_insert_evicted"))
                }
                &&& final(self).bg_cache_saturated == (old(self).bg_cache_saturated || (
                admission.drop_reason() is None && (report.eviction.evicted_count > 0
                    || !report.inserted_survived)))
                &&& final(self).bg_admission_state@ == if admission.drop_reason() is None {
                    noted(
                        old(self).bg_admission_state@,
                        received.request_key(),
                        if report.inserted_survived {
                            BgAdmissionState::Admissible
                        } else {
                            BgAdmissionState::InsertDidNotSurvive
                        },
                    )
                } else if admission.drop_reason() == Some(
                    StreamingCompletionDropReason::TooLargeForBgRgba,
                ) {
                    noted(
                        old(self).bg_admission_state@,
                        received.request_key(),
                        BgAdmissionState::TooLargeForBgRgba,
                    )
                } else {
                    old(self).bg_admission_state@
                }
            }),
            final(self).bg_inflight@ == if old(self).answers(*result) {
                without_request(old(self).bg_inflight@, result.request_id)
            } else {
                old(self).bg_inflight@
            },
            final(self).prefetch_inflight_pages_by_shard@ == if old(self).answers(*result) {
                slot_released(
                    old(self).prefetch_inflight_pages_by_shard@,
                    old(self).answered_request(*result).page,
                    old(self).background_worker_count,
                )
            } else {
                old(self).prefetch_inflight_pages_by_shard@
            },
            *final(self) == (ViewerWorkerManagerState {
                bg_inflight: final(self).bg_inflight,
                prefetch_inflight_pages_by_shard: final(self).prefetch_inflight_pages_by_shard,
                bg_cache_saturated: final(self).bg_cache_saturated,
                bg_admission_state: final(self).bg_admission_state,
                ..*old(self)
            }),
    {
        proof {
            if self.answers(*result) {
                let at = request_index(self.bg_inflight@, result.request_id);
                assert(self.bg_inflight@[at].request_id == result.request_id);
            }
        }
        match self.receive_result(result) {
            Ok(received) => self.admit_received(bg_rgba_cache, received),
            Err(outcome) => outcome,
        }
    }

    /// The number of requests in flight, of pages that could be sent, and what holds them up.
    pub fn capture_debug_state_streaming(&self, bg_rgba_cache: &mut RgbaPageCache) -> (state:
        ViewerWorkerManagerDebugState)
        requires
            self.wf(),
            old(bg_rgba_cache).wf(),
        ensures
            final(bg_rgba_cache).wf(),
            final(bg_rgba_cache)@ == self.refreshed(old(bg_rgba_cache)@),
            state.inflight_by_request_id == self.bg_inflight@.len(),
            self.snapshot is None ==> state.fifo_len == 0 && state.dispatch_limit_reason is None,
            self.snapshot is Some ==> ({
                let plan = self.pump_plan(final(bg_rgba_cache)@);
                &&& state.fifo_len == plan.dispatch.len()
                &&& state.dispatch_limit_reason == Some(stop_reason_text(plan.stop_reason))
            }),
    {
        match &self.snapshot {
            None => ViewerWorkerManagerDebugState {
                inflight_by_request_id: self.bg_inflight.len(),
                fifo_len: 0,
                dispatch_limit_reason: None,
            },
            Some(snapshot) => {
                let (pages, current_bytes, max_bytes): (Vec<u32>, usize, usize) =
                    refresh_bg_rgba_cache_limit(bg_rgba_cache, snapshot);
                let context: StreamingCacheContext = self.build_streaming_cache_context(
                    snapshot,
                    pages.as_slice(),
                    current_bytes,
                    max_bytes,
                    self.available_slots(snapshot),
                );
                ViewerWorkerManagerDebugState {
                    inflight_by_request_id: self.bg_inflight.len(),
                    fifo_len: context.plan.dispatch_pages.len(),
                    dispatch_limit_reason: match context.plan.stop_reason {
                        Some(reason) => Some(stop_reason_label(reason)),
                        None => None,
                    },
                }
            },
        }
    }

    /// Takes over a new snapshot. Where it changes the conditions of the background work, what
    /// is in flight and what has been learnt of single pages is forgotten.
    pub fn apply_update(&mut self, snapshot: ViewerWorkerManagerSnapshot)
        requires
            old(self).wf(),
            snapshot.wf(),
        ensures
            final(self).wf(),
            Self::took_over(*old(self), snapshot, *final(self)),
    {
        let worker_count: usize = snapshot.background_worker_count;
        if bg_cache_saturation_reset_required(&self.snapshot, &snapshot) {
            self.bg_cache_saturated = false;
            self.bg_inflight = Vec::new();
            self.prefetch_inflight_pages_by_shard = all_slots_free(worker_count);
            self.bg_admission_state = Vec::new();
        }
        self.active_generation = Some(snapshot.generation);
        if self.background_worker_count != worker_count {
            self.background_worker_count = worker_count;
            self.prefetch_inflight_pages_by_shard = all_slots_free(worker_count);
        }
        self.snapshot = Some(snapshot);
    }

    /// Applies a command: a new snapshot is taken over and work is planned for it.
    pub fn apply_worker_manager_command(
        &mut self,
        command: ViewerWorkerManagerCommand,
        bg_rgba_cache: &mut RgbaPageCache,
    ) -> (outcome: (WorkerManagerCommandOutcome, Option<PumpOutcome>))
        requires
            old(self).wf(),
            old(bg_rgba_cache).wf(),
            command matches ViewerWorkerManagerCommand::Update(snapshot) ==> snapshot.wf(),
        ensures
            final(self).wf(),
            final(bg_rgba_cache).wf(),
            outcome.0 == match command {
                ViewerWorkerManagerCommand::Update(_) => WorkerManagerCommandOutcome::UpdateApplied,
                ViewerWorkerManagerCommand::DebugState => WorkerManagerCommandOutcome::Continue,
                ViewerWorkerManagerCommand::Shutdown => WorkerManagerCommandOutcome::Shutdown,
            },
            !(command is Update) ==> outcome.1 is None && *final(self) == *old(self)
                && *final(bg_rgba_cache) == *old(bg_rgba_cache),
            command matches ViewerWorkerManagerCommand::Update(snapshot) ==> {
                &&& Self::took_over(*old(self), snapshot, *final(self))
                &&& outcome.1 is Some
                &&& final(self).pumped(final(bg_rgba_cache)@, outcome.1->0)
                &&& final(bg_rgba_cache)@ == if final(self).work_is_due() {
                    final(self).refreshed(old(bg_rgba_cache)@)
                } else {
                    old(bg_rgba_cache)@
                }
            },
    {
        match command {
            ViewerWorkerManagerCommand::Update(snapshot) => {
                self.apply_update(snapshot);
                let pumped: PumpOutcome = self.pump_background_work(bg_rgba_cache);
                (WorkerManagerCommandOutcome::UpdateApplied, Some(pumped))
            },
            ViewerWorkerManagerCommand::DebugState => (WorkerManagerCommandOutcome::Continue, None),
            ViewerWorkerManagerCommand::Shutdown => (WorkerManagerCommandOutcome::Shutdown, None),
        }
    }
}

/// A free slot for each shard.
pub open spec fn free_slots(worker_count: usize) -> Seq<Option<u32>> {
    Seq::new(greatest(worker_count as int, 1) as nat, |i: int| None::<u32>)
}

fn all_slots_free(worker_count: usize) -> (slots: Vec<Option<u32>>)
    ensures
        slots@ == free_slots(worker_count),
{
    let count: usize = max_usize(worker_count, 1);
    let mut slots: Vec<Option<u32>> = Vec::new();
    let mut i: usize = 0;
    while i < count
        invariant
            i <= count,
            slots@.len() == i,
            forall|k: int| 0 <= k < i ==> (#[trigger] slots@[k]) is None,
        decreases count - i,
    {
        slots.push(None);
        i = i + 1;
    }
    assert(slots@ =~= free_slots(worker_count));
    slots
}

pub open spec fn stop_reason_text(reason: StreamingCacheStopReason) -> &'static str {
    match reason {
        StreamingCacheStopReason::NoWorkerCapacity => "no_worker_capacity",
        StreamingCacheStopReason::CacheLimitUnavailable => "cache_limit_unavailable",
        StreamingCacheStopReason::CacheNotFullDispatch => "cache_not_full_dispatch",
        StreamingCacheStopReason::PriorityImprovementDispatch => "priority_improvement_dispatch",
        StreamingCacheStopReason::CacheFullNoPriorityImprovement =>
            "cache_full_no_priority_improvement",
        StreamingCacheStopReason::NoDispatchablePages => "no_dispatchable_pages",
    }
}

pub fn stop_reason_label(reason: StreamingCacheStopReason) -> (text: &'static str)
    ensures
        text == stop_reason_text(reason),
{
    match reason {
        StreamingCacheStopReason::NoWorkerCapacity => "no_worker_capacity",
        StreamingCacheStopReason::CacheLimitUnavailable => "cache_limit_unavailable",
        StreamingCacheStopReason::CacheNotFullDispatch => "cache_not_full_dispatch",
        StreamingCacheStopReason::PriorityImprovementDispatch => "priority_improvement_dispatch",
        StreamingCacheStopReason::CacheFullNoPriorityImprovement =>
            "cache_full_no_priority_improvement",
        StreamingCacheStopReason::NoDispatchablePages => "no_dispatchable_pages",
    }
}

/// The pages that are sent are among the planned ones, no more than there are free workers, none
/// to a shard that is busy or spoken for, and no two to one shard.
pub proof fn law_dispatch_respects_the_workers(
    pages: Seq<u32>,
    worker_count: usize,
    slots: Seq<Option<u32>>,
    available: nat,
    chosen: Seq<bool>,
)
    requires
        chosen.len() == greatest(worker_count as int, 1),
    ensures
        ({
            let sent = dispatch_choice(pages, worker_count, slots, available, chosen);
            &&& sent.len() <= available
            &&& forall|i: int|
                0 <= i < sent.len() ==> {
                    &&& pages.contains(#[trigger] sent[i])
                    &&& !chosen[shard_of(sent[i], worker_count)]
                    &&& !(shard_of(sent[i], worker_count) < slots.len() && slots[shard_of(
                        sent[i],
                        worker_count,
                    )] is Some)
                }
            &&& forall|i: int, j: int|
                0 <= i < j < sent.len() ==> shard_of(#[trigger] sent[i], worker_count) != shard_of(
                    #[trigger] sent[j],
                    worker_count,
                )
        }),
    decreases pages.len(),
{
    if pages.len() > 0 && available > 0 {
        let rest = pages.drop_first();
        let page = pages[0];
        let shard = shard_of(page, worker_count);
        let busy = shard < slots.len() && slots[shard] is Some;
        let sent = dispatch_choice(pages, worker_count, slots, available, chosen);
        if chosen[shard] || busy {
            law_dispatch_respects_the_workers(rest, worker_count, slots, available, chosen);
            assert forall|i: int| 0 <= i < sent.len() implies pages.contains(
                #[trigger] sent[i],
            ) by {
                let k = choose|k: int| 0 <= k < rest.len() && rest[k] == sent[i];
                assert(pages[k + 1] == sent[i]);
            }
        } else {
            let marked = chosen.update(shard, true);
            law_dispatch_respects_the_workers(
                rest,
                worker_count,
                slots,
                (available - 1) as nat,
                marked,
            );
            let later = dispatch_choice(
                rest,
                worker_count,
                slots,
                (available - 1) as nat,
                marked,
            );
            assert forall|i: int| 0 <= i < sent.len() implies {
                &&& pages.contains(#[trigger] sent[i])
                &&& !chosen[shard_of(sent[i], worker_count)]
                &&& !(shard_of(sent[i], worker_count) < slots.len() && slots[shard_of(
                    sent[i],
                    worker_count,
                )] is Some)
            } by {
                if i > 0 {
                    assert(sent[i] == later[i - 1]);
                    let k = choose|k: int| 0 <= k < rest.len() && rest[k] == later[i - 1];
                    assert(pages[k + 1] == sent[i]);
                    assert(!marked[shard_of(later[i - 1], worker_count)]);
                }
            }
            assert forall|i: int, j: int| 0 <= i < j < sent.len() implies shard_of(
                #[trigger] sent[i],
                worker_count,
            ) != shard_of(#[trigger] sent[j], worker_count) by {
                assert(sent[j] == later[j - 1]);
                assert(!marked[shard_of(later[j - 1], worker_count)]);
                if i > 0 {
                    assert(sent[i] == later[i - 1]);
                }
            }
        }
    }
}

/// A request made under a snapshot is answered under the same snapshot: its result is not stale.
pub proof fn law_request_is_current_for_its_snapshot(
    snapshot: ViewerWorkerManagerSnapshot,
    page: u32,
    request_id: u64,
)
    ensures
        stale_result(
            snapshot,
            ViewerWorkerManagerState::request_for(snapshot, page, request_id),
        ) is None,
{
}

/// Releasing the slot that a page took leaves the slots as they were.
pub proof fn law_slot_is_given_back(slots: Seq<Option<u32>>, page: u32, worker_count: usize)
    requires
        shard_of(page, worker_count) < slots.len() ==> slots[shard_of(page, worker_count)] is None,
    ensures
        slot_released(slot_taken(slots, page, worker_count), page, worker_count) == slots,
{
    assert(slot_released(slot_taken(slots, page, worker_count), page, worker_count) =~= slots);
}

/// Pages on screen are the one or two that the snapshot names.
proof fn lemma_visible(snapshot: ViewerWorkerManagerSnapshot, page: u32)
    ensures
        snapshot.visible().contains(page) <==> snapshot.visible_page_first == Some(page)
            || snapshot.visible_page_second == Some(page),
        snapshot.visible().no_duplicates(),
        snapshot.visible().len() <= 2,
{
    let visible = snapshot.visible();
    if let Some(first) = snapshot.visible_page_first {
        assert(visible[0] == first);
    }
    if let Some(second) = snapshot.visible_page_second {
        if visible.len() > 0 && visible[0] != second {
            assert(visible.last() == second);
        }
    }
}

/// Background work starts where reading is going: the first page that it asks for and that is not
/// on screen is the latest page that input led to while inputs follow fast, the page on its way
/// while one is loaded, and else the page that was shown last.
pub proof fn law_background_work_starts_where_reading_goes(
    snapshot: ViewerWorkerManagerSnapshot,
    page: u32,
)
    requires
        snapshot.spread_setting != SpreadMode::Auto || snapshot.auto_spread_plan is None,
        page < snapshot.page_count,
        snapshot.nav_mode_follow_latest ==> page == snapshot.target_page,
        !snapshot.nav_mode_follow_latest && snapshot.loading ==> page == snapshot.requested_page,
        !snapshot.nav_mode_follow_latest && !snapshot.loading ==> page == snapshot.displayed_page,
        snapshot.visible_page_first != Some(page) && snapshot.visible_page_second != Some(page),
    ensures
        exists|k: int|
            0 <= k < snapshot.desired().len() && #[trigger] snapshot.desired()[k] == page
                && forall|i: int|
                0 <= i < k ==> snapshot.visible_page_first == Some(#[trigger] snapshot.desired()[i])
                    || snapshot.visible_page_second == Some(snapshot.desired()[i]),
{
    lemma_visible(snapshot, page);
    law_current_page_is_decoded_first(page, snapshot.page_count, snapshot.visible());
    let order = snapshot.desired();
    assert(first_but_for(order, snapshot.visible(), page));
    let k = choose|k: int|
        0 <= k < order.len() && #[trigger] order[k] == page && forall|i: int|
            0 <= i < k ==> snapshot.visible().contains(#[trigger] order[i]);
    assert forall|i: int| 0 <= i < k implies snapshot.visible_page_first == Some(
        #[trigger] order[i],
    ) || snapshot.visible_page_second == Some(order[i]) by {
        assert(snapshot.visible().contains(order[i]));
        lemma_visible(snapshot, order[i]);
    }
    assert(snapshot.desired()[k] == page);
}

/// With automatic pairing, background work starts with the pages that are shown together with the
/// page that reading goes to: they come before every page that is not on screen.
pub proof fn law_background_work_starts_with_the_unit_ahead(
    snapshot: ViewerWorkerManagerSnapshot,
    page: u32,
    p: u32,
    q: u32,
)
    requires
        snapshot.spread_setting == SpreadMode::Auto,
        snapshot.auto_spread_plan matches Some(plan) && (*plan).wf() && (*plan).page_count()
            == snapshot.page_count,
        page < snapshot.page_count && p < snapshot.page_count && q < snapshot.page_count,
        snapshot.nav_mode_follow_latest ==> page == snapshot.target_page,
        !snapshot.nav_mode_follow_latest && snapshot.loading ==> page == snapshot.requested_page,
        !snapshot.nav_mode_follow_latest && !snapshot.loading ==> page == snapshot.displayed_page,
        (*snapshot.auto_spread_plan->0).unit_of(page as int).covers(p as int),
        !(*snapshot.auto_spread_plan->0).unit_of(page as int).covers(q as int),
        snapshot.visible_page_first != Some(q) && snapshot.visible_page_second != Some(q),
    ensures
        before(snapshot.desired(), p, q),
{
    let plan = *snapshot.auto_spread_plan->0;
    lemma_visible(snapshot, q);
    assert(plan.units@[plan.page_to_unit@[page as int] as int].covers(p as int));
    assert(plan.unit_of(q as int).covers(q as int));
    law_current_unit_is_decoded_first(
        plan,
        page,
        snapshot.page_count,
        snapshot.visible(),
        p,
        q,
    );
}

/// The anchor of background work is the page that reading goes to, held within the book.
pub proof fn law_anchor_is_where_reading_goes(snapshot: ViewerWorkerManagerSnapshot)
    requires
        snapshot.page_count > 0,
    ensures
        snapshot.anchor_page() < snapshot.page_count,
        snapshot.nav_mode_follow_latest && snapshot.target_page < snapshot.page_count
            ==> snapshot.anchor_page() == snapshot.target_page,
        !snapshot.nav_mode_follow_latest && snapshot.loading && snapshot.requested_page
            < snapshot.page_count ==> snapshot.anchor_page() == snapshot.requested_page,
        !snapshot.nav_mode_follow_latest && !snapshot.loading && snapshot.displayed_page
            < snapshot.page_count ==> snapshot.anchor_page() == snapshot.displayed_page,
        snapshot.base_page() >= snapshot.page_count ==> snapshot.anchor_page() + 1
            == snapshot.page_count,
{
}

/// A page that would be decoded in the background is sized for its own screen: the whole area
/// alone, and half of it, rounded up, where it shares the screen with a page or a blank.
pub proof fn law_shared_screens_halve_the_width(snapshot: ViewerWorkerManagerSnapshot, page: u32)
    requires
        snapshot.full_equivalent_area_w > 0,
    ensures
        ({
            let (first, second) = snapshot.pages_at(page);
            let full = snapshot.full_equivalent_area_w as int;
            let shared = second is Some || (snapshot.cover_blank && page == 0
                && snapshot.spread_setting != SpreadMode::Single && snapshot.page_count > 0);
            &&& !shared ==> snapshot.signature_at(page).target_w == full
            &&& shared ==> full <= 2 * snapshot.signature_at(page).target_w <= full + 1
            &&& snapshot.signature_at(page).target_h == snapshot.full_equivalent_area_h
            &&& snapshot.signature_at(page).quality == snapshot.quality
            &&& snapshot.signature_at(page).max_tex_side == snapshot.max_tex_side
        }),
{
}

/// The screen that a page is decoded for shows that page.
pub proof fn law_screens_show_their_page(snapshot: ViewerWorkerManagerSnapshot, page: u32)
    requires
        snapshot.wf(),
    ensures
        page < snapshot.page_count <==> snapshot.pages_at(page).0 is Some,
        page < snapshot.page_count ==> snapshot.pages_at(page).0 == Some(page)
            || snapshot.pages_at(page).1 == Some(page),
        snapshot.pages_at(page).1 matches Some(second) ==> snapshot.pages_at(page).0 == Some(
            (second - 1) as u32,
        ),
        snapshot.spread_setting == SpreadMode::Single ==> snapshot.pages_at(page).1 is None,
        snapshot.spread_setting == SpreadMode::Spread && page + 1 < snapshot.page_count && !(
        snapshot.cover_blank && page == 0) ==> snapshot.pages_at(page) == (
            Some(page),
            Some((page + 1) as u32),
        ),
        snapshot.cover_blank && page == 0 ==> snapshot.pages_at(page).1 is None,
{
    if snapshot.auto_spread_plan is Some {
        let plan = *snapshot.auto_spread_plan->0;
        if page < plan.page_count() {
            let unit = plan.unit_of(page as int);
            assert(unit.covers(page as int) && unit.wf());
        }
    }
}

/// Under the same conditions what is known carries over, under others it does not: each condition
/// counts by itself.
pub proof fn law_other_conditions_start_over(
    previous: ViewerWorkerManagerSnapshot,
    next: ViewerWorkerManagerSnapshot,
)
    ensures
        conditions_changed(None, next),
        !conditions_changed(Some(next), next),
        conditions_changed(Some(previous), next) == conditions_changed(Some(next), previous),
        previous.book_id != next.book_id ==> conditions_changed(Some(previous), next),
        previous.quality != next.quality ==> conditions_changed(Some(previous), next),
        previous.spread_setting != next.spread_setting ==> conditions_changed(Some(previous), next),
        previous.cover_blank != next.cover_blank ==> conditions_changed(Some(previous), next),
        previous.rgba_cache_max_mb != next.rgba_cache_max_mb ==> conditions_changed(
            Some(previous),
            next,
        ),
        previous.max_tex_side != next.max_tex_side || previous.full_equivalent_area_w
            != next.full_equivalent_area_w || previous.full_equivalent_area_h
            != next.full_equivalent_area_h ==> conditions_changed(Some(previous), next),
{
}

/// Turning pages does not start the background work over.
pub proof fn law_turning_pages_carries_over(
    snapshot: ViewerWorkerManagerSnapshot,
    requested: u32,
    displayed: u32,
    target: u32,
    loading: bool,
)
    ensures
        !conditions_changed(
            Some(snapshot),
            (ViewerWorkerManagerSnapshot {
                requested_page: requested,
                displayed_page: displayed,
                target_page: target,
                loading,
                ..snapshot
            }),
        ),
{
}

/// The limit of the cache is given in mebibytes.
pub proof fn law_cache_limit_is_in_mebibytes(snapshot: ViewerWorkerManagerSnapshot)
    requires
        snapshot.rgba_cache_max_mb * 1_048_576 <= usize::MAX,
    ensures
        snapshot.limit_bytes() == snapshot.rgba_cache_max_mb * 1_048_576,
{
}

/// A result counts under the conditions that it was asked for under, and under no others: another
/// book, quality, size, texture limit, pairing or blank page makes it stale.
pub proof fn law_results_of_other_conditions_are_stale(
    snapshot: ViewerWorkerManagerSnapshot,
    entry: BgInflightEntry,
)
    ensures
        snapshot.book_id != entry.render_context.book_id ==> stale_result(snapshot, entry) == Some(
            "book_changed",
        ),
        snapshot.book_id == entry.render_context.book_id && (snapshot.quality
            != entry.render_context.quality || snapshot.max_tex_side
            != entry.render_context.max_tex_side || snapshot.full_equivalent_area_w
            != entry.render_context.full_equivalent_area_w || snapshot.full_equivalent_area_h
            != entry.render_context.full_equivalent_area_h || snapshot.spread_setting
            != entry.render_context.spread_setting || snapshot.cover_blank
            != entry.render_context.cover_blank || snapshot.signature_at(entry.page)
            != entry.render_signature) ==> stale_result(snapshot, entry) == Some(
            "render_condition_changed",
        ),
{
}

/// A result reaches the cache only as a still page that answers a request in flight under the
/// present conditions; else it is dropped, and the reason is told.
pub proof fn law_only_awaited_pages_reach_the_cache(
    state: ViewerWorkerManagerState,
    result: BgResult,
)
    ensures
        state.early_drop(result) is None ==> {
            &&& state.snapshot is Some
            &&& !result.is_animation_chunk
            &&& tracks(state.bg_inflight@, result.request_id)
            &&& result.page_frames() matches Some(frames) && frames.frame_count == 1
        },
        state.snapshot is None ==> state.early_drop(result) == Some("missing_snapshot"),
        state.snapshot is Some && result.is_animation_chunk ==> state.early_drop(result) == Some(
            "animation_stream_not_managed_here",
        ),
        state.snapshot is Some && !result.is_animation_chunk && !tracks(
            state.bg_inflight@,
            result.request_id,
        ) ==> state.early_drop(result) == Some("untracked_bg_result"),
        result.left is None && result.right is None ==> result.page_frames() is None,
        result.left is Some && !result.left_is_animation_stream ==> result.page_frames()
            == result.left,
        result.left is None && result.right is Some && !result.right_is_animation_stream
            ==> result.page_frames() == result.right,
        result.left_is_animation_stream && result.right_is_animation_stream
            ==> result.page_frames() is None,
{
}

/// What is noted of a page under its conditions is what was noted last, and notes on others stay.
pub proof fn law_latest_note_counts(
    states: Seq<(PageRenderSignatureKey, BgAdmissionState)>,
    key: PageRenderSignatureKey,
    state: BgAdmissionState,
    other: (PageRenderSignatureKey, BgAdmissionState),
)
    ensures
        noted(states, key, state).contains((key, state)),
        other.0 != key ==> (noted(states, key, state).contains(other) <==> states.contains(other)),
        states.len() <= noted(states, key, state).len() <= states.len() + 1,
    decreases states.len(),
{
    let done = noted(states, key, state);
    if states.len() == 0 {
        assert(done[0] == (key, state));
        if other.0 != key && done.contains(other) {
            let i = choose|i: int| 0 <= i < done.len() && done[i] == other;
        }
    } else {
        let rest = states.drop_first();
        if states[0].0 == key {
            assert(done[0] == (key, state));
            if other.0 != key && done.contains(other) {
                let i = choose|i: int| 0 <= i < done.len() && done[i] == other;
                assert(done[i] == states[i]);
            }
            if other.0 != key && states.contains(other) {
                let i = choose|i: int| 0 <= i < states.len() && states[i] == other;
                assert(done[i] == other);
            }
        } else {
            law_latest_note_counts(rest, key, state, other);
            let later = noted(rest, key, state);
            let k = choose|k: int| 0 <= k < later.len() && later[k] == (key, state);
            assert(done[k + 1] == (key, state));
            if other.0 != key && done.contains(other) {
                let i = choose|i: int| 0 <= i < done.len() && done[i] == other;
                if i == 0 {
                    assert(states[0] == other);
                } else {
                    assert(later[i - 1] == other);
                    let j = choose|j: int| 0 <= j < rest.len() && rest[j] == other;
                    assert(states[j + 1] == other);
                }
            }
            if other.0 != key && states.contains(other) {
                let i = choose|i: int| 0 <= i < states.len() && states[i] == other;
                if i == 0 {
                    assert(done[0] == other);
                } else {
                    assert(rest[i - 1] == other);
                    let j = choose|j: int| 0 <= j < later.len() && later[j] == other;
                    assert(done[j + 1] == other);
                }
            }
        }
    }
}

/// A page is not sent again once it was found too large or did not stay in the cache; a page that
/// was let in is no such page.
pub proof fn law_refused_pages_are_remembered(
    states: Seq<(PageRenderSignatureKey, BgAdmissionState)>,
    page: u32,
)
    ensures
        refused_pages(states).contains(page) <==> exists|i: int|
            0 <= i < states.len() && (#[trigger] states[i]).0.page == page && states[i].1
                != BgAdmissionState::Admissible,
    decreases states.len(),
{
    if states.len() > 0 {
        let front = states.drop_last();
        let last = states.len() - 1;
        law_refused_pages_are_remembered(front, page);
        if refused_pages(front).contains(page) {
            let i = choose|i: int|
                0 <= i < front.len() && (#[trigger] front[i]).0.page == page && front[i].1
                    != BgAdmissionState::Admissible;
            assert(states[i] == front[i]);
        }
        if refused(states.last().1) {
            super::page_sequences::lemma_pushed_contains(
                refused_pages(front),
                states.last().0.page,
                page,
            );
            assert(states[last].1 != BgAdmissionState::Admissible);
        }
        if exists|i: int|
            0 <= i < states.len() && (#[trigger] states[i]).0.page == page && states[i].1
                != BgAdmissionState::Admissible {
            let i = choose|i: int|
                0 <= i < states.len() && (#[trigger] states[i]).0.page == page && states[i].1
                    != BgAdmissionState::Admissible;
            if i < last {
                assert(front[i] == states[i]);
            }
        }
    }
}

/// The first planned page whose worker is free is sent, where any worker is.
pub proof fn law_first_page_with_a_free_worker_is_sent(
    pages: Seq<u32>,
    worker_count: usize,
    slots: Seq<Option<u32>>,
    available: nat,
    k: int,
)
    requires
        available > 0,
        worker_count > 0,
        slots.len() == worker_count,
        0 <= k < pages.len(),
        slots[pages[k] as int % worker_count as int] is None,
        forall|i: int|
            0 <= i < k ==> slots[(#[trigger] pages[i]) as int % worker_count as int] is Some,
    ensures
        ({
            let sent = dispatch_choice(
                pages,
                worker_count,
                slots,
                available,
                no_shards(worker_count),
            );
            sent.len() > 0 && sent[0] == pages[k]
        }),
    decreases pages.len(),
{
    let shard = pages[0] as int % worker_count as int;
    assert(0 <= shard < worker_count) by (nonlinear_arith)
        requires
            worker_count > 0,
            shard == pages[0] as int % worker_count as int,
    ;
    if k > 0 {
        let rest = pages.drop_first();
        assert(slots[pages[0] as int % worker_count as int] is Some);
        assert forall|i: int| 0 <= i < k - 1 implies slots[(#[trigger] rest[i]) as int
            % worker_count as int] is Some by {
            assert(rest[i] == pages[i + 1]);
        }
        assert(rest[k - 1] == pages[k]);
        law_first_page_with_a_free_worker_is_sent(rest, worker_count, slots, available, k - 1);
    }
}

/// Background work is due for a book with pages and a known direction of reading, and rests while
/// an animation plays or is asked for.
pub proof fn law_animations_go_before_background_work(
    state: ViewerWorkerManagerState,
    snapshot: ViewerWorkerManagerSnapshot,
)
    requires
        state.snapshot == Some(snapshot),
    ensures
        snapshot.page_count == 0 ==> !state.work_is_due(),
        snapshot.active_animation_stream_view is Some ==> !state.work_is_due(),
        snapshot.animation_stream_request_id is Some ==> !state.work_is_due(),
        snapshot.prefetch_dir == 0 ==> !state.work_is_due(),
        snapshot.page_count > 0 && snapshot.active_animation_stream_view is None
            && snapshot.animation_stream_request_id is None && snapshot.prefetch_dir != 0
            ==> state.work_is_due(),
{
}

/// A snapshot under the same conditions leaves what is in flight and what was learnt; one under
/// others forgets both, and all workers are free.
pub proof fn law_snapshots_carry_over_or_start_over(
    before: ViewerWorkerManagerState,
    snapshot: ViewerWorkerManagerSnapshot,
    after: ViewerWorkerManagerState,
)
    requires
        ViewerWorkerManagerState::took_over(before, snapshot, after),
    ensures
        after.snapshot == Some(snapshot),
        after.active_generation == Some(snapshot.generation),
        after.background_worker_count == snapshot.background_worker_count,
        (before.snapshot matches Some(old_snapshot) && old_snapshot.book_id == snapshot.book_id
            && old_snapshot.rgba_cache_max_mb == snapshot.rgba_cache_max_mb && old_snapshot.quality
            == snapshot.quality && old_snapshot.max_tex_side == snapshot.max_tex_side
            && old_snapshot.full_equivalent_area_w == snapshot.full_equivalent_area_w
            && old_snapshot.full_equivalent_area_h == snapshot.full_equivalent_area_h
            && old_snapshot.spread_setting == snapshot.spread_setting && old_snapshot.cover_blank
            == snapshot.cover_blank) ==> {
            &&& after.bg_inflight@ == before.bg_inflight@
            &&& after.bg_admission_state@ == before.bg_admission_state@
            &&& after.bg_cache_saturated == before.bg_cache_saturated
        },
        before.snapshot is None || before.snapshot->0.book_id != snapshot.book_id ==> {
            &&& after.bg_inflight@.len() == 0
            &&& after.bg_admission_state@.len() == 0
            &&& !after.bg_cache_saturated
            &&& forall|i: int|
                0 <= i < after.prefetch_inflight_pages_by_shard@.len() ==> (
                #[trigger] after.prefetch_inflight_pages_by_shard@[i]) is None
        },
{
}

proof fn lemma_of_page_bytes(entries: Pages, page: u32)
    ensures
        super::rgba_page_cache::total(super::rgba_page_cache::of_page(entries, page))
            <= super::rgba_page_cache::total(entries),
    decreases entries.len(),
{
    if entries.len() > 0 {
        let front = entries.drop_last();
        lemma_of_page_bytes(front, page);
        if entries.last().key.page == page {
            let own = super::rgba_page_cache::of_page(front, page);
            assert(own.push(entries.last()).drop_last() =~= own);
        }
    }
}

/// The bytes that go with a page are those of all its decodes.
pub proof fn law_pages_go_with_all_their_bytes(entries: Pages, page: u32)
    requires
        super::rgba_page_cache::total(entries) <= usize::MAX,
    ensures
        super::rgba_page_cache::holds_page(entries, page) ==> eviction_bytes(
            entries,
        ).dom().contains(page) && eviction_bytes(entries)[page] == super::rgba_page_cache::total(
            super::rgba_page_cache::of_page(entries, page),
        ),
        !super::rgba_page_cache::holds_page(entries, page) ==> !eviction_bytes(
            entries,
        ).dom().contains(page) && super::rgba_page_cache::of_page(entries, page).len() == 0,
    decreases entries.len(),
{
    if entries.len() > 0 {
        let front = entries.drop_last();
        let last = entries.len() - 1;
        law_pages_go_with_all_their_bytes(front, page);
        lemma_of_page_bytes(entries, page);
        let own = super::rgba_page_cache::of_page(front, page);
        assert(entries[last] == entries.last());
        if super::rgba_page_cache::holds_page(front, page) {
            let i = choose|i: int| 0 <= i < front.len() && (#[trigger] front[i]).key.page == page;
            assert(entries[i].key.page == page);
        }
        if entries.last().key.page == page {
            assert(own.push(entries.last()).drop_last() =~= own);
            if own.len() == 0 {
                assert(super::rgba_page_cache::total(own) == 0);
            }
        } else if super::rgba_page_cache::holds_page(entries, page) {
            let i = choose|i: int|
                0 <= i < entries.len() && (#[trigger] entries[i]).key.page == page;
            assert(front[i].key.page == page);
        }
    }
}

/// The status tells the snapshot that it is for.
pub proof fn law_status_is_of_the_snapshot(snapshot: ViewerWorkerManagerSnapshot, settled: bool)
    ensures
        status_for(Some(snapshot), settled).generation == snapshot.generation,
        status_for(Some(snapshot), settled).book_id == Some(snapshot.book_id),
        status_for(Some(snapshot), settled).settled == settled,
        status_for(None, settled).book_id is None,
{
}

/// The request of a page asks for that page under the conditions of its snapshot.
pub proof fn law_requests_ask_under_their_snapshot(
    snapshot: ViewerWorkerManagerSnapshot,
    page: u32,
    request_id: u64,
)
    ensures
        ({
            let request = ViewerWorkerManagerState::request_for(snapshot, page, request_id);
            &&& request.page == page && request.request_id == request_id
            &&& request.render_signature.quality == snapshot.quality
            &&& request.render_signature.target_h == snapshot.full_equivalent_area_h
            &&& request.render_signature.max_tex_side == snapshot.max_tex_side
            &&& request.render_context.book_id == snapshot.book_id
            &&& request.render_context.spread_setting == snapshot.spread_setting
            &&& request.render_context.cover_blank == snapshot.cover_blank
            &&& request.working_set_anchor_page.page() == snapshot.anchor_page()
        }),
{
}

proof fn lemma_in_flight(inflight: Seq<BgInflightEntry>, i: int)
    requires
        0 <= i < inflight.len(),
    ensures
        inflight_pages(inflight).to_set().contains(inflight[i].page),
{
    assert(inflight_pages(inflight)[i] == inflight[i].page);
    assert(inflight_pages(inflight).contains(inflight[i].page));
}

/// What a pump sends is wanted, is not cached, not in flight and not on screen, and there is a free
/// worker for each page. The work is settled only where nothing is sent and nothing is in flight.
pub proof fn law_pumps_send_missing_pages(
    state: ViewerWorkerManagerState,
    snapshot: ViewerWorkerManagerSnapshot,
    cache: CacheState,
    outcome: PumpOutcome,
    k: int,
    i: int,
)
    requires
        state.snapshot == Some(snapshot),
        state.pumped(cache, outcome),
    ensures
        outcome.dispatch_pages@.len() > 0 ==> state.work_is_due() && state.bg_inflight@.len()
            + outcome.dispatch_pages@.len() <= snapshot.background_worker_count,
        outcome.status.settled ==> outcome.dispatch_pages@.len() == 0 && state.bg_inflight@.len()
            == 0 && state.work_is_due(),
        outcome.status.generation == snapshot.generation,
        outcome.status.book_id == Some(snapshot.book_id),
        0 <= k < outcome.dispatch_pages@.len() ==> {
            let page = outcome.dispatch_pages@[k];
            &&& snapshot.desired().contains(page)
            &&& !super::rgba_page_cache::holds_page(cache.entries, page)
            &&& snapshot.visible_page_first != Some(page)
            &&& snapshot.visible_page_second != Some(page)
            &&& 0 <= i < state.bg_inflight@.len() ==> state.bg_inflight@[i].page != page
        },
{
    let plan = state.pump_plan(cache);
    let workers = snapshot.background_worker_count;
    law_dispatch_respects_the_workers(
        plan.dispatch,
        workers,
        state.prefetch_inflight_pages_by_shard@,
        state.free_workers(snapshot),
        no_shards(workers),
    );
    if 0 <= k < outcome.dispatch_pages@.len() {
        let page = outcome.dispatch_pages@[k];
        assert(plan.dispatch.contains(page));
        let free = state.free_workers(snapshot) as usize;
        super::streaming_laws::law_only_missing_pages_are_sent(
            snapshot.desired(),
            pages_in_order(cache.entries),
            state.bg_cache_saturated || cache.bytes as usize >= cache.max as usize,
            capped((greatest(free as int, 1) * 4) as nat),
            inflight_pages(state.bg_inflight@).to_set(),
            refused_pages(state.bg_admission_state@).to_set(),
            snapshot.visible().to_set(),
            snapshot.visible().to_set(),
            page,
        );
        super::rgba_page_cache::law_page_order_lists_each_page_once(cache.entries);
        lemma_visible(snapshot, page);
        if 0 <= i < state.bg_inflight@.len() {
            lemma_in_flight(state.bg_inflight@, i);
        }
    }
}

/// A request that was answered is in flight no longer, and the others still are.
pub proof fn law_answered_requests_are_done(
    inflight: Seq<BgInflightEntry>,
    request_id: u64,
    other: u64,
)
    requires
        distinct_requests(inflight),
    ensures
        !tracks(without_request(inflight, request_id), request_id),
        other != request_id ==> (tracks(without_request(inflight, request_id), other) <==> tracks(
            inflight,
            other,
        )),
{
    if tracks(inflight, request_id) {
        let at = request_index(inflight, request_id);
        let rest = inflight.remove(at);
        if tracks(inflight, other) && other != request_id {
            let i = choose|i: int|
                0 <= i < inflight.len() && (#[trigger] inflight[i]).request_id == other;
            if i < at {
                assert(rest[i].request_id == other);
            } else {
                assert(rest[i - 1].request_id == other);
            }
        }
        if tracks(rest, other) {
            let i = choose|i: int| 0 <= i < rest.len() && (#[trigger] rest[i]).request_id == other;
            if i < at {
                assert(inflight[i].request_id == other);
            } else {
                assert(inflight[i + 1].request_id == other);
            }
        }
    }
}

/// A received page enters the cache as a decode of the page that was asked for, under the conditions
/// that it was asked for under; and the pages on screen are spared for it.
pub proof fn law_received_pages_enter_as_they_were_asked_for(
    state: ViewerWorkerManagerState,
    result: BgResult,
    cache: CacheState,
)
    requires
        state.early_drop(result) is None,
    ensures
        ({
            let received = state.received(result);
            let admission = state.admission_of(received, cache);
            &&& received.entry.request_id == result.request_id
            &&& state.bg_inflight@.contains(received.entry)
            &&& received.cache_entry().key.page == received.entry.page
            &&& received.cache_entry().key.render_signature == received.entry.render_signature
            &&& received.cache_entry().bytes == received.frames.first_frame_bytes
            &&& Some(received.frames) == result.page_frames()
            &&& admission.completed_page == received.entry.page
            &&& admission.completed_entry_bytes == received.frames.first_frame_bytes
            &&& admission.desired_sequence == state.snapshot->0.desired()
            &&& admission.visible_pages == state.snapshot->0.visible().to_set()
            &&& admission.protected_pages == state.snapshot->0.visible().to_set()
            &&& admission.fits() ==> state.victims_of(received, cache).len() == 0
        }),
{
}

/// A result answers a request where there is a snapshot, it is no part of an animation, and the
/// request is in flight.
pub proof fn law_answers_are_to_requests_in_flight(
    state: ViewerWorkerManagerState,
    result: BgResult,
)
    ensures
        state.answers(result) ==> tracks(state.bg_inflight@, result.request_id)
            && !result.is_animation_chunk && state.snapshot is Some,
        state.snapshot is Some && !result.is_animation_chunk && tracks(
            state.bg_inflight@,
            result.request_id,
        ) ==> state.answers(result),
        state.early_drop(result) is None ==> state.answers(result),
{
}

/// A worker is free where it has no request in flight.
pub proof fn law_workers_without_requests_are_free(
    state: ViewerWorkerManagerState,
    snapshot: ViewerWorkerManagerSnapshot,
)
    ensures
        state.bg_inflight@.len() <= snapshot.background_worker_count ==> state.free_workers(
            snapshot,
        ) + state.bg_inflight@.len() == snapshot.background_worker_count,
        state.bg_inflight@.len() > snapshot.background_worker_count ==> state.free_workers(
            snapshot,
        ) == 0,
{
}

} // verus!
