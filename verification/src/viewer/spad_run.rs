//! The viewer's part in decoding the neighbouring books ahead: when it is time for it, and what
//! becomes of the pages when one of those books is opened.
use std::hash::{Hash, Hasher};
use std::sync::Arc;

use vstd::prelude::*;
use vstd::string::*;

use super::auto_spread_plan::AutoSpreadPlan;
use super::display_model::{texture_bytes, DisplayArea};
use super::display::static_texture_bytes;
use super::gpu_texture_history::{count_events, counted};
use super::layout::ViewerViewLayout;
use super::page_content::{texture_of, PageContent, StreamFrame};
use super::spad::{
    inflight_view, promotions_view, spad_area, AdjacentBook, SpadArea, SpadInflight,
    SpadInflightRequest, SpadPromotion, SpadPromotionPage, SpadResult, SpadSide, SpadState,
    SpadTarget, SpadTargetLayoutSettings, SpadTargetState, target_for,
};
use super::state::{PublishedState, ViewerEffect, ViewerModel, ViewerState};
use super::texture_entries::{distinct_keys, total_bytes, CachedGpuTexture, GpuTextureKey};
use super::worker_manager::{L2StreamingStatus, ViewerWorkerManagerSnapshot};
use super::working_set::DisplayRequirement;
use crate::domain::{BookId, SpreadMode, ViewerQuality};
use crate::text::{decimal, decimal_text};
use crate::util::path_eq::{paths_equivalent_for_selection, selection_form};

verus! {

/// Everything that makes the background work start over when it changes.
#[derive(Clone, Copy, Debug, PartialEq, Eq, Hash, Structural)]
pub struct GenerationKey {
    pub book_id: BookId,
    pub page_count: u32,
    pub spread_setting: u8,
    pub cover_blank: bool,
    pub quality: ViewerQuality,
    pub requested_page: u32,
    pub displayed_page: u32,
    pub target_page: u32,
    pub loading: bool,
    pub nav_mode: u8,
    pub prefetch_dir: i32,
    pub prefetch_anchor_view: u32,
    pub full_equivalent_area_w: u32,
    pub full_equivalent_area_h: u32,
    pub max_tex_side: u32,
    pub background_worker_count: usize,
    pub rgba_cache_max_mb: u16,
    pub active_animation_stream_view: Option<u32>,
    pub animation_stream_request_id: Option<u64>,
}

pub open spec fn spread_mode_tag(mode: SpreadMode) -> u8 {
    match mode {
        SpreadMode::Auto => 0,
        SpreadMode::Single => 1,
        SpreadMode::Spread => 2,
    }
}

pub open spec fn key_of(published: PublishedState) -> GenerationKey {
    GenerationKey {
        book_id: published.book_id,
        page_count: published.page_count,
        spread_setting: spread_mode_tag(published.spread_setting),
        cover_blank: published.cover_blank,
        quality: published.quality,
        requested_page: published.requested_page,
        displayed_page: published.displayed_page,
        target_page: published.target_page,
        loading: published.loading,
        nav_mode: if published.nav_mode_follow_latest {
            1
        } else {
            0
        },
        prefetch_dir: published.prefetch_dir,
        prefetch_anchor_view: published.prefetch_anchor_view,
        full_equivalent_area_w: published.full_equivalent_area_w,
        full_equivalent_area_h: published.full_equivalent_area_h,
        max_tex_side: published.max_tex_side,
        background_worker_count: published.background_worker_count,
        rgba_cache_max_mb: published.rgba_cache_max_mb,
        active_animation_stream_view: published.active_animation_stream_view,
        animation_stream_request_id: published.animation_stream_request_id,
    }
}

pub fn generation_key(published: &PublishedState) -> (key: GenerationKey)
    ensures
        key == key_of(*published),
{
    GenerationKey {
        book_id: published.book_id,
        page_count: published.page_count,
        spread_setting: match published.spread_setting {
            SpreadMode::Auto => 0,
            SpreadMode::Single => 1,
            SpreadMode::Spread => 2,
        },
        cover_blank: published.cover_blank,
        quality: published.quality,
        requested_page: published.requested_page,
        displayed_page: published.displayed_page,
        target_page: published.target_page,
        loading: published.loading,
        nav_mode: if published.nav_mode_follow_latest {
            1
        } else {
            0
        },
        prefetch_dir: published.prefetch_dir,
        prefetch_anchor_view: published.prefetch_anchor_view,
        full_equivalent_area_w: published.full_equivalent_area_w,
        full_equivalent_area_h: published.full_equivalent_area_h,
        max_tex_side: published.max_tex_side,
        background_worker_count: published.background_worker_count,
        rgba_cache_max_mb: published.rgba_cache_max_mb,
        active_animation_stream_view: published.active_animation_stream_view,
        animation_stream_request_id: published.animation_stream_request_id,
    }
}

/// The hash of `std::collections::hash_map::DefaultHasher` over the key. Its algorithm is left
/// open by its documentation and it takes numbers in the byte order of the machine, so nothing
/// is claimed of the value.
#[verifier::external_body]
fn generation_hash(key: &GenerationKey) -> u64 {
    let mut hasher = std::collections::hash_map::DefaultHasher::new();
    key.hash(&mut hasher);
    hasher.finish()
}

/// What a round of work on the neighbouring books comes to: the requests to put to the loader.
pub struct SpadPoll {
    pub handled: bool,
    pub next_request: Option<SpadInflightRequest>,
    pub prev_request: Option<SpadInflightRequest>,
}

/// Whether the pages of the present book are all decoded, under the present conditions.
pub open spec fn settled_for(status: L2StreamingStatus, book: BookId, generation: u64) -> bool {
    status.settled && status.book_id == Some(book) && status.generation == generation
}

impl SpadState {
    /// Answers for one side, taken one after the other.
    pub open spec fn all_answered(self, side: SpadSide, results: Seq<SpadResult>) -> SpadState
        decreases results.len(),
    {
        if results.len() == 0 {
            self
        } else {
            self.all_answered(side, results.drop_last()).answered(side, results.last())
        }
    }
}

impl ViewerModel {
    /// The sizes of the present view that decodes for neighbours go by.
    pub open spec fn spad_area(self, area: DisplayArea) -> SpadArea {
        let layout = self.layout(
            self.persistent.displayed_page,
            area.display_w,
            area.display_h,
        );
        SpadArea {
            full_equivalent_w: layout.full_equivalent_area_w,
            full_equivalent_h: layout.full_equivalent_area_h,
            current_decode_w: layout.page_decode_w,
            current_decode_h: layout.page_decode_h,
            current_effective_spread: layout.effective_spread,
        }
    }

    /// The neighbours with their budgets set and the answers taken.
    pub open spec fn spad_refreshed(
        self,
        area: DisplayArea,
        next_results: Seq<SpadResult>,
        prev_results: Seq<SpadResult>,
    ) -> SpadState {
        let sizes = self.spad_area(area);
        self.spad.budgeted(
            spad_area(
                sizes.full_equivalent_w,
                sizes.full_equivalent_h,
                sizes.current_decode_w,
                sizes.current_decode_h,
            ),
            self.request.rgba_cache_max_mb,
        ).all_answered(SpadSide::Next, next_results).all_answered(SpadSide::Prev, prev_results)
    }

    /// The request for the next page of the next book, if one is due.
    pub open spec fn next_spad_request(self, spad: SpadState, area: DisplayArea) -> Option<
        SpadInflight,
    > {
        spad.request_for(
            SpadSide::Next,
            self.request.quality,
            self.spad_area(area),
            area.max_tex_side,
            self.next_request_id,
        )
    }

    /// The id that the request for the previous book gets.
    pub open spec fn prev_spad_id(self, spad: SpadState, area: DisplayArea) -> u64 {
        if self.next_spad_request(spad, area) is Some {
            counted(self.next_request_id, 1)
        } else {
            self.next_request_id
        }
    }

    /// The neighbours once the next book's page was asked for.
    pub open spec fn next_spad_dispatched(self, spad: SpadState, area: DisplayArea) -> SpadState {
        spad.dispatched(
            SpadSide::Next,
            self.request.quality,
            self.spad_area(area),
            area.max_tex_side,
            self.next_request_id,
        )
    }

    pub open spec fn prev_spad_request(self, spad: SpadState, area: DisplayArea) -> Option<
        SpadInflight,
    > {
        self.next_spad_dispatched(spad, area).request_for(
            SpadSide::Prev,
            self.request.quality,
            self.spad_area(area),
            area.max_tex_side,
            self.prev_spad_id(spad, area),
        )
    }

    /// A round of work on the neighbours, ended before anything was asked for.
    pub open spec fn spad_rested(self, spad: SpadState) -> ViewerModel {
        ViewerModel { spad, ..self.laid_out(self.persistent.displayed_page, false) }
    }

    /// A round of work on the neighbours that asked for what is due.
    pub open spec fn spad_asked(self, spad: SpadState, area: DisplayArea) -> ViewerModel {
        let next = self.next_spad_request(spad, area);
        let prev = self.prev_spad_request(spad, area);
        let prev_id = self.prev_spad_id(spad, area);
        let asked = ViewerModel {
            spad: self.next_spad_dispatched(spad, area).dispatched(
                SpadSide::Prev,
                self.request.quality,
                self.spad_area(area),
                area.max_tex_side,
                prev_id,
            ),
            next_request_id: if prev is Some {
                counted(prev_id, 1)
            } else {
                prev_id
            },
            ..self.laid_out(self.persistent.displayed_page, false)
        };
        if next is Some || prev is Some {
            asked.with_effect(ViewerEffect::RequestRepaint)
        } else {
            asked
        }
    }

    /// A round of work on the neighbours: nothing is asked for until the present book is done,
    /// nor when neither neighbour has a page left to decode.
    pub open spec fn spad_polled(
        self,
        area: DisplayArea,
        next_results: Seq<SpadResult>,
        prev_results: Seq<SpadResult>,
        settled: bool,
    ) -> ViewerModel {
        let spad = self.spad_refreshed(area, next_results, prev_results);
        if !settled {
            self.spad_rested(spad)
        } else if !spad.prepared().any_dispatchable() {
            self.spad_rested(spad.prepared())
        } else {
            self.spad_asked(spad.prepared(), area)
        }
    }

    /// Whether a round asks for anything.
    pub open spec fn spad_asks(
        self,
        area: DisplayArea,
        next_results: Seq<SpadResult>,
        prev_results: Seq<SpadResult>,
        settled: bool,
    ) -> bool {
        settled && self.spad_refreshed(
            area,
            next_results,
            prev_results,
        ).prepared().any_dispatchable()
    }

    /// The request for the next book that a round makes.
    pub open spec fn spad_poll_next(
        self,
        area: DisplayArea,
        next_results: Seq<SpadResult>,
        prev_results: Seq<SpadResult>,
        settled: bool,
    ) -> Option<SpadInflight> {
        if self.spad_asks(area, next_results, prev_results, settled) {
            self.next_spad_request(
                self.spad_refreshed(area, next_results, prev_results).prepared(),
                area,
            )
        } else {
            None
        }
    }

    /// The request for the previous book that a round makes.
    pub open spec fn spad_poll_prev(
        self,
        area: DisplayArea,
        next_results: Seq<SpadResult>,
        prev_results: Seq<SpadResult>,
        settled: bool,
    ) -> Option<SpadInflight> {
        if self.spad_asks(area, next_results, prev_results, settled) {
            self.prev_spad_request(
                self.spad_refreshed(area, next_results, prev_results).prepared(),
                area,
            )
        } else {
            None
        }
    }

    /// What the background work is handed for a published state, under a generation.
    pub open spec fn snapshot_of(self, published: PublishedState, generation: u64) ->
        ViewerWorkerManagerSnapshot {
        ViewerWorkerManagerSnapshot {
            generation,
            book_id: published.book_id,
            book_path: self.book.entry.path,
            page_count: published.page_count,
            spread_setting: published.spread_setting,
            cover_blank: published.cover_blank,
            quality: published.quality,
            auto_spread_plan: self.plan,
            requested_page: published.requested_page,
            displayed_page: published.displayed_page,
            target_page: published.target_page,
            visible_page_first: published.visible_page_first,
            visible_page_second: published.visible_page_second,
            loading: published.loading,
            nav_mode_follow_latest: published.nav_mode_follow_latest,
            prefetch_dir: published.prefetch_dir,
            max_tex_side: published.max_tex_side,
            full_equivalent_area_w: published.full_equivalent_area_w,
            full_equivalent_area_h: published.full_equivalent_area_h,
            background_worker_count: published.background_worker_count,
            rgba_cache_max_mb: published.effective_rgba_cache_max_mb,
            active_animation_stream_view: published.active_animation_stream_view,
            animation_stream_request_id: published.animation_stream_request_id,
        }
    }
}

/// What the background work is told leads it to the page that reading stands at in the viewer.
pub proof fn law_background_work_follows_the_viewer(
    model: ViewerModel,
    area: DisplayArea,
    generation: u64,
)
    ensures
        ({
            let snapshot = model.snapshot_of(model.published(area), generation);
            &&& snapshot.base_page() == model.base_page()
            &&& snapshot.page_count == model.persistent.page_count
            &&& snapshot.book_id == model.persistent.entry_id
            &&& snapshot.quality == model.request.quality
            &&& snapshot.prefetch_dir == model.request.prefetch_dir
            &&& snapshot.auto_spread_plan == model.plan
            &&& (snapshot.visible_page_first, snapshot.visible_page_second)
                == model.display_pages(model.persistent.displayed_page)
            &&& snapshot.max_tex_side == area.max_tex_side
            &&& snapshot.generation == generation
        }),
{
    reveal(ViewerModel::published);
}

impl ViewerState {
    /// Starts over with other neighbours.
    pub fn configure_spad_targets(
        &mut self,
        prev: Option<AdjacentBook>,
        next: Option<AdjacentBook>,
        prev_layout_settings: Option<SpadTargetLayoutSettings>,
        next_layout_settings: Option<SpadTargetLayoutSettings>,
    )
        requires
            old(self).wf(),
        ensures
            final(self).wf(),
            final(self)@ == (ViewerModel {
                spad: old(self)@.spad.retargeted(
                    match prev {
                        Some(book) => Some(target_for(book, prev_layout_settings)),
                        None => None,
                    },
                    match next {
                        Some(book) => Some(target_for(book, next_layout_settings)),
                        None => None,
                    },
                ),
                ..old(self)@
            }),
    {
        reveal(ViewerState::wf);
        self.spad.configure_spad_targets(prev, next, prev_layout_settings, next_layout_settings);
    }

    /// Forgets the requests for the neighbours that are under way.
    pub fn cancel_spad(&mut self)
        requires
            old(self).wf(),
        ensures
            final(self).wf(),
            final(self)@ == (ViewerModel { spad: old(self)@.spad.cancelled(), ..old(self)@ }),
    {
        reveal(ViewerState::wf);
        self.spad.cancel_spad();
    }

    /// Leaves the book: answers that are still under way for its neighbours are passed over. The
    /// caller empties the loader's queues.
    pub fn flush_worker(&mut self)
        requires
            old(self).wf(),
        ensures
            final(self).wf(),
            final(self)@ == (ViewerModel { spad: old(self)@.spad.cancelled(), ..old(self)@ }),
    {
        self.cancel_spad();
    }

    /// A number that changes, as far as a hash tells, when the background work has to start over.
    pub fn worker_manager_generation(&self, area: DisplayArea) -> (generation: u64)
        requires
            self.wf(),
    {
        let published: PublishedState = self.published_state(area);
        let key: GenerationKey = generation_key(&published);
        generation_hash(&key)
    }

    /// What the background work is handed for a published state, under a generation.
    pub fn worker_manager_snapshot_under(&self, published: &PublishedState, generation: u64) -> (snapshot:
        ViewerWorkerManagerSnapshot)
        requires
            self.wf(),
        ensures
            snapshot == self@.snapshot_of(*published, generation),
            snapshot.wf(),
    {
        reveal(ViewerState::wf);
        let auto_spread_plan: Option<Arc<AutoSpreadPlan>> = match &self.auto_spread_plan {
            Some(plan) => Some(Arc::clone(plan)),
            None => None,
        };
        ViewerWorkerManagerSnapshot {
            generation,
            book_id: published.book_id,
            book_path: self.book.entry.path.clone(),
            page_count: published.page_count,
            spread_setting: published.spread_setting,
            cover_blank: published.cover_blank,
            quality: published.quality,
            auto_spread_plan,
            requested_page: published.requested_page,
            displayed_page: published.displayed_page,
            target_page: published.target_page,
            visible_page_first: published.visible_page_first,
            visible_page_second: published.visible_page_second,
            loading: published.loading,
            nav_mode_follow_latest: published.nav_mode_follow_latest,
            prefetch_dir: published.prefetch_dir,
            max_tex_side: published.max_tex_side,
            full_equivalent_area_w: published.full_equivalent_area_w,
            full_equivalent_area_h: published.full_equivalent_area_h,
            background_worker_count: published.background_worker_count,
            rgba_cache_max_mb: published.effective_rgba_cache_max_mb,
            active_animation_stream_view: published.active_animation_stream_view,
            animation_stream_request_id: published.animation_stream_request_id,
        }
    }

    /// What the background work is handed for a published state. The generation is the hash of
    /// what the state is told apart by.
    pub fn worker_manager_snapshot(&self, published: &PublishedState) -> (snapshot:
        ViewerWorkerManagerSnapshot)
        requires
            self.wf(),
        ensures
            snapshot == self@.snapshot_of(*published, snapshot.generation),
            snapshot.wf(),
    {
        let key: GenerationKey = generation_key(published);
        self.worker_manager_snapshot_under(published, generation_hash(&key))
    }

    fn take_spad_results(&mut self, side: SpadSide, results: &Vec<SpadResult>)
        requires
            old(self).wf(),
        ensures
            final(self).wf(),
            final(self)@ == (ViewerModel {
                spad: old(self)@.spad.all_answered(side, results@),
                ..old(self)@
            }),
    {
        let mut i: usize = 0;
        assert(results@.take(0) =~= Seq::empty());
        while i < results.len()
            invariant
                i <= results@.len(),
                self.wf(),
                self@ == (ViewerModel {
                    spad: old(self)@.spad.all_answered(side, results@.take(i as int)),
                    ..old(self)@
                }),
            decreases results@.len() - i,
        {
            reveal(ViewerState::wf);
            assert(results@.take(i + 1).drop_last() =~= results@.take(i as int));
            assert(results@.take(i + 1).last() == results@[i as int]);
            self.spad.handle_spad_result(side, results[i]);
            i = i + 1;
        }
        assert(results@.take(i as int) =~= results@);
    }

    /// A round of work on the neighbouring books, given the answers that came in and whether the
    /// pages of the present book are all decoded.
    pub fn poll_spad_when(
        &mut self,
        area: DisplayArea,
        next_results: &Vec<SpadResult>,
        prev_results: &Vec<SpadResult>,
        settled: bool,
    ) -> (poll: SpadPoll)
        requires
            old(self).wf(),
        ensures
            final(self).wf(),
            final(self)@ == old(self)@.spad_polled(area, next_results@, prev_results@, settled),
            poll.handled == (next_results@.len() > 0 || prev_results@.len() > 0),
            inflight_view(poll.next_request) == old(self)@.spad_poll_next(
                area,
                next_results@,
                prev_results@,
                settled,
            ),
            inflight_view(poll.prev_request) == old(self)@.spad_poll_prev(
                area,
                next_results@,
                prev_results@,
                settled,
            ),
    {
        let ghost start = self@;
        let handled: bool = next_results.len() > 0 || prev_results.len() > 0;
        let layout: ViewerViewLayout = self.view_layout_for_with_caller(
            self.persistent.displayed_page,
            area.display_w,
            area.display_h,
            false,
        );
        let ghost noted = self@;
        proof {
            reveal(ViewerModel::laid_out);
        }
        let budget_area = SpadArea {
            full_equivalent_w: layout.full_equivalent_area_w,
            full_equivalent_h: layout.full_equivalent_area_h,
            current_decode_w: layout.page_decode_w,
            current_decode_h: layout.page_decode_h,
            current_effective_spread: layout.page_decode_w != layout.full_equivalent_area_w,
        };
        self.refresh_spad_budget_plan(budget_area);
        self.take_spad_results(SpadSide::Next, next_results);
        self.take_spad_results(SpadSide::Prev, prev_results);
        let ghost spad = start.spad_refreshed(area, next_results@, prev_results@);
        assert(self@ == (ViewerModel { spad, ..noted }));
        if !settled {
            return SpadPoll { handled, next_request: None, prev_request: None };
        }
        if !self.prepare_spad_targets() {
            return SpadPoll { handled, next_request: None, prev_request: None };
        }
        let sizes = SpadArea {
            full_equivalent_w: layout.full_equivalent_area_w,
            full_equivalent_h: layout.full_equivalent_area_h,
            current_decode_w: layout.page_decode_w,
            current_decode_h: layout.page_decode_h,
            current_effective_spread: layout.effective_spread,
        };
        assert(sizes == start.spad_area(area));
        let next_request: Option<SpadInflightRequest> = self.dispatch_spad_request(
            SpadSide::Next,
            sizes,
            area.max_tex_side,
        );
        let prev_request: Option<SpadInflightRequest> = self.dispatch_spad_request(
            SpadSide::Prev,
            sizes,
            area.max_tex_side,
        );
        if next_request.is_some() || prev_request.is_some() {
            reveal(ViewerState::wf);
            self.outbox.push(ViewerEffect::RequestRepaint);
        }
        SpadPoll { handled, next_request, prev_request }
    }

    fn refresh_spad_budget_plan(&mut self, area: SpadArea)
        requires
            old(self).wf(),
        ensures
            final(self).wf(),
            final(self)@ == (ViewerModel {
                spad: old(self)@.spad.budgeted(area, old(self)@.request.rgba_cache_max_mb),
                ..old(self)@
            }),
    {
        reveal(ViewerState::wf);
        self.spad.refresh_spad_budget_plan(area, self.request.rgba_cache_max_mb);
    }

    fn prepare_spad_targets(&mut self) -> (dispatchable: bool)
        requires
            old(self).wf(),
        ensures
            final(self).wf(),
            final(self)@ == (ViewerModel { spad: old(self)@.spad.prepared(), ..old(self)@ }),
            dispatchable == old(self)@.spad.prepared().any_dispatchable(),
    {
        reveal(ViewerState::wf);
        self.spad.prepare_targets()
    }

    fn dispatch_spad_request(&mut self, side: SpadSide, sizes: SpadArea, max_tex_side: u32) -> (request:
        Option<SpadInflightRequest>)
        requires
            old(self).wf(),
        ensures
            final(self).wf(),
            inflight_view(request) == old(self)@.spad.request_for(
                side,
                old(self)@.request.quality,
                sizes,
                max_tex_side,
                old(self)@.next_request_id,
            ),
            final(self)@ == (ViewerModel {
                spad: old(self)@.spad.dispatched(
                    side,
                    old(self)@.request.quality,
                    sizes,
                    max_tex_side,
                    old(self)@.next_request_id,
                ),
                next_request_id: if request is Some {
                    counted(old(self)@.next_request_id, 1)
                } else {
                    old(self)@.next_request_id
                },
                ..old(self)@
            }),
    {
        reveal(ViewerState::wf);
        let request_id: u64 = self.next_request_id;
        let request: Option<SpadInflightRequest> = self.spad.dispatch_spad_request(
            side,
            self.request.quality,
            sizes,
            max_tex_side,
            request_id,
        );
        if request.is_some() {
            self.next_request_id = count_events(request_id, 1);
        }
        request
    }

    /// A round of work on the neighbouring books. The present book counts as done where the
    /// background work says so of it under the present conditions.
    pub fn poll_spad(
        &mut self,
        area: DisplayArea,
        next_results: &Vec<SpadResult>,
        prev_results: &Vec<SpadResult>,
        status: &L2StreamingStatus,
    ) -> (poll: SpadPoll)
        requires
            old(self).wf(),
        ensures
            final(self).wf(),
            exists|settled: bool|
                {
                    &&& final(self)@ == #[trigger] old(self)@.spad_polled(
                        area,
                        next_results@,
                        prev_results@,
                        settled,
                    )
                    &&& settled ==> status.settled && status.book_id == Some(
                        old(self)@.persistent.entry_id,
                    )
                    &&& inflight_view(poll.next_request) == old(self)@.spad_poll_next(
                        area,
                        next_results@,
                        prev_results@,
                        settled,
                    )
                    &&& inflight_view(poll.prev_request) == old(self)@.spad_poll_prev(
                        area,
                        next_results@,
                        prev_results@,
                        settled,
                    )
                },
            poll.handled == (next_results@.len() > 0 || prev_results@.len() > 0),
    {
        let generation: u64 = self.worker_manager_generation(area);
        let settled: bool = is_settled_for(status, self.persistent.entry_id, generation);
        self.poll_spad_when(area, next_results, prev_results, settled)
    }
}

/// Whether the background work has decoded all it wants of a book, under given conditions.
pub fn is_settled_for(status: &L2StreamingStatus, book: BookId, generation: u64) -> (settled: bool)
    ensures
        settled == settled_for(*status, book, generation),
{
    status.settled && status.book_id == Some(book) && status.generation == generation
}

/// The session and generation that a batch of pages was decoded under: those of its first page.
pub open spec fn batch_of(pages: Seq<SpadPromotion>) -> (u64, u64) {
    (pages[0].session, pages[0].generation)
}

/// Whether a page belongs to the book at `path` and to the batch.
pub open spec fn belongs(page: SpadPromotion, path: Seq<char>, batch: (u64, u64), windows: bool) -> bool {
    &&& selection_form(page.target_path, windows) == selection_form(path, windows)
    &&& (page.session, page.generation) == batch
}

/// The page count that the pages of a batch tell, first come first.
pub open spec fn told_page_count(
    pages: Seq<SpadPromotion>,
    path: Seq<char>,
    batch: (u64, u64),
    windows: bool,
) -> Option<u32>
    decreases pages.len(),
{
    if pages.len() == 0 {
        None
    } else {
        match told_page_count(pages.drop_last(), path, batch, windows) {
            Some(count) => Some(count),
            None => match pages.last().target_page_count {
                Some(count) if count > 0 && belongs(pages.last(), path, batch, windows) => Some(
                    count,
                ),
                _ => None,
            },
        }
    }
}

impl ViewerModel {
    /// Whether a page that was decoded before the book was opened is of use now.
    pub open spec fn can_promote(
        self,
        page: SpadPromotion,
        batch: (u64, u64),
        requirement: DisplayRequirement,
        windows: bool,
    ) -> bool {
        &&& belongs(page, self.book.entry.path@, batch, windows)
        &&& match page.target_page_count {
            Some(count) => page.page < count,
            None => self.persistent.page_count > 0 ==> page.page < self.persistent.page_count,
        }
        &&& page.render_signature.suits(requirement)
    }

    /// A texture made from a page that was decoded before the book was opened. An animation is
    /// not kept.
    #[verifier::opaque]
    pub open spec fn page_promoted(self, page: SpadPromotion) -> ViewerModel {
        let texture = texture_of(self.next_texture_id, page.frames);
        let made = self.uploaded(Some(page.frames), false, Seq::empty());
        if page.frames.frame_count > 1 {
            made
        } else {
            ViewerModel {
                warmup: made.warmup.stored(
                    CachedGpuTexture {
                        key: GpuTextureKey {
                            page: page.page,
                            render_signature: page.render_signature,
                        },
                        texture,
                        estimated_bytes: texture_bytes(texture) as usize,
                    },
                ),
                ..made
            }
        }
    }

    pub open spec fn pages_promoted(
        self,
        pages: Seq<SpadPromotion>,
        batch: (u64, u64),
        requirement: DisplayRequirement,
        windows: bool,
    ) -> ViewerModel
        decreases pages.len(),
    {
        if pages.len() == 0 {
            self
        } else {
            let before = self.pages_promoted(pages.drop_last(), batch, requirement, windows);
            if before.can_promote(pages.last(), batch, requirement, windows) {
                before.page_promoted(pages.last())
            } else {
                before
            }
        }
    }

    /// The viewer once it has taken the pages that were decoded before its book was opened.
    pub open spec fn promoted(self, pages: Seq<SpadPromotion>, area: DisplayArea, windows: bool) ->
        ViewerModel {
        let batch = batch_of(pages);
        let counted = match told_page_count(pages, self.book.entry.path@, batch, windows) {
            Some(count) => self.with_page_count(count),
            None => self,
        };
        let layout = counted.layout(
            counted.persistent.displayed_page,
            area.display_w,
            area.display_h,
        );
        let noted = counted.laid_out(counted.persistent.displayed_page, false);
        noted.pages_promoted(
            pages,
            batch,
            noted.requirement(layout.page_decode_w, layout.page_decode_h, area.max_tex_side),
            windows,
        )
    }
}

impl ViewerState {
    pub fn take_spad_ready_pages_for_target(&self, target_path: &str, windows: bool) -> (pages: Vec<
        SpadPromotionPage,
    >)
        ensures
            promotions_view(pages@) == self@.spad.side_promotions(
                self@.spad.prev,
                target_path@,
                windows,
            ) + self@.spad.side_promotions(self@.spad.next, target_path@, windows),
    {
        self.spad.take_spad_ready_pages_for_target(target_path, windows)
    }

    fn page_belongs(&self, page: &SpadPromotionPage, session: u64, generation: u64, windows: bool) -> (yes:
        bool)
        ensures
            yes == belongs(page@, self@.book.entry.path@, (session, generation), windows),
    {
        paths_equivalent_for_selection(
            page.target_path.as_str(),
            self.book.entry.path.as_str(),
            windows,
        ) && page.session == session && page.generation == generation
    }

    fn told_page_count(
        &self,
        pages: &Vec<SpadPromotionPage>,
        session: u64,
        generation: u64,
        windows: bool,
    ) -> (count: Option<u32>)
        ensures
            count == told_page_count(
                promotions_view(pages@),
                self@.book.entry.path@,
                (session, generation),
                windows,
            ),
    {
        let ghost all = promotions_view(pages@);
        let mut found: Option<u32> = None;
        let mut i: usize = 0;
        assert(all.take(0) =~= Seq::empty());
        while i < pages.len()
            invariant
                i <= pages@.len(),
                all == promotions_view(pages@),
                found == told_page_count(
                    all.take(i as int),
                    self@.book.entry.path@,
                    (session, generation),
                    windows,
                ),
            decreases pages@.len() - i,
        {
            assert(all.take(i + 1).drop_last() =~= all.take(i as int));
            assert(all.take(i + 1).last() == pages@[i as int]@);
            if found.is_none() {
                if let Some(count) = pages[i].target_page_count {
                    if count > 0 && self.page_belongs(&pages[i], session, generation, windows) {
                        found = Some(count);
                    }
                }
            }
            i = i + 1;
        }
        assert(all.take(i as int) =~= all);
        found
    }

    fn promote_page(&mut self, page: &SpadPromotionPage)
        requires
            old(self).wf(),
        ensures
            final(self).wf(),
            final(self)@ == old(self)@.page_promoted(page@),
    {
        reveal(ViewerModel::page_promoted);
        let ghost start = self@;
        let no_chunk: Vec<StreamFrame> = Vec::new();
        assert(no_chunk@ =~= Seq::empty());
        let content: Option<PageContent> = self.upload(
            Some(page.frames),
            false,
            &no_chunk,
            false,
            0,
        );
        proof {
            reveal(ViewerModel::new_content);
        }
        if let Some(PageContent::Static(texture)) = content {
            let bytes: usize = static_texture_bytes(texture);
            reveal(ViewerState::wf);
            let _ = self.display_assets.gpu_warmup_cache.insert(
                GpuTextureKey { page: page.page, render_signature: page.render_signature },
                texture,
                bytes,
            );
        }
    }

    /// Makes textures from pages that were decoded before this book was opened. Pages of another
    /// book or batch, outside the book, or of another size or quality are passed over.
    pub fn promote_spad_ready_pages_to_l1_future(
        &mut self,
        pages: &Vec<SpadPromotionPage>,
        area: DisplayArea,
        windows: bool,
    )
        requires
            old(self).wf(),
        ensures
            final(self).wf(),
            final(self)@ == old(self)@.promoted(promotions_view(pages@), area, windows),
    {
        let ghost all = promotions_view(pages@);
        let (session, generation): (u64, u64) = if pages.len() > 0 {
            (pages[0].session, pages[0].generation)
        } else {
            (0, 0)
        };
        assert(all.len() > 0 ==> batch_of(all) == (session, generation));
        if let Some(count) = self.told_page_count(pages, session, generation, windows) {
            let _ = self.adopt_page_count_if_empty(count);
        }
        let layout: ViewerViewLayout = self.view_layout_for_with_caller(
            self.persistent.displayed_page,
            area.display_w,
            area.display_h,
            false,
        );
        let requirement: DisplayRequirement = self.display_requirement_for_request(
            layout.page_decode_w,
            layout.page_decode_h,
            area.max_tex_side,
        );
        let ghost noted = self@;
        let mut i: usize = 0;
        assert(all.take(0) =~= Seq::empty());
        while i < pages.len()
            invariant
                i <= pages@.len(),
                all == promotions_view(pages@),
                self.wf(),
                self@ == noted.pages_promoted(
                    all.take(i as int),
                    (session, generation),
                    requirement,
                    windows,
                ),
            decreases pages@.len() - i,
        {
            assert(all.take(i + 1).drop_last() =~= all.take(i as int));
            assert(all.take(i + 1).last() == pages@[i as int]@);
            let in_range: bool = match pages[i].target_page_count {
                Some(count) => pages[i].page < count,
                None => self.persistent.page_count == 0 || pages[i].page
                    < self.persistent.page_count,
            };
            if in_range && self.page_belongs(&pages[i], session, generation, windows)
                && pages[i].render_signature.is_suitable_for(requirement) {
                self.promote_page(&pages[i]);
            }
            i = i + 1;
        }
        assert(all.take(i as int) =~= all);
    }

    /// The pages that are decoded of each neighbour, for the debug overlay.
    pub fn spad_overlay_lines(&self) -> (lines: (String, String, String))
        ensures
            lines.0@ == "SPAD"@,
            lines.1@ == "  P: "@ + side_label(self@.spad.prev),
            lines.2@ == "  N: "@ + side_label(self@.spad.next),
    {
        let mut prev: String = "  P: ".to_owned();
        prev.append(spad_side_label(&self.spad.prev).as_str());
        let mut next: String = "  N: ".to_owned();
        next.append(spad_side_label(&self.spad.next).as_str());
        ("SPAD".to_owned(), prev, next)
    }
}

/// How many pages of a target are decoded, and from which to which.
pub open spec fn ready_range_label(target: SpadTarget) -> Seq<char> {
    if target.ready.len() == 0 {
        "-"@
    } else {
        decimal(target.ready.len()) + "p "@ + decimal(target.ready[0].page as nat) + ".."@
            + decimal(target.ready.last().page as nat)
    }
}

pub open spec fn side_label(target: Option<SpadTarget>) -> Seq<char> {
    match target {
        Some(target) => ready_range_label(target),
        None => "none"@,
    }
}

pub fn spad_ready_range_label(target: &SpadTargetState) -> (label: String)
    ensures
        label@ == ready_range_label(target@),
{
    let count: usize = target.ready_pages.len();
    if count == 0 {
        return "-".to_owned();
    }
    let mut label: String = decimal_text(count as u128);
    label.append("p ");
    label.append(decimal_text(target.ready_pages[0].page as u128).as_str());
    label.append("..");
    label.append(decimal_text(target.ready_pages[count - 1].page as u128).as_str());
    label
}

fn spad_side_label(target: &Option<SpadTargetState>) -> (label: String)
    ensures
        label@ == side_label(super::spad::target_view(*target)),
{
    match target {
        Some(target) => spad_ready_range_label(target),
        None => "none".to_owned(),
    }
}

/// Nothing is asked for on behalf of the neighbours until the present book is done.
pub proof fn law_the_present_book_goes_first(
    model: ViewerModel,
    area: DisplayArea,
    next_results: Seq<SpadResult>,
    prev_results: Seq<SpadResult>,
)
    ensures
        model.spad_poll_next(area, next_results, prev_results, false) is None,
        model.spad_poll_prev(area, next_results, prev_results, false) is None,
        model.spad_polled(area, next_results, prev_results, false).outbox == model.outbox,
        model.spad_polled(area, next_results, prev_results, false).next_request_id
            == model.next_request_id,
{
    reveal(ViewerModel::laid_out);
}

/// The book counts as done only where the background work says so of this book and under the
/// present conditions.
pub proof fn law_settled_is_of_this_book(status: L2StreamingStatus, book: BookId, generation: u64)
    ensures
        settled_for(status, book, generation) ==> status.settled,
        settled_for(status, book, generation) ==> status.book_id == Some(book),
        settled_for(status, book, generation) ==> status.generation == generation,
        status.settled && status.book_id == Some(book) && status.generation == generation
            ==> settled_for(status, book, generation),
{
}

/// A round that asks for pages gives each request an id of its own, asks for another frame, and
/// leaves the present screen as it is.
pub proof fn law_rounds_ask_under_ids_of_their_own(
    model: ViewerModel,
    spad: SpadState,
    area: DisplayArea,
)
    requires
        model.next_request_id + 2 <= u64::MAX,
    ensures
        ({
            let done = model.spad_asked(spad, area);
            let next = model.next_spad_request(spad, area);
            let prev = model.prev_spad_request(spad, area);
            &&& next matches Some(request) ==> request.request_id == model.next_request_id
                && request.side == SpadSide::Next
            &&& prev matches Some(request) ==> request.side == SpadSide::Prev
            &&& next is Some && prev is Some ==> prev->0.request_id == next->0.request_id + 1
                && done.next_request_id == model.next_request_id + 2
            &&& next is None && prev is None ==> done.next_request_id == model.next_request_id
                && done.outbox == model.outbox
            &&& next is Some || prev is Some ==> done.outbox == model.outbox.push(
                ViewerEffect::RequestRepaint,
            )
            &&& done.content_left == model.content_left && done.content_right
                == model.content_right
            &&& done.persistent.displayed_page == model.persistent.displayed_page
        }),
{
    reveal(ViewerModel::laid_out);
}

/// A page that was decoded ahead is of use only in its own book and batch, within the book, and
/// where it suits the screen.
pub proof fn law_promoted_pages_suit_the_book(
    model: ViewerModel,
    page: SpadPromotion,
    batch: (u64, u64),
    requirement: DisplayRequirement,
    windows: bool,
)
    ensures
        model.can_promote(page, batch, requirement, windows) ==> {
            &&& page.session == batch.0 && page.generation == batch.1
            &&& page.target_page_count matches Some(count) ==> page.page < count
            &&& page.target_page_count is None && model.persistent.page_count > 0 ==> page.page
                < model.persistent.page_count
            &&& page.render_signature.suits(requirement)
        },
        page.target_path == model.book.entry.path@ && page.session == batch.0 && page.generation
            == batch.1 && (page.target_page_count matches Some(count) && page.page < count)
            && page.render_signature.suits(requirement) ==> model.can_promote(
            page,
            batch,
            requirement,
            windows,
        ),
{
}

/// A still page that was decoded ahead is among the textures made ahead afterwards, under its own
/// page and conditions; an animation is not kept. Either way one upload is asked for.
pub proof fn law_promoted_pages_are_warm(model: ViewerModel, page: SpadPromotion)
    requires
        page.frames.frame_count == 1,
        page.frames.first_frame_width * page.frames.first_frame_height * 4 <= model.warmup.max,
        model.warmup.max <= usize::MAX / 2,
        distinct_keys(model.warmup.entries),
        model.warmup.bytes == total_bytes(model.warmup.entries),
        model.warmup.bytes <= model.warmup.max,
    ensures
        ({
            let done = model.page_promoted(page);
            &&& done.warmup.entries.len() > 0
            &&& done.warmup.entries.last().key == (GpuTextureKey {
                page: page.page,
                render_signature: page.render_signature,
            })
            &&& done.outbox.len() == model.outbox.len() + 1
            &&& done.history == model.history
            &&& done.persistent == model.persistent
        }),
{
    reveal(ViewerModel::page_promoted);
    reveal(ViewerModel::uploaded);
    let texture = texture_of(model.next_texture_id, page.frames);
    assert(texture.width * texture.height >= 0) by (nonlinear_arith);
    assert(texture_bytes(texture) == texture.width * texture.height * 4);
    super::gpu_warmup_cache::law_stored_textures_are_newest(
        model.warmup,
        CachedGpuTexture {
            key: GpuTextureKey { page: page.page, render_signature: page.render_signature },
            texture,
            estimated_bytes: texture_bytes(texture) as usize,
        },
    );
}

/// Animations that were decoded ahead are not kept.
pub proof fn law_animations_are_not_promoted(model: ViewerModel, page: SpadPromotion)
    requires
        page.frames.frame_count > 1,
    ensures
        model.page_promoted(page).warmup == model.warmup,
        model.page_promoted(page).history == model.history,
{
    reveal(ViewerModel::page_promoted);
    reveal(ViewerModel::uploaded);
}

/// Every change of what the background work is told apart by changes the key: two states with the
/// same key agree in all of it.
pub proof fn law_keys_tell_states_apart(a: PublishedState, b: PublishedState)
    requires
        key_of(a) == key_of(b),
    ensures
        a.book_id == b.book_id && a.page_count == b.page_count,
        a.spread_setting == b.spread_setting && a.cover_blank == b.cover_blank,
        a.quality == b.quality,
        a.requested_page == b.requested_page && a.displayed_page == b.displayed_page
            && a.target_page == b.target_page,
        a.loading == b.loading && a.nav_mode_follow_latest == b.nav_mode_follow_latest,
        a.prefetch_dir == b.prefetch_dir && a.prefetch_anchor_view == b.prefetch_anchor_view,
        a.full_equivalent_area_w == b.full_equivalent_area_w && a.full_equivalent_area_h
            == b.full_equivalent_area_h,
        a.max_tex_side == b.max_tex_side,
        a.background_worker_count == b.background_worker_count,
        a.rgba_cache_max_mb == b.rgba_cache_max_mb,
        a.active_animation_stream_view == b.active_animation_stream_view,
        a.animation_stream_request_id == b.animation_stream_request_id,
{
}

/// The first page count that a page of the batch tells is the one that counts.
pub proof fn law_first_told_count_counts(
    pages: Seq<SpadPromotion>,
    page: SpadPromotion,
    path: Seq<char>,
    batch: (u64, u64),
    windows: bool,
)
    ensures
        told_page_count(Seq::empty(), path, batch, windows) is None,
        told_page_count(pages, path, batch, windows) is Some ==> told_page_count(
            pages.push(page),
            path,
            batch,
            windows,
        ) == told_page_count(pages, path, batch, windows),
        told_page_count(pages, path, batch, windows) is None && page.target_path == path
            && page.session == batch.0 && page.generation == batch.1
            && (page.target_page_count matches Some(count) && count > 0) ==> told_page_count(
            pages.push(page),
            path,
            batch,
            windows,
        ) == page.target_page_count,
        told_page_count(pages, path, batch, windows) is None && (page.session != batch.0
            || page.generation != batch.1 || page.target_page_count == Some(0u32)
            || page.target_page_count is None) ==> told_page_count(
            pages.push(page),
            path,
            batch,
            windows,
        ) is None,
{
    assert(pages.push(page).drop_last() =~= pages);
}

/// Answers are taken one after the other.
pub proof fn law_answers_are_taken_in_turn(
    state: SpadState,
    side: SpadSide,
    results: Seq<SpadResult>,
    result: SpadResult,
)
    ensures
        state.all_answered(side, Seq::empty()) == state,
        state.all_answered(side, results.push(result)) == state.all_answered(
            side,
            results,
        ).answered(side, result),
{
    assert(results.push(result).drop_last() =~= results);
}

} // verus!
