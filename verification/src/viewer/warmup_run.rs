//! Making the textures of upcoming pages ahead of time, one page at a time.
use std::collections::HashMap;

use vstd::prelude::*;

use super::display_model::{texture_bytes, DisplayArea};
use super::gpu_warmup_cache::WarmupState;
use super::gpu_warmup_planner::{
    any_ready, candidate_from, chosen_upload, chosen_victims, empty_summary, is_best_ready,
    plan_gpu_warmup, plan_summary, ready_rank, resolve_future_candidate, retained_entries,
    stale_entries, upload_decision, GpuWarmupCandidateSnapshot, GpuWarmupEvictCandidate,
    GpuWarmupPlan, GpuWarmupPlanSnapshot, GpuWarmupUploadCandidate, RgbaReadyEntrySnapshot,
};
use super::display::static_texture_bytes;
use super::layout::ViewerViewLayout;
use super::page_content::{texture_of, StreamFrame};
use super::page_sequences::mentioned;
use super::rgba_page_cache::{
    any_suitable_page, holds, index_of, is_best_page, lemma_best_page, page_rank, ready_snapshot,
    CacheState, CachedRgbaPage, FrameSet, RgbaPageCache,
};
use super::state::{ViewerEffect, ViewerModel, ViewerState, ViewerUiRuntimeState};
use super::streaming_cache::{streaming_order, SimpleStreamingCachePolicy};
use super::texture_entries::{
    distinct_keys, snapshots_of, total_bytes, CachedGpuTexture, TextureRef,
};
use super::working_set::DisplayRequirement;
use crate::num::{greatest, least, max_u32, min_u32, monus};
use crate::sorting::stable_sorted;

verus! {

broadcast use vstd::std_specs::hash::group_hash_axioms;

/// What the upcoming pages need, and what could be made for them.
pub struct WarmupScan {
    pub model: ViewerModel,
    pub requirements: Map<u32, DisplayRequirement>,
    pub candidates: Seq<GpuWarmupCandidateSnapshot>,
}

/// What a step is to do.
pub struct WarmupStep {
    pub stale: Seq<GpuWarmupEvictCandidate>,
    pub victims: Seq<GpuWarmupEvictCandidate>,
    pub upload: Option<GpuWarmupUploadCandidate>,
    pub summary: GpuWarmupPlanSnapshot,
}

/// The pages of a screen, each once.
pub open spec fn shown_pages(pages: (Option<u32>, Option<u32>)) -> Seq<u32> {
    let first = match pages.0 {
        Some(page) => seq![page],
        None => Seq::empty(),
    };
    match pages.1 {
        Some(page) => mentioned(first, page),
        None => first,
    }
}

/// The later page of a screen.
pub open spec fn last_shown(pages: (Option<u32>, Option<u32>)) -> Option<u32> {
    match pages {
        (Some(left), Some(right)) => Some(greatest(left as int, right as int) as u32),
        (Some(page), None) => Some(page),
        (None, right) => right,
    }
}

/// Looks at the pages behind the screen in order of importance: what each needs, and the best
/// decode of it that the background work holds.
pub open spec fn scan(
    model: ViewerModel,
    bg: CacheState,
    pages: Seq<u32>,
    visible_end: u32,
    area: DisplayArea,
) -> WarmupScan
    decreases pages.len(),
{
    if pages.len() == 0 {
        WarmupScan { model, requirements: Map::empty(), candidates: Seq::empty() }
    } else {
        let before = scan(model, bg, pages.drop_last(), visible_end, area);
        let page = pages.last();
        if page <= visible_end {
            before
        } else {
            let layout = before.model.layout(page, area.display_w, area.display_h);
            let requirement = before.model.requirement(
                layout.page_decode_w,
                layout.page_decode_h,
                area.max_tex_side,
            );
            WarmupScan {
                model: before.model.laid_out(page, false),
                requirements: before.requirements.insert(page, requirement),
                candidates: match bg.best(page, requirement) {
                    Some(entry) => before.candidates.push(
                        candidate_from(
                            ready_snapshot(entry),
                            page,
                            (page - visible_end) as u32,
                            requirement,
                        ),
                    ),
                    None => before.candidates,
                },
            }
        }
    }
}

/// The cache without the textures that are let go.
pub open spec fn without_evicted(
    warmup: WarmupState,
    evicted: Seq<GpuWarmupEvictCandidate>,
) -> WarmupState
    decreases evicted.len(),
{
    if evicted.len() == 0 {
        warmup
    } else {
        without_evicted(warmup, evicted.drop_last()).without(evicted.last().key)
    }
}

impl ViewerModel {
    /// Whether something on screen is more urgent.
    pub open spec fn warmup_blocked(self) -> bool {
        ||| self.ui.loading
        ||| self.request.pending_interactive_group is Some
        ||| self.request.animation_stream_request_id is Some
        ||| self.request.active_animation_stream_view is Some
        ||| self.ui.viewport_transition_active
        ||| self.ui.fullscreen_transition_frames > 0
    }

    /// The pages in order of importance around the one on screen.
    pub open spec fn warmup_order(self) -> Seq<u32> {
        let current = least(
            self.persistent.displayed_page as int,
            monus(self.persistent.page_count as nat, 1) as int,
        ) as u32;
        streaming_order(
            current,
            self.persistent.page_count,
            shown_pages(self.display_pages(current)),
        )
    }

    pub open spec fn warmup_scan(self, bg: CacheState, visible_end: u32, area: DisplayArea) ->
        WarmupScan {
        scan(self, bg, self.warmup_order(), visible_end, area)
    }

    #[verifier::opaque]
    pub open spec fn warmup_step(self, bg: CacheState, visible_end: u32, area: DisplayArea) ->
        WarmupStep {
        let found = self.warmup_scan(bg, visible_end, area);
        let ordered = stable_sorted(found.candidates);
        let now_warm = snapshots_of(self.warmup.entries);
        let history = snapshots_of(self.history.entries);
        let stale = stale_entries(now_warm, visible_end, found.requirements);
        let warm = retained_entries(now_warm, visible_end, found.requirements);
        let decision = upload_decision(ordered, self.warmup.max, warm, history);
        WarmupStep {
            stale,
            victims: chosen_victims(decision),
            upload: chosen_upload(decision),
            summary: plan_summary(
                visible_end,
                bg.entries.len() as usize,
                self.warmup.max,
                ordered,
                stale,
                warm,
                history,
            ),
        }
    }

    pub open spec fn with_plan(self, summary: GpuWarmupPlanSnapshot) -> ViewerModel {
        ViewerModel {
            ui: ViewerUiRuntimeState { gpu_warmup_plan: summary, ..self.ui },
            ..self
        }
    }

    pub open spec fn with_evicted(self, evicted: Seq<GpuWarmupEvictCandidate>) -> ViewerModel {
        ViewerModel { warmup: without_evicted(self.warmup, evicted), ..self }
    }

    /// A repaint asked for while more uploads wait.
    pub open spec fn repaint_if(self, more: bool) -> ViewerModel {
        if more {
            self.with_effect(ViewerEffect::RequestRepaint)
        } else {
            self
        }
    }

    /// The frames of the decode that a step uploads, if they are there and stand still.
    pub open spec fn upload_frames(self, bg: CacheState, upload: GpuWarmupUploadCandidate) ->
        Option<FrameSet> {
        if holds(bg.entries, upload.rgba_key) && bg.entries[index_of(
            bg.entries,
            upload.rgba_key,
        )].frames.frame_count == 1 {
            Some(bg.entries[index_of(bg.entries, upload.rgba_key)].frames)
        } else {
            None
        }
    }

    /// A texture made from frames and put into the cache, the victims gone first.
    pub open spec fn texture_made(
        self,
        upload: GpuWarmupUploadCandidate,
        frames: FrameSet,
        victims: Seq<GpuWarmupEvictCandidate>,
        more: bool,
    ) -> ViewerModel {
        let texture = texture_of(self.next_texture_id, frames);
        let made = self.uploaded(Some(frames), false, Seq::empty()).with_evicted(victims);
        ViewerModel {
            warmup: made.warmup.stored(
                CachedGpuTexture {
                    key: upload.key,
                    texture,
                    estimated_bytes: texture_bytes(texture) as usize,
                },
            ),
            ..made
        }.repaint_if(more && texture_bytes(texture) <= self.warmup.max)
    }

    /// One step of making textures ahead: those of no more use go, and unless a screen came up
    /// in this very frame, one texture is made.
    pub open spec fn warmed(self, bg: CacheState, area: DisplayArea) -> ViewerModel {
        if self.warmup_blocked() || self.persistent.page_count == 0 {
            self
        } else {
            match last_shown(self.display_pages(self.persistent.displayed_page)) {
                None => self.with_plan(empty_summary()),
                Some(visible_end) => {
                    let step = self.warmup_step(bg, visible_end, area);
                    let planned = self.warmup_scan(bg, visible_end, area).model.with_plan(
                        step.summary,
                    );
                    if step.summary.idle_reason is Some {
                        planned
                    } else {
                        planned.with_evicted(step.stale).step_finished(bg, step)
                    }
                },
            }
        }
    }

    /// The upload of a step.
    pub open spec fn step_finished(self, bg: CacheState, step: WarmupStep) -> ViewerModel {
        let more = step.summary.pending_uploads > 0;
        if self.ui.last_display_commit_show_seq == Some(self.ui.show_seq) {
            self.repaint_if(more)
        } else {
            match step.upload {
                Some(upload) => match self.upload_frames(bg, upload) {
                    Some(frames) => self.texture_made(upload, frames, step.victims, more),
                    None => self,
                },
                None => self,
            }
        }
    }

    /// Whether a step puts a texture into the cache.
    pub open spec fn warms(self, bg: CacheState, area: DisplayArea) -> bool {
        &&& !self.warmup_blocked()
        &&& self.persistent.page_count > 0
        &&& last_shown(self.display_pages(self.persistent.displayed_page)) matches Some(visible_end)
            && ({
            let step = self.warmup_step(bg, visible_end, area);
            &&& step.summary.idle_reason is None
            &&& self.ui.last_display_commit_show_seq != Some(self.ui.show_seq)
            &&& step.upload matches Some(upload) && (self.upload_frames(bg, upload) matches Some(
                frames,
            ) && texture_bytes(texture_of(self.next_texture_id, frames)) <= self.warmup.max)
        })
    }
}

/// A candidate that was found among the ready decodes is made from the best decode of its page.
proof fn lemma_candidate(
    bg: RgbaPageCache,
    page: u32,
    distance: u32,
    requirement: DisplayRequirement,
    candidate: Option<GpuWarmupCandidateSnapshot>,
)
    requires
        bg.wf(),
        ({
            let ready = bg.entries@.map_values(|entry: CachedRgbaPage| ready_snapshot(entry));
            &&& candidate is Some <==> any_ready(ready, page, requirement)
            &&& candidate matches Some(candidate) ==> exists|i: int| #[trigger]
                is_best_ready(ready, page, requirement, i) && candidate == candidate_from(
                    ready[i],
                    page,
                    distance,
                    requirement,
                )
        }),
    ensures
        candidate == match bg@.best(page, requirement) {
            Some(entry) => Some(candidate_from(ready_snapshot(entry), page, distance, requirement)),
            None => None,
        },
{
    let entries = bg.entries@;
    let ready = entries.map_values(|entry: CachedRgbaPage| ready_snapshot(entry));
    assert forall|i: int| 0 <= i < entries.len() implies #[trigger] ready_rank(
        ready[i],
        page,
        requirement,
    ) == page_rank(entries[i], page, requirement) by {}
    match candidate {
        Some(found) => {
            let i = choose|i: int| #[trigger]
                is_best_ready(ready, page, requirement, i) && found == candidate_from(
                    ready[i],
                    page,
                    distance,
                    requirement,
                );
            assert(is_best_page(entries, page, requirement, i)) by {
                assert(ready_rank(ready[i], page, requirement) == page_rank(
                    entries[i],
                    page,
                    requirement,
                ));
                assert forall|j: int|
                    0 <= j < entries.len() && #[trigger] page_rank(
                        entries[j],
                        page,
                        requirement,
                    ) is Some implies !super::working_set::rank_before(
                    page_rank(entries[j], page, requirement)->0,
                    page_rank(entries[i], page, requirement)->0,
                ) by {
                    assert(ready_rank(ready[j], page, requirement) is Some);
                }
            }
            lemma_best_page(entries, page, requirement, i);
        },
        None => {
            if any_suitable_page(entries, page, requirement) {
                let j = choose|j: int|
                    0 <= j < entries.len() && #[trigger] page_rank(
                        entries[j],
                        page,
                        requirement,
                    ) is Some;
                assert(ready_rank(ready[j], page, requirement) is Some);
            }
        },
    }
}

impl ViewerState {
    /// What a page needs when it comes on screen.
    pub fn warmup_requirement_for_page(&mut self, page: u32, area: DisplayArea) -> (requirement:
        DisplayRequirement)
        requires
            old(self).wf(),
        ensures
            final(self).wf(),
            final(self)@ == old(self)@.laid_out(page, false),
            requirement == ({
                let layout = old(self)@.layout(page, area.display_w, area.display_h);
                old(self)@.requirement(
                    layout.page_decode_w,
                    layout.page_decode_h,
                    area.max_tex_side,
                )
            }),
    {
        let layout: ViewerViewLayout = self.view_layout_for_with_caller(
            page,
            area.display_w,
            area.display_h,
            false,
        );
        self.display_requirement_for_request(
            layout.page_decode_w,
            layout.page_decode_h,
            area.max_tex_side,
        )
    }

    /// The pages in order of importance around the one on screen.
    fn warmup_order(&self) -> (pages: Vec<u32>)
        requires
            self.wf(),
        ensures
            pages@ == self@.warmup_order(),
    {
        let current: u32 = min_u32(
            self.persistent.displayed_page,
            self.persistent.page_count.saturating_sub(1),
        );
        let (left, right): (Option<u32>, Option<u32>) = self.current_view_pages(current);
        let mut visible: Vec<u32> = Vec::new();
        if let Some(page) = left {
            visible.push(page);
        }
        assert(visible@ =~= match left {
            Some(page) => seq![page],
            None => Seq::empty(),
        });
        if let Some(page) = right {
            if !super::interactive_plan::lists(&visible, page) {
                visible.push(page);
            }
        }
        assert(visible@ == shown_pages((left, right)));
        SimpleStreamingCachePolicy::new(
            current,
            self.persistent.page_count,
            visible,
        ).desired_sequence()
    }

    /// What the upcoming pages need, and what could be made for them.
    fn collect_gpu_warmup_inputs(
        &mut self,
        bg: &RgbaPageCache,
        ready: &Vec<RgbaReadyEntrySnapshot>,
        visible_end: u32,
        area: DisplayArea,
    ) -> (inputs: (Vec<GpuWarmupCandidateSnapshot>, HashMap<u32, DisplayRequirement>))
        requires
            old(self).wf(),
            bg.wf(),
            ready@ == bg.entries@.map_values(|entry: CachedRgbaPage| ready_snapshot(entry)),
        ensures
            final(self).wf(),
            ({
                let found = old(self)@.warmup_scan(bg@, visible_end, area);
                &&& final(self)@ == found.model
                &&& inputs.0@ == found.candidates
                &&& inputs.1@ == found.requirements
            }),
    {
        let ghost start = self@;
        let pages: Vec<u32> = self.warmup_order();
        let mut candidates: Vec<GpuWarmupCandidateSnapshot> = Vec::new();
        let mut requirements: HashMap<u32, DisplayRequirement> = HashMap::new();
        assert(pages@.take(0) =~= Seq::empty());
        assert(candidates@ =~= Seq::empty());
        assert(requirements@ =~= Map::empty());
        let mut i: usize = 0;
        while i < pages.len()
            invariant
                i <= pages@.len(),
                self.wf(),
                bg.wf(),
                ready@ == bg.entries@.map_values(|entry: CachedRgbaPage| ready_snapshot(entry)),
                self@ == scan(start, bg@, pages@.take(i as int), visible_end, area).model,
                candidates@ == scan(
                    start,
                    bg@,
                    pages@.take(i as int),
                    visible_end,
                    area,
                ).candidates,
                requirements@ == scan(
                    start,
                    bg@,
                    pages@.take(i as int),
                    visible_end,
                    area,
                ).requirements,
            decreases pages@.len() - i,
        {
            let page: u32 = pages[i];
            assert(pages@.take(i + 1).drop_last() =~= pages@.take(i as int));
            assert(pages@.take(i + 1).last() == page);
            if page > visible_end {
                let requirement: DisplayRequirement = self.warmup_requirement_for_page(page, area);
                requirements.insert(page, requirement);
                let found = resolve_future_candidate(
                    page,
                    page - visible_end,
                    requirement,
                    ready.as_slice(),
                );
                proof {
                    lemma_candidate(
                        *bg,
                        page,
                        (page - visible_end) as u32,
                        requirement,
                        found,
                    );
                }
                if let Some(candidate) = found {
                    candidates.push(candidate);
                }
            }
            i = i + 1;
        }
        assert(pages@.take(i as int) =~= pages@);
        (candidates, requirements)
    }

    /// Lets textures go that were made ahead.
    fn apply_gpu_warmup_evictions(&mut self, evicted: &Vec<GpuWarmupEvictCandidate>)
        requires
            old(self).wf(),
        ensures
            final(self).wf(),
            final(self)@ == old(self)@.with_evicted(evicted@),
    {
        reveal(ViewerState::wf);
        let ghost start = self@.warmup;
        let mut i: usize = 0;
        assert(evicted@.take(0) =~= Seq::empty());
        while i < evicted.len()
            invariant
                i <= evicted@.len(),
                self.wf(),
                self@ == (ViewerModel {
                    warmup: without_evicted(start, evicted@.take(i as int)),
                    ..old(self)@
                }),
            decreases evicted@.len() - i,
        {
            reveal(ViewerState::wf);
            assert(evicted@.take(i + 1).drop_last() =~= evicted@.take(i as int));
            assert(evicted@.take(i + 1).last() == evicted@[i as int]);
            let _ = self.display_assets.gpu_warmup_cache.remove_without_promotion(&evicted[i].key);
            i = i + 1;
        }
        assert(evicted@.take(i as int) =~= evicted@);
    }

    fn note_plan(&mut self, summary: GpuWarmupPlanSnapshot)
        requires
            old(self).wf(),
        ensures
            final(self).wf(),
            final(self)@ == old(self)@.with_plan(summary),
    {
        reveal(ViewerState::wf);
        self.ui_runtime.gpu_warmup_plan = summary;
    }

    fn request_repaint_if(&mut self, more: bool)
        requires
            old(self).wf(),
        ensures
            final(self).wf(),
            final(self)@ == old(self)@.repaint_if(more),
    {
        reveal(ViewerState::wf);
        if more {
            self.outbox.push(ViewerEffect::RequestRepaint);
        }
    }

    /// Makes the texture of a step; tells whether the cache took it.
    fn make_texture(
        &mut self,
        upload: GpuWarmupUploadCandidate,
        frames: FrameSet,
        victims: &Vec<GpuWarmupEvictCandidate>,
        more: bool,
    ) -> (made: bool)
        requires
            old(self).wf(),
            frames.frame_count == 1,
        ensures
            final(self).wf(),
            final(self)@ == old(self)@.texture_made(upload, frames, victims@, more),
            made == (texture_bytes(texture_of(old(self)@.next_texture_id, frames))
                <= old(self)@.warmup.max),
    {
        let ghost start = self@;
        let texture = TextureRef {
            id: self.next_texture_id,
            width: frames.first_frame_width as usize,
            height: frames.first_frame_height as usize,
        };
        let no_chunk: Vec<StreamFrame> = Vec::new();
        assert(no_chunk@ =~= Seq::empty());
        let _ = self.upload(Some(frames), false, &no_chunk, false, 0);
        self.apply_gpu_warmup_evictions(victims);
        proof {
            reveal(ViewerModel::uploaded);
            lemma_evicting_keeps_the_limit(start.warmup, victims@);
        }
        let ghost ready = self@;
        assert(ready == start.uploaded(Some(frames), false, Seq::empty()).with_evicted(victims@));
        let bytes: usize = static_texture_bytes(texture);
        reveal(ViewerState::wf);
        let made: bool = self.display_assets.gpu_warmup_cache.insert(upload.key, texture, bytes);
        self.request_repaint_if(more && made);
        made
    }

    /// Makes the texture of one upcoming page, if it is time for that; tells whether it did.
    pub fn maybe_run_gpu_warmup(&mut self, bg: &RgbaPageCache, area: DisplayArea) -> (made: bool)
        requires
            old(self).wf(),
            bg.wf(),
        ensures
            final(self).wf(),
            final(self)@ == old(self)@.warmed(bg@, area),
            made == old(self)@.warms(bg@, area),
    {
        if self.ui_runtime.loading || self.request.pending_interactive_group.is_some()
            || self.request.animation_stream_request_id.is_some()
            || self.request.active_animation_stream_view.is_some()
            || self.ui_runtime.viewport_transition_active
            || self.ui_runtime.fullscreen_transition_frames > 0 {
            return false;
        }
        if self.persistent.page_count == 0 {
            return false;
        }
        let visible_end: u32 = match self.current_view_pages(self.persistent.displayed_page) {
            (Some(left), Some(right)) => max_u32(left, right),
            (Some(page), None) => page,
            (None, Some(page)) => page,
            (None, None) => {
                self.note_plan(GpuWarmupPlanSnapshot::default());
                return false;
            },
        };
        let ghost start = self@;
        let ready: Vec<RgbaReadyEntrySnapshot> = bg.ready_entry_snapshots();
        let warm = self.display_assets.gpu_warmup_cache.entry_snapshots();
        let history = self.display_assets.gpu_texture_history.entry_snapshots();
        let capacity: usize = self.display_assets.gpu_warmup_cache.max_bytes();
        let (candidates, requirements): (
            Vec<GpuWarmupCandidateSnapshot>,
            HashMap<u32, DisplayRequirement>,
        ) = self.collect_gpu_warmup_inputs(bg, &ready, visible_end, area);
        let plan: GpuWarmupPlan = plan_gpu_warmup(
            visible_end,
            ready.len(),
            capacity,
            candidates.as_slice(),
            warm.as_slice(),
            history.as_slice(),
            &requirements,
        );
        let ghost step = start.warmup_step(bg@, visible_end, area);
        proof {
            reveal(ViewerModel::warmup_step);
            lemma_scan_only_notes_pairings(start, bg@, start.warmup_order(), visible_end, area);
            assert(plan.stale_evict_candidates@ == step.stale);
            assert(plan.replacement_evict_candidates@ == step.victims);
            assert(plan.upload_candidate == step.upload);
            assert(plan.summary == step.summary);
        }
        let summary: GpuWarmupPlanSnapshot = plan.summary();
        self.note_plan(summary);
        if summary.idle_reason.is_some() {
            return false;
        }
        self.apply_gpu_warmup_evictions(&plan.stale_evict_candidates);
        proof {
            lemma_evicting_keeps_the_limit(start.warmup, step.stale);
        }
        let more: bool = summary.pending_uploads > 0;
        if self.ui_runtime.last_display_commit_show_seq == Some(self.ui_runtime.show_seq) {
            self.request_repaint_if(more);
            return false;
        }
        let upload: GpuWarmupUploadCandidate = match plan.upload_candidate {
            Some(upload) => upload,
            None => {
                return false;
            },
        };
        let frames: FrameSet = match bg.peek_exact(&upload.rgba_key) {
            Some((frames, _, _)) => frames,
            None => {
                return false;
            },
        };
        if frames.frame_count != 1 {
            return false;
        }
        self.make_texture(upload, frames, &plan.replacement_evict_candidates, more)
    }
}

proof fn lemma_evicting_keeps_the_limit(
    warmup: WarmupState,
    evicted: Seq<GpuWarmupEvictCandidate>,
)
    ensures
        without_evicted(warmup, evicted).max == warmup.max,
    decreases evicted.len(),
{
    if evicted.len() > 0 {
        lemma_evicting_keeps_the_limit(warmup, evicted.drop_last());
    }
}

proof fn lemma_scan_only_notes_pairings(
    model: ViewerModel,
    bg: CacheState,
    pages: Seq<u32>,
    visible_end: u32,
    area: DisplayArea,
)
    ensures
        ({
            let found = scan(model, bg, pages, visible_end, area).model;
            &&& found.ui == model.ui
            &&& found.warmup == model.warmup
            &&& found.history == model.history
            &&& found.next_texture_id == model.next_texture_id
        }),
    decreases pages.len(),
{
    if pages.len() > 0 {
        lemma_scan_only_notes_pairings(model, bg, pages.drop_last(), visible_end, area);
        reveal(ViewerModel::laid_out);
    }
}

/// While a page is on its way, an animation plays or is asked for, or the window changes, nothing
/// is made ahead.
pub proof fn law_no_warming_while_busy(model: ViewerModel, bg: CacheState, area: DisplayArea)
    requires
        model.warmup_blocked(),
    ensures
        model.warmed(bg, area) == model,
        !model.warms(bg, area),
{
}

/// The later page of a screen is one of its pages, and no page of it comes behind.
pub proof fn law_screens_end_with_their_later_page(left: u32, right: u32)
    ensures
        last_shown((Some(left), Some(right))) matches Some(last) && left <= last && right <= last
            && (last == left || last == right),
        last_shown((Some(left), None)) == Some(left),
        last_shown((None, Some(right))) == Some(right),
        last_shown((None, None)) is None,
{
}

/// Looking at upcoming pages finds what each page behind the screen needs, and nothing of the pages
/// on it. Every candidate is a decode of such a page, told with how far away it is.
pub proof fn law_upcoming_pages_are_looked_at(
    model: ViewerModel,
    bg: CacheState,
    pages: Seq<u32>,
    visible_end: u32,
    area: DisplayArea,
    page: u32,
    i: int,
)
    ensures
        ({
            let found = scan(model, bg, pages, visible_end, area);
            &&& found.requirements.dom().contains(page) <==> pages.contains(page) && page
                > visible_end
            &&& 0 <= i < found.candidates.len() ==> {
                let candidate = found.candidates[i];
                &&& candidate.page > visible_end
                &&& candidate.distance == candidate.page - visible_end
                &&& pages.contains(candidate.page)
                &&& candidate.key.page == candidate.page
            }
            &&& found.model.content_left == model.content_left
            &&& found.model.outbox == model.outbox
            &&& found.model.warmup == model.warmup
        }),
    decreases pages.len(),
{
    if pages.len() > 0 {
        let front = pages.drop_last();
        let before = scan(model, bg, front, visible_end, area);
        let found = scan(model, bg, pages, visible_end, area);
        law_upcoming_pages_are_looked_at(model, bg, front, visible_end, area, page, i);
        super::page_sequences::lemma_pushed_contains(front, pages.last(), page);
        assert(front.push(pages.last()) =~= pages);
        reveal(ViewerModel::laid_out);
        if 0 <= i < before.candidates.len() {
            assert(found.candidates[i] == before.candidates[i]);
            super::page_sequences::lemma_pushed_contains(
                front,
                pages.last(),
                before.candidates[i].page,
            );
        }
        super::page_sequences::lemma_pushed_contains(front, pages.last(), pages.last());
    }
}

/// Nothing is made ahead while a page is on its way, while an animation plays or is asked for, or
/// while the window is changing; else it is not held up.
pub proof fn law_screens_go_before_warming(model: ViewerModel)
    ensures
        model.ui.loading ==> model.warmup_blocked(),
        model.request.active_animation_stream_view is Some ==> model.warmup_blocked(),
        model.request.animation_stream_request_id is Some ==> model.warmup_blocked(),
        model.request.pending_interactive_group is Some ==> model.warmup_blocked(),
        model.ui.viewport_transition_active || model.ui.fullscreen_transition_frames > 0
            ==> model.warmup_blocked(),
        !model.ui.loading && model.request.active_animation_stream_view is None
            && model.request.animation_stream_request_id is None
            && model.request.pending_interactive_group is None
            && !model.ui.viewport_transition_active && model.ui.fullscreen_transition_frames == 0
            ==> !model.warmup_blocked(),
{
}

/// A texture that is made ahead is the newest of the cache, under the key that was planned, and one
/// upload is asked for; a frame that brought a screen makes none.
pub proof fn law_made_textures_are_warm(
    model: ViewerModel,
    upload: GpuWarmupUploadCandidate,
    frames: FrameSet,
    bg: CacheState,
    step: WarmupStep,
)
    requires
        frames.frame_count == 1,
        frames.first_frame_width * frames.first_frame_height * 4 <= model.warmup.max,
        model.warmup.max <= usize::MAX / 2,
        distinct_keys(model.warmup.entries),
        model.warmup.bytes == total_bytes(model.warmup.entries),
        model.warmup.bytes <= model.warmup.max,
    ensures
        ({
            let made = model.texture_made(upload, frames, Seq::empty(), false);
            &&& made.warmup.entries.len() > 0 && made.warmup.entries.last().key == upload.key
            &&& made.warmup.entries.last().texture.width == frames.first_frame_width
            &&& made.warmup.entries.last().texture.height == frames.first_frame_height
            &&& made.outbox.len() == model.outbox.len() + 1
            &&& made.outbox.last() matches ViewerEffect::Upload { frames: put, .. } && put == frames
            &&& made.warmup.bytes <= model.warmup.max
            &&& made.history == model.history
        }),
        model.ui.last_display_commit_show_seq == Some(model.ui.show_seq)
            && step.summary.pending_uploads == 0 ==> model.step_finished(bg, step) == model,
        model.ui.last_display_commit_show_seq == Some(model.ui.show_seq)
            && step.summary.pending_uploads > 0 ==> model.step_finished(bg, step).outbox
            == model.outbox.push(ViewerEffect::RequestRepaint),
{
    reveal(ViewerModel::uploaded);
    let texture = texture_of(model.next_texture_id, frames);
    assert(texture.width * texture.height >= 0) by (nonlinear_arith);
    assert(texture_bytes(texture) == texture.width * texture.height * 4);
    let entry = CachedGpuTexture {
        key: upload.key,
        texture,
        estimated_bytes: texture_bytes(texture) as usize,
    };
    super::gpu_warmup_cache::law_stored_textures_are_newest(model.warmup, entry);
}

/// A texture is made ahead from a decode that is held and stands still, and from no other.
pub proof fn law_only_still_decodes_are_uploaded(
    model: ViewerModel,
    bg: CacheState,
    upload: GpuWarmupUploadCandidate,
)
    ensures
        model.upload_frames(bg, upload) matches Some(frames) ==> frames.frame_count == 1 && holds(
            bg.entries,
            upload.rgba_key,
        ),
        !holds(bg.entries, upload.rgba_key) ==> model.upload_frames(bg, upload) is None,
        holds(bg.entries, upload.rgba_key) && bg.entries[index_of(
            bg.entries,
            upload.rgba_key,
        )].frames.frame_count == 1 ==> model.upload_frames(bg, upload) is Some,
{
}

/// What is made ahead goes by the pages around the one on screen: those on screen first, and of the
/// others the order in which pages are decoded.
pub proof fn law_warming_goes_by_the_page_on_screen(model: ViewerModel)
    requires
        model.persistent.displayed_page < model.persistent.page_count,
    ensures
        model.warmup_order() == streaming_order(
            model.persistent.displayed_page,
            model.persistent.page_count,
            shown_pages(model.display_pages(model.persistent.displayed_page)),
        ),
{
}

/// Another frame is asked for while more uploads wait and the texture could be kept.
pub proof fn law_more_uploads_ask_for_a_frame(
    model: ViewerModel,
    upload: GpuWarmupUploadCandidate,
    frames: FrameSet,
    more: bool,
)
    requires
        frames.frame_count == 1,
        frames.first_frame_width * frames.first_frame_height * 4 <= usize::MAX,
    ensures
        ({
            let made = model.texture_made(upload, frames, Seq::empty(), more);
            let bytes = frames.first_frame_width * frames.first_frame_height * 4;
            &&& more && bytes <= model.warmup.max ==> made.outbox.last()
                == ViewerEffect::RequestRepaint && made.outbox.len() == model.outbox.len() + 2
            &&& !more || bytes > model.warmup.max ==> made.outbox.len() == model.outbox.len() + 1
            &&& bytes > model.warmup.max ==> made.warmup == model.warmup
        }),
{
    reveal(ViewerModel::uploaded);
    let texture = texture_of(model.next_texture_id, frames);
    assert(texture.width * texture.height >= 0) by (nonlinear_arith);
    assert(texture_bytes(texture) == texture.width * texture.height * 4);
}

} // verus!
