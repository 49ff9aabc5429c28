//! The steps from a request for a page to pages on screen. They call each other: a screen that
//! is shown may set going the request for a screen that waits.
use vstd::prelude::*;

use super::display::{found_content, screen_of, DisplayCommitSlot};
use super::display_model::{lemma_last_view, queue_length, waiting, DisplayArea, Screen};
use super::layout::ViewerViewLayout;
use super::page_content::{PageContent, StreamFrame};
use super::rgba_page_cache::{FrameSet, RgbaPageCache};
use super::state::{NavMode, ViewerResult, ViewerState};
use super::texture_entries::GpuTextureHit;
use super::working_set::{DisplayRequirement, RenderSignature};

verus! {

impl ViewerState {
    /// Asks for the screen that waits; tells whether there was one.
    pub fn consume_queued_view(&mut self, bg: &mut RgbaPageCache, area: DisplayArea, now: u64) -> (started:
        bool)
        requires
            old(self).wf(),
            old(bg).wf(),
        ensures
            final(self).wf(),
            final(bg).wf(),
            started == screen_of(*old(self), *old(bg)).has_waiting(),
            screen_of(*final(self), *final(bg)) == screen_of(*old(self), *old(bg)).waiting_started(
                area,
                now,
            ),
        decreases queue_length(old(self)@), 0nat,
    {
        reveal(Screen::waiting_started);
        let (next_view, nav_id): (u32, u64) = match self.dequeue_view() {
            Some(queued) => queued,
            None => {
                return false;
            },
        };
        if next_view == self.persistent.requested_page {
            return false;
        }
        proof {
            lemma_last_view(screen_of(*self, *bg), nav_id, next_view, area, now);
        }
        self.start_view_request(bg, nav_id, next_view, area, now);
        true
    }

    /// Shows the contents of a screen.
    pub fn commit_display_contents(
        &mut self,
        bg: &mut RgbaPageCache,
        left: DisplayCommitSlot,
        right: DisplayCommitSlot,
        signature: RenderSignature,
        is_stream: bool,
        area: DisplayArea,
        now: u64,
    )
        requires
            old(self).wf(),
            old(bg).wf(),
            left.content matches Some(content) ==> content.wf(),
            right.content matches Some(content) ==> content.wf(),
        ensures
            final(self).wf(),
            final(bg).wf(),
            screen_of(*final(self), *final(bg)) == screen_of(*old(self), *old(bg)).committed(
                left.slot(),
                right.slot(),
                signature,
                is_stream,
                area,
                now,
                waiting(area, now),
            ),
        decreases queue_length(old(self)@), 1nat,
    {
        reveal(Screen::committed);
        let (left_page, left_hit): (Option<u32>, Option<GpuTextureHit>) = (left.page, left.hit);
        let (right_page, right_hit): (Option<u32>, Option<GpuTextureHit>) = (
            right.page,
            right.hit,
        );
        let register_left: bool = left.register_gpu_history;
        let register_right: bool = right.register_gpu_history;
        self.note_display_commit(left, right, is_stream, now);
        if !self.consume_queued_view(bg, area, now) {
            self.trigger_prefetch(area, now);
        }
        self.settle_slot(true, left_page, left_hit, register_left, signature);
        self.settle_slot(false, right_page, right_hit, register_right, signature);
    }

    /// Takes the result of a load. Tells whether it changed anything.
    pub fn apply_display_result(
        &mut self,
        bg: &mut RgbaPageCache,
        result: ViewerResult,
        left_chunk: &Vec<StreamFrame>,
        right_chunk: &Vec<StreamFrame>,
        area: DisplayArea,
        now: u64,
    ) -> (handled: bool)
        requires
            old(self).wf(),
            old(bg).wf(),
        ensures
            final(self).wf(),
            final(bg).wf(),
            handled == screen_of(*old(self), *old(bg)).takes(result),
            screen_of(*final(self), *final(bg)) == screen_of(*old(self), *old(bg)).applied(
                result,
                left_chunk@,
                right_chunk@,
                area,
                now,
                waiting(area, now),
            ),
        decreases queue_length(old(self)@), 2nat,
    {
        reveal(Screen::applied);
        let _ = self.adopt_page_count_if_empty(result.page_count);
        if result.error.is_some() {
            self.note_load_error(result);
            let _ = self.consume_queued_view(bg, area, now);
            return true;
        }
        if self.ui_runtime.nav_mode == NavMode::FollowLatest && self.request.queued_view.is_some()
            && self.nav_target() != self.persistent.requested_page {
            return self.consume_queued_view(bg, area, now);
        }
        let (left_page, right_page): (Option<u32>, Option<u32>) = self.current_view_pages(
            self.persistent.requested_page,
        );
        self.update_interactive_rgba_cache_budget(
            result.request_display_w,
            result.request_display_h,
            area.max_tex_side,
        );
        let signature = RenderSignature::from_decode_request(
            result.request_quality,
            result.request_display_w,
            result.request_display_h,
            result.request_max_tex_side,
        );
        let left_still: Option<FrameSet> = if result.left_is_animation_stream {
            None
        } else {
            result.left
        };
        let right_still: Option<FrameSet> = if result.right_is_animation_stream {
            None
        } else {
            result.right
        };
        self.cache_interactive_rgba_page(left_page, left_still, signature);
        self.cache_interactive_rgba_page(right_page, right_still, signature);
        let left_content: Option<PageContent> = self.upload(
            result.left,
            result.left_is_animation_stream,
            left_chunk,
            result.left_stream_exhausted,
            now,
        );
        let right_content: Option<PageContent> = self.upload(
            result.right,
            result.right_is_animation_stream,
            right_chunk,
            result.right_stream_exhausted,
            now,
        );
        self.commit_display_contents(
            bg,
            DisplayCommitSlot {
                page: left_page,
                content: left_content,
                hit: None,
                register_gpu_history: true,
            },
            DisplayCommitSlot {
                page: right_page,
                content: right_content,
                hit: None,
                register_gpu_history: true,
            },
            signature,
            result.left_is_animation_stream || result.right_is_animation_stream,
            area,
            now,
        );
        true
    }

    /// Asks for the screen at a page.
    pub fn start_view_request(
        &mut self,
        bg: &mut RgbaPageCache,
        nav_id: u64,
        view_idx: u32,
        area: DisplayArea,
        now: u64,
    )
        requires
            old(self).wf(),
            old(bg).wf(),
        ensures
            final(self).wf(),
            final(bg).wf(),
            screen_of(*final(self), *final(bg)) == screen_of(*old(self), *old(bg)).view_started(
                nav_id,
                view_idx,
                area,
                now,
                waiting(area, now),
            ),
        decreases queue_length(old(self)@), 5nat,
    {
        reveal(Screen::view_started);
        self.begin_view(view_idx, now);
        self.start_display_request(bg, nav_id, view_idx, area, now);
    }

    /// Shows a screen from what is held, or asks the loader for what is missing.
    fn start_display_request(
        &mut self,
        bg: &mut RgbaPageCache,
        nav_id: u64,
        view_idx: u32,
        area: DisplayArea,
        now: u64,
    )
        requires
            old(self).wf(),
            old(bg).wf(),
        ensures
            final(self).wf(),
            final(bg).wf(),
            screen_of(*final(self), *final(bg)) == screen_of(
                *old(self),
                *old(bg),
            ).screen_requested(nav_id, view_idx, area, now, waiting(area, now)),
        decreases queue_length(old(self)@), 4nat,
    {
        reveal(Screen::screen_requested);
        let layout: ViewerViewLayout = self.view_layout_for_with_caller(
            view_idx,
            area.display_w,
            area.display_h,
            false,
        );
        let pages: (Option<u32>, Option<u32>) = (layout.page_left, layout.page_right);
        self.update_interactive_rgba_cache_budget(
            layout.page_decode_w,
            layout.page_decode_h,
            area.max_tex_side,
        );
        let signature: RenderSignature = self.render_signature_for_decode(
            layout.page_decode_w,
            layout.page_decode_h,
            area.max_tex_side,
        );
        let requirement: DisplayRequirement = self.display_requirement_for_request(
            layout.page_decode_w,
            layout.page_decode_h,
            area.max_tex_side,
        );
        let left: Option<GpuTextureHit> = self.best_gpu_texture_hit_for_page(pages.0, requirement);
        let right: Option<GpuTextureHit> = self.best_gpu_texture_hit_for_page(
            pages.1,
            requirement,
        );
        let some_found: bool = left.is_some() || right.is_some();
        if some_found && (pages.0.is_none() || left.is_some()) && (pages.1.is_none()
            || right.is_some()) {
            self.commit_display_contents(
                bg,
                DisplayCommitSlot {
                    page: pages.0,
                    content: found_content(left),
                    hit: left,
                    register_gpu_history: false,
                },
                DisplayCommitSlot {
                    page: pages.1,
                    content: found_content(right),
                    hit: right,
                    register_gpu_history: false,
                },
                signature,
                false,
                area,
                now,
            );
            return;
        }
        self.note_incomplete_lookup(some_found);
        if some_found {
            let other_page: Option<u32> = if left.is_some() {
                pages.1
            } else {
                pages.0
            };
            let (ready, frames): (bool, Option<FrameSet>) = self.resolve_display_page_state(
                bg,
                other_page,
                requirement,
            );
            if ready {
                self.apply_partial_display_reuse_commit(
                    bg,
                    pages,
                    left,
                    right,
                    frames,
                    signature,
                    area,
                    now,
                );
                return;
            }
        }
        self.apply_decodes_or_request(
            bg,
            nav_id,
            view_idx,
            pages,
            signature,
            requirement,
            area,
            now,
        );
    }

    /// Shows a texture that was found beside one made from a decode.
    fn apply_partial_display_reuse_commit(
        &mut self,
        bg: &mut RgbaPageCache,
        pages: (Option<u32>, Option<u32>),
        left: Option<GpuTextureHit>,
        right: Option<GpuTextureHit>,
        frames: Option<FrameSet>,
        signature: RenderSignature,
        area: DisplayArea,
        now: u64,
    )
        requires
            old(self).wf(),
            old(bg).wf(),
        ensures
            final(self).wf(),
            final(bg).wf(),
            screen_of(*final(self), *final(bg)) == screen_of(*old(self), *old(bg)).half_reused(
                pages,
                left,
                right,
                frames,
                signature,
                area,
                now,
                waiting(area, now),
            ),
        decreases queue_length(old(self)@), 2nat,
    {
        reveal(Screen::half_reused);
        let no_chunk: Vec<StreamFrame> = Vec::new();
        assert(no_chunk@ =~= Seq::empty());
        let made: Option<PageContent> = self.upload(frames, false, &no_chunk, false, now);
        let reused_is_left: bool = left.is_some();
        let (left_content, right_content): (Option<PageContent>, Option<PageContent>) =
            if reused_is_left {
            (found_content(left), made)
        } else {
            (made, found_content(right))
        };
        let right_hit: Option<GpuTextureHit> = if reused_is_left {
            None
        } else {
            right
        };
        self.commit_display_contents(
            bg,
            DisplayCommitSlot {
                page: pages.0,
                content: left_content,
                hit: left,
                register_gpu_history: !reused_is_left,
            },
            DisplayCommitSlot {
                page: pages.1,
                content: right_content,
                hit: right_hit,
                register_gpu_history: reused_is_left,
            },
            signature,
            false,
            area,
            now,
        );
        self.note_partial_reuse();
    }

    /// Shows the decodes of a screen's pages where all are held; else asks for the others.
    fn apply_decodes_or_request(
        &mut self,
        bg: &mut RgbaPageCache,
        nav_id: u64,
        view_idx: u32,
        pages: (Option<u32>, Option<u32>),
        signature: RenderSignature,
        requirement: DisplayRequirement,
        area: DisplayArea,
        now: u64,
    )
        requires
            old(self).wf(),
            old(bg).wf(),
        ensures
            final(self).wf(),
            final(bg).wf(),
            screen_of(*final(self), *final(bg)) == screen_of(
                *old(self),
                *old(bg),
            ).decodes_shown_or_asked(
                nav_id,
                view_idx,
                pages,
                signature,
                requirement,
                area,
                now,
                waiting(area, now),
            ),
        decreases queue_length(old(self)@), 3nat,
    {
        reveal(Screen::decodes_shown_or_asked);
        let (left_ready, left_frames): (bool, Option<FrameSet>) = self.resolve_display_page_state(
            bg,
            pages.0,
            requirement,
        );
        let (right_ready, right_frames): (bool, Option<FrameSet>) = self.resolve_display_page_state(
            bg,
            pages.1,
            requirement,
        );
        if left_ready && right_ready {
            let result: ViewerResult = self.make_synthetic_display_result(
                nav_id,
                view_idx,
                pages,
                left_frames,
                right_frames,
                signature,
            );
            let no_chunk: Vec<StreamFrame> = Vec::new();
            assert(no_chunk@ =~= Seq::empty());
            let _ = self.apply_display_result(bg, result, &no_chunk, &no_chunk, area, now);
            self.trigger_prefetch(area, now);
        } else {
            self.request_missing_pages(bg, nav_id, view_idx, pages, signature, requirement);
        }
    }
}

} // verus!
