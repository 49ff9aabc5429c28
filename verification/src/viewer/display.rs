//! From a request for a page to pages on screen.
use vstd::prelude::*;

use super::decode_layout::request_display_width_for_pair;
use super::display_model::{
    animation_cleared, armed, first_of_parity, inflight_cleared, resolve, slideshow_stopped,
    texture_bytes, texture_content, waiting_for_display, DisplayArea, Screen, Slot,
    PENDING_PLACEHOLDER_DELAY, PREFETCH_DEEP_IDLE_DELAY,
};
use super::gpu_texture_history::count_events;
use super::page_content::{content_view, Content, PageContent, StreamFrame};
use super::rgba_page_cache::{FrameSet, RgbaCacheKey, RgbaPageCache};
use super::spad::{total_l2_rgba_budget_bytes, SpadArea};
use super::state::{
    InteractivePendingGroup, LoadKind, NavMode, PublishedState, ReadingSessionState, ViewerEffect,
    ViewerLoadRequest, ViewerModel, ViewerPlaybackState, ViewerResult, ViewerState,
};
use super::streaming_cache::set_of;
use super::texture_entries::{
    GpuTextureHit, GpuTextureHitSource, GpuTextureKey, TextureRef,
};
use super::working_set::{DisplayRequirement, RenderSignature};
use crate::domain::SpreadMode;
use crate::num::{abs_diff_u32, min_u32, saturating_mul_usize};

verus! {

/// What one side of a screen is made of, for [`ViewerState::commit_display_contents`].
pub struct DisplayCommitSlot {
    pub page: Option<u32>,
    pub content: Option<PageContent>,
    pub hit: Option<GpuTextureHit>,
    pub register_gpu_history: bool,
}

impl DisplayCommitSlot {
    pub open spec fn slot(self) -> Slot {
        Slot {
            page: self.page,
            content: content_view(self.content),
            hit: self.hit,
            register: self.register_gpu_history,
        }
    }
}

/// The viewer and the background decodes, as one value.
pub open spec fn screen_of(state: ViewerState, bg: RgbaPageCache) -> Screen {
    Screen { model: state@, bg: bg@ }
}

impl ReadingSessionState {
    /// Notes a screen that was shown.
    pub fn record_display_commit(
        &mut self,
        left_page: Option<u32>,
        right_page: Option<u32>,
        page_count: usize,
    )
        ensures
            *final(self) == old(self).recorded(left_page, right_page, page_count),
    {
        if left_page.is_none() && right_page.is_none() {
            return;
        }
        self.displayed_any_page = true;
        self.resume_page =
        match left_page {
            Some(page) => Some(page as usize),
            None => match right_page {
                Some(page) => Some(page as usize),
                None => None,
            },
        };
        if page_count > 0 {
            self.page_count = page_count;
            let last_page: u32 = low_bits(page_count - 1);
            self.reached_end = left_page == Some(last_page) || right_page == Some(last_page);
        }
    }
}

#[verifier::truncate]
fn low_bits(n: usize) -> (low: u32)
    ensures
        low == n as u32,
{
    n as u32
}

impl ViewerPlaybackState {
    pub fn arm_from(&mut self, now: u64)
        ensures
            *final(self) == armed(*old(self), now),
    {
        self.slideshow_next_slide_at = Some(now.saturating_add(self.slideshow_interval));
        self.slideshow_arm_on_display = false;
    }

    pub fn stop(&mut self)
        ensures
            *final(self) == slideshow_stopped(*old(self)),
    {
        self.slideshow_active = false;
        self.slideshow_next_slide_at = None;
        self.slideshow_arm_on_display = false;
    }

    pub fn wait_for_display(&mut self)
        ensures
            *final(self) == waiting_for_display(*old(self)),
    {
        if self.slideshow_active {
            self.slideshow_next_slide_at = None;
            self.slideshow_arm_on_display = true;
        }
    }
}

/// The bytes that a texture takes.
pub fn static_texture_bytes(texture: TextureRef) -> (bytes: usize)
    ensures
        bytes == texture_bytes(texture),
{
    saturating_mul_usize(saturating_mul_usize(texture.width, texture.height), 4)
}

impl ViewerState {
    /// Starts a move to another page: a new navigation id.
    pub fn begin_nav(&mut self) -> (nav_id: u64)
        requires
            old(self).wf(),
        ensures
            final(self).wf(),
            final(self)@ == old(self)@.with_nav(),
            nav_id == old(self)@.request.next_nav_id,
    {
        reveal(ViewerState::wf);
        let nav_id: u64 = self.request.next_nav_id;
        self.request.next_nav_id = count_events(nav_id, 1);
        self.request.active_nav_id = Some(nav_id);
        nav_id
    }

    pub fn clear_interactive_in_flight(&mut self)
        requires
            old(self).wf(),
        ensures
            final(self).wf(),
            final(self)@ == (ViewerModel {
                request: inflight_cleared(old(self)@.request),
                ..old(self)@
            }),
    {
        reveal(ViewerState::wf);
        self.request.pending_id = 0;
        self.request.pending_id_aux = None;
        self.request.pending_interactive_group = None;
        self.request.interactive_inflight_even_page = None;
        self.request.interactive_inflight_odd_page = None;
    }

    pub fn clear_animation_stream_state(&mut self)
        requires
            old(self).wf(),
        ensures
            final(self).wf(),
            final(self)@ == (ViewerModel {
                request: animation_cleared(old(self)@.request),
                ..old(self)@
            }),
    {
        reveal(ViewerState::wf);
        self.request.active_animation_stream_view = None;
        self.request.animation_stream_request_id = None;
    }

    pub fn stop_slideshow(&mut self)
        requires
            old(self).wf(),
        ensures
            final(self).wf(),
            final(self)@ == (ViewerModel {
                playback: slideshow_stopped(old(self)@.playback),
                ..old(self)@
            }),
    {
        reveal(ViewerState::wf);
        self.playback.stop();
    }

    /// Takes over the page count where it was not known; tells whether it did.
    pub fn adopt_page_count_if_empty(&mut self, page_count: u32) -> (adopted: bool)
        requires
            old(self).wf(),
        ensures
            final(self).wf(),
            final(self)@.request.queued_nav == old(self)@.request.queued_nav,
            final(self)@ == old(self)@.with_page_count(page_count),
            adopted == (old(self)@.persistent.page_count == 0 && page_count > 0),
    {
        reveal(ViewerModel::with_page_count);
        reveal(ViewerState::wf);
        if self.persistent.page_count != 0 || page_count == 0 {
            return false;
        }
        self.persistent.page_count = page_count;
        let last_page: u32 = page_count - 1;
        self.persistent.requested_page = min_u32(self.persistent.requested_page, last_page);
        self.persistent.displayed_page = min_u32(self.persistent.displayed_page, last_page);
        self.persistent.target_page = min_u32(self.persistent.target_page, last_page);
        self.request.prefetch_anchor_view = min_u32(self.request.prefetch_anchor_view, last_page);
        self.persistent.spread_snapshot.valid = false;
        true
    }

    /// Brings the viewer's own decodes under their limit.
    pub fn update_interactive_rgba_cache_budget(
        &mut self,
        target_w: u32,
        target_h: u32,
        max_tex_side: u32,
    )
        requires
            old(self).wf(),
        ensures
            final(self).wf(),
            final(self)@.request.queued_nav == old(self)@.request.queued_nav,
            final(self)@ == old(self)@.budget_set(),
    {
        reveal(ViewerModel::budget_set);
        reveal(ViewerState::wf);
        let pages: Vec<u32> = self.cached_interactive_request_pages(
            target_w,
            target_h,
            max_tex_side,
        );
        let protected = set_of(pages.as_slice());
        let max_bytes: usize = total_l2_rgba_budget_bytes(self.request.rgba_cache_max_mb);
        let _ = self.display_assets.interactive_rgba_cache.set_max_bytes_with_context(
            max_bytes,
            self.persistent.requested_page,
            &protected,
        );
    }

    /// Puts a decode among the viewer's own.
    pub(crate) fn cache_interactive_rgba_page(
        &mut self,
        page: Option<u32>,
        frames: Option<FrameSet>,
        signature: RenderSignature,
    )
        requires
            old(self).wf(),
        ensures
            final(self).wf(),
            final(self)@.request.queued_nav == old(self)@.request.queued_nav,
            final(self)@ == old(self)@.with_decode(page, frames, signature),
    {
        reveal(ViewerState::wf);
        reveal(ViewerModel::with_decode);
        if let Some(page) = page {
            if let Some(frames) = frames {
                let pages: Vec<u32> = self.cached_interactive_request_pages(
                    signature.target_w,
                    signature.target_h,
                    signature.max_tex_side,
                );
                let protected = set_of(pages.as_slice());
                let _ = self.display_assets.interactive_rgba_cache.insert(
                    RgbaCacheKey { page, render_signature: signature },
                    frames,
                    "interactive",
                    self.persistent.requested_page,
                    &protected,
                );
            }
        }
    }

    /// What the background work is to be told.
    pub fn published_state(&self, area: DisplayArea) -> (published: PublishedState)
        requires
            self.wf(),
        ensures
            published == self@.published(area),
    {
        reveal(ViewerModel::published);
        reveal(ViewerState::wf);
        let displayed: u32 = self.persistent.displayed_page;
        let (first, second): (Option<u32>, Option<u32>) = self.current_view_pages(displayed);
        let effective_spread: bool = second.is_some() || self.is_leading_cover_blank_spread(
            displayed,
        );
        let (full_w, full_h, _source): (u32, u32, &'static str) =
            self.resolved_full_equivalent_area(area.display_w, area.display_h);
        let decode_w: u32 = request_display_width_for_pair(full_w, effective_spread);
        let spad_area = SpadArea {
            full_equivalent_w: full_w,
            full_equivalent_h: full_h,
            current_decode_w: decode_w,
            current_decode_h: full_h,
            current_effective_spread: decode_w != full_w,
        };
        PublishedState {
            book_id: self.persistent.entry_id,
            page_count: self.persistent.page_count,
            spread_setting: self.persistent.spread_setting,
            cover_blank: self.persistent.cover_blank,
            quality: self.request.quality,
            requested_page: self.persistent.requested_page,
            displayed_page: displayed,
            target_page: self.persistent.target_page,
            visible_page_first: first,
            visible_page_second: second,
            loading: self.ui_runtime.loading,
            nav_mode_follow_latest: self.ui_runtime.nav_mode == NavMode::FollowLatest,
            prefetch_dir: self.request.prefetch_dir,
            prefetch_anchor_view: self.request.prefetch_anchor_view,
            max_tex_side: area.max_tex_side,
            full_equivalent_area_w: full_w,
            full_equivalent_area_h: full_h,
            background_worker_count: self.request.background_worker_count,
            rgba_cache_max_mb: self.request.rgba_cache_max_mb,
            effective_rgba_cache_max_mb: self.spad.effective_l2_rgba_cache_max_mb(
                spad_area,
                self.request.rgba_cache_max_mb,
            ),
            active_animation_stream_view: self.request.active_animation_stream_view,
            animation_stream_request_id: self.request.animation_stream_request_id,
        }
    }

    /// Tells the background work where reading stands.
    pub fn publish_worker_manager_state(&mut self, area: DisplayArea)
        requires
            old(self).wf(),
        ensures
            final(self).wf(),
            final(self)@ == old(self)@.with_effect(
                ViewerEffect::Publish(old(self)@.published(area)),
            ),
    {
        reveal(ViewerState::wf);
        let published: PublishedState = self.published_state(area);
        self.outbox.push(ViewerEffect::Publish(published));
    }

    /// Sets the background work going around the present page.
    pub fn trigger_prefetch(&mut self, area: DisplayArea, now: u64)
        requires
            old(self).wf(),
        ensures
            final(self).wf(),
            final(self)@ == old(self)@.prefetch_triggered(area, now),
    {
        reveal(ViewerModel::prefetch_triggered);
        reveal(ViewerState::wf);
        if self.request.active_animation_stream_view.is_some() {
            self.request.prefetch_idle_deadline = None;
            return;
        }
        if self.request.animation_stream_request_id.is_some() {
            self.request.prefetch_idle_deadline = None;
            return;
        }
        if self.request.prefetch_dir == 0 {
            self.request.prefetch_dir = 1;
        }
        self.request.prefetch_anchor_view =
        self.interactive_request_anchor_page().navigation_page();
        self.request.prefetch_idle_deadline = Some(now.saturating_add(PREFETCH_DEEP_IDLE_DELAY));
        self.publish_worker_manager_state(area);
    }

    /// The texture that is nearest to what a page needs.
    pub fn best_gpu_texture_hit_for_page(
        &self,
        page: Option<u32>,
        requirement: DisplayRequirement,
    ) -> (hit: Option<GpuTextureHit>)
        requires
            self.wf(),
        ensures
            hit == self@.best_texture(page, requirement),
    {
        reveal(ViewerModel::best_texture);
        reveal(ViewerState::wf);
        let page: u32 = match page {
            Some(page) => page,
            None => {
                return None;
            },
        };
        let history = self.display_assets.gpu_texture_history.peek_suitable(page, requirement);
        let warmup = self.display_assets.gpu_warmup_cache.peek_suitable(page, requirement);
        match (history, warmup) {
            (Some(shown), Some(made)) => {
                let shown_distance: u64 = signature_distance(
                    shown.key.render_signature,
                    requirement,
                );
                let made_distance: u64 = signature_distance(
                    made.key.render_signature,
                    requirement,
                );
                if shown_distance <= made_distance {
                    Some(shown)
                } else {
                    Some(made)
                }
            },
            (Some(shown), None) => Some(shown),
            (None, made) => made,
        }
    }

    /// Looks for a decode of a page; tells whether it is ready, which it is too where there is
    /// no page.
    pub(crate) fn resolve_display_page_state(
        &mut self,
        bg: &mut RgbaPageCache,
        page: Option<u32>,
        requirement: DisplayRequirement,
    ) -> (state: (bool, Option<FrameSet>))
        requires
            old(self).wf(),
            old(bg).wf(),
        ensures
            final(self).wf(),
            final(self)@.kept_pages() == old(self)@.kept_pages(),
            final(self)@.request.queued_nav == old(self)@.request.queued_nav,
            final(bg).wf(),
            !state.0 ==> final(self)@ == old(self)@ && final(bg)@ == old(bg)@,
            ({
                let found = resolve(
                    old(self)@.interactive,
                    old(bg)@,
                    page,
                    requirement,
                    old(self)@.kept_pages().to_set(),
                );
                &&& state == (found.ready, found.frames)
                &&& final(self)@ == (ViewerModel { interactive: found.interactive, ..old(self)@ })
                &&& final(bg)@ == found.bg
            }),
    {
        reveal(ViewerState::wf);
        reveal(ViewerModel::kept_pages);
        reveal(resolve);
        let page: u32 = match page {
            Some(page) => page,
            None => {
                return (true, None);
            },
        };
        match self.display_assets.interactive_rgba_cache.get_suitable(page, requirement) {
            Some((frames, _)) => {
                return (true, Some(frames));
            },
            None => {},
        }
        match bg.get_suitable(page, requirement) {
            Some((frames, signature)) => {
                let pages: Vec<u32> = self.cached_interactive_request_pages(
                    requirement.required_w,
                    requirement.required_h,
                    requirement.max_tex_side,
                );
                let protected = set_of(pages.as_slice());
                let _ = self.display_assets.interactive_rgba_cache.insert(
                    RgbaCacheKey { page, render_signature: signature },
                    frames,
                    "bg-promote",
                    self.persistent.requested_page,
                    &protected,
                );
                (true, Some(frames))
            },
            None => (false, None),
        }
    }

    pub(crate) fn make_synthetic_display_result(
        &self,
        nav_id: u64,
        view_idx: u32,
        pages: (Option<u32>, Option<u32>),
        left: Option<FrameSet>,
        right: Option<FrameSet>,
        signature: RenderSignature,
    ) -> (result: ViewerResult)
        ensures
            result == self@.synthetic_result(nav_id, view_idx, pages, left, right, signature),
    {
        reveal(ViewerModel::synthetic_result);
        ViewerResult {
            request_id: nav_id,
            left,
            right,
            page_count: self.persistent.page_count,
            left_orig_w: 0,
            left_orig_h: 0,
            right_orig_w: 0,
            right_orig_h: 0,
            error: None,
            left_is_animation_stream: false,
            right_is_animation_stream: false,
            left_stream_exhausted: false,
            right_stream_exhausted: false,
            queue_wait_ms: 0,
            decode_ms: 0,
            view_idx,
            nav_id,
            page_left: pages.0,
            page_right: pages.1,
            request_display_w: signature.target_w,
            request_display_h: signature.target_h,
            request_quality: signature.quality,
            request_max_tex_side: signature.max_tex_side,
        }
    }

    /// Sets up a texture for a decoded page, or for the first chunk of a stream.
    pub(crate) fn upload(
        &mut self,
        frames: Option<FrameSet>,
        is_stream: bool,
        chunk: &Vec<StreamFrame>,
        exhausted: bool,
        now: u64,
    ) -> (content: Option<PageContent>)
        requires
            old(self).wf(),
        ensures
            final(self).wf(),
            final(self)@.request.queued_nav == old(self)@.request.queued_nav,
            final(self)@ == old(self)@.uploaded(frames, is_stream, chunk@),
            content_view(content) == old(self)@.new_content(
                frames,
                is_stream,
                chunk@,
                exhausted,
                now,
            ),
            content matches Some(content) ==> content.wf(),
    {
        reveal(ViewerState::wf);
        reveal(ViewerModel::new_content);
        reveal(ViewerModel::uploaded);
        let frames: FrameSet = match frames {
            Some(frames) => frames,
            None => {
                return None;
            },
        };
        let id: u64 = self.next_texture_id;
        self.next_texture_id = count_events(id, 1);
        let min: u32 = self.playback.min_frame_delay_ms;
        if is_stream {
            let content = PageContent::from_stream_chunk(chunk, exhausted, min, id, now);
            let texture: TextureRef = content.texture();
            self.outbox.push(ViewerEffect::UploadChunk { texture, chunk: frames });
            Some(content)
        } else {
            let content = PageContent::from_frames(frames, min, id, now);
            let texture: TextureRef = content.texture();
            self.outbox.push(ViewerEffect::Upload { texture, frames });
            Some(content)
        }
    }

    /// Puts a request for one page to the loader, unless there is none or it is at hand.
    fn send_page_request(
        &mut self,
        nav_id: u64,
        view_idx: u32,
        page: Option<u32>,
        at_hand: bool,
        signature: RenderSignature,
    ) -> (request_id: Option<u64>)
        requires
            old(self).wf(),
        ensures
            final(self).wf(),
            final(self)@ == old(self)@.page_asked(nav_id, view_idx, page, at_hand, signature),
            request_id == old(self)@.asked_id(page, at_hand),
    {
        reveal(ViewerState::wf);
        let page: u32 = match page {
            Some(page) => page,
            None => {
                return None;
            },
        };
        if at_hand {
            return None;
        }
        let request_id: u64 = self.next_request_id;
        self.next_request_id = count_events(request_id, 1);
        self.outbox.push(
            ViewerEffect::Load(
                ViewerLoadRequest {
                    request_id,
                    kind: LoadKind::Display,
                    view_idx,
                    page_left: Some(page),
                    page_right: None,
                    display_w: signature.target_w,
                    display_h: signature.target_h,
                    quality: signature.quality,
                    max_tex_side: signature.max_tex_side,
                    nav_id,
                },
            ),
        );
        Some(request_id)
    }

    /// Asks for both pages of a screen, as far as they are not at hand.
    fn start_interactive_group_request(
        &mut self,
        nav_id: u64,
        view_idx: u32,
        pages: (Option<u32>, Option<u32>),
        left_result: Option<ViewerResult>,
        right_result: Option<ViewerResult>,
        signature: RenderSignature,
        no_request_id: u64,
    )
        requires
            old(self).wf(),
        ensures
            final(self).wf(),
            final(self)@ == old(self)@.group_asked(
                nav_id,
                view_idx,
                pages,
                left_result,
                right_result,
                signature,
                no_request_id,
            ),
    {
        reveal(ViewerModel::group_asked);
        reveal(ViewerState::wf);
        let generation: u64 = count_events(self.request.interactive_generation, 1);
        let left_request_id: Option<u64> = self.send_page_request(
            nav_id,
            view_idx,
            pages.0,
            left_result.is_some(),
            signature,
        );
        let right_request_id: Option<u64> = self.send_page_request(
            nav_id,
            view_idx,
            pages.1,
            right_result.is_some(),
            signature,
        );
        self.request.interactive_generation = generation;
        self.request.pending_id =
        match left_request_id {
            Some(id) => id,
            None => match right_request_id {
                Some(id) => id,
                None => no_request_id,
            },
        };
        self.request.pending_id_aux =
        match (left_request_id, right_request_id) {
            (Some(first), Some(second)) => if first != second {
                Some(second)
            } else {
                None
            },
            _ => None,
        };
        self.request.interactive_inflight_even_page = page_of_parity(pages.0, pages.1, 0);
        self.request.interactive_inflight_odd_page = page_of_parity(pages.0, pages.1, 1);
        self.request.pending_interactive_group = Some(
            InteractivePendingGroup {
                group_id: nav_id,
                generation,
                page_left: pages.0,
                page_right: pages.1,
                left_request_id,
                right_request_id,
                left_result,
                right_result,
            },
        );
    }

    /// Asks for the pages of a screen that are not decoded.
    pub(crate) fn request_missing_pages(
        &mut self,
        bg: &mut RgbaPageCache,
        nav_id: u64,
        view_idx: u32,
        pages: (Option<u32>, Option<u32>),
        signature: RenderSignature,
        requirement: DisplayRequirement,
    )
        requires
            old(self).wf(),
            old(bg).wf(),
        ensures
            final(self).wf(),
            final(bg).wf(),
            screen_of(*final(self), *final(bg)) == screen_of(*old(self), *old(bg)).missing_asked(
                nav_id,
                view_idx,
                pages,
                signature,
                requirement,
            ),
    {
        reveal(ViewerState::wf);
        reveal(Screen::missing_asked);
        let (left_ready, left_frames): (bool, Option<FrameSet>) = self.resolve_display_page_state(
            bg,
            pages.0,
            requirement,
        );
        let (right_ready, right_frames): (bool, Option<FrameSet>) = self.resolve_display_page_state(
            bg,
            pages.1,
            requirement,
        );
        if !left_ready && !right_ready {
            if let Some(page) = pages.0 {
                let _ = self.display_assets.interactive_rgba_cache.get(
                    &RgbaCacheKey { page, render_signature: signature },
                );
            }
            if let Some(page) = pages.1 {
                let _ = self.display_assets.interactive_rgba_cache.get(
                    &RgbaCacheKey { page, render_signature: signature },
                );
            }
            self.start_interactive_group_request(
                nav_id,
                view_idx,
                pages,
                None,
                None,
                signature,
                0,
            );
            return;
        }
        let left_result: Option<ViewerResult> = if pages.0.is_some() && left_ready {
            Some(
                self.make_synthetic_display_result(
                    nav_id,
                    view_idx,
                    pages,
                    left_frames,
                    None,
                    signature,
                ),
            )
        } else {
            None
        };
        let right_result: Option<ViewerResult> = if pages.1.is_some() && right_ready {
            Some(
                self.make_synthetic_display_result(
                    nav_id,
                    view_idx,
                    pages,
                    None,
                    right_frames,
                    signature,
                ),
            )
        } else {
            None
        };
        self.start_interactive_group_request(
            nav_id,
            view_idx,
            pages,
            left_result,
            right_result,
            signature,
            nav_id,
        );
    }

    /// Puts the texture of a page that is on screen into the history.
    fn register_gpu_texture_history(
        &mut self,
        page: Option<u32>,
        texture: Option<TextureRef>,
        signature: RenderSignature,
    )
        requires
            old(self).wf(),
        ensures
            final(self).wf(),
            final(self)@ == old(self)@.registered(
                page,
                match texture {
                    Some(texture) => Some(Content::Static(texture)),
                    None => None,
                },
                signature,
            ),
    {
        reveal(ViewerState::wf);
        if let Some(page) = page {
            if let Some(texture) = texture {
                let key = GpuTextureKey { page, render_signature: signature };
                let bytes: usize = static_texture_bytes(texture);
                let _ = self.display_assets.gpu_warmup_cache.remove_without_promotion(&key);
                let _ = self.display_assets.gpu_texture_history.insert(key, texture, bytes);
            }
        }
    }

    /// Notes in the texture caches that one side of a screen was shown.
    pub(crate) fn settle_slot(
        &mut self,
        is_left: bool,
        page: Option<u32>,
        hit: Option<GpuTextureHit>,
        register: bool,
        signature: RenderSignature,
    )
        requires
            old(self).wf(),
        ensures
            final(self).wf(),
            final(self)@ == old(self)@.slot_settled(
                page,
                hit,
                register,
                if is_left {
                    old(self)@.content_left
                } else {
                    old(self)@.content_right
                },
                signature,
            ),
    {
        reveal(ViewerModel::slot_settled);
        reveal(ViewerState::wf);
        if let Some(hit) = hit {
            match hit.source {
                GpuTextureHitSource::History => {
                    if self.display_assets.gpu_texture_history.touch(&hit.key) {
                        self.display_assets.gpu_texture_history.record_hit();
                        return;
                    }
                },
                GpuTextureHitSource::Warmup => {
                    match self.display_assets.gpu_warmup_cache.promote_to_history(&hit.key) {
                        Some((texture, bytes)) => {
                            let _ = self.display_assets.gpu_texture_history.insert(
                                hit.key,
                                texture,
                                bytes,
                            );
                            self.display_assets.gpu_warmup_cache.record_hit();
                            return;
                        },
                        None => {},
                    }
                },
            }
        }
        if register {
            let texture: Option<TextureRef> = if is_left {
                static_texture(&self.display_assets.content_left)
            } else {
                static_texture(&self.display_assets.content_right)
            };
            self.register_gpu_texture_history(page, texture, signature);
        }
    }
}

impl ViewerState {
    /// Shows the contents of a screen and notes that they are shown.
    pub(crate) fn note_display_commit(
        &mut self,
        left: DisplayCommitSlot,
        right: DisplayCommitSlot,
        is_stream: bool,
        now: u64,
    )
        requires
            old(self).wf(),
            left.content matches Some(content) ==> content.wf(),
            right.content matches Some(content) ==> content.wf(),
        ensures
            final(self).wf(),
            final(self)@ == old(self)@.shown(left.slot(), right.slot(), is_stream, now),
            final(self)@.request.queued_nav == old(self)@.request.queued_nav,
    {
        reveal(ViewerModel::shown);
        reveal(ViewerState::wf);
        self.display_assets.content_left = left.content;
        self.display_assets.content_right = right.content;
        self.ui_runtime.loading = false;
        self.ui_runtime.pending_placeholder_after = None;
        self.persistent.displayed_page = self.persistent.requested_page;
        self.reading_session.record_display_commit(
            left.page,
            right.page,
            self.persistent.page_count as usize,
        );
        if self.playback.slideshow_active && self.playback.slideshow_arm_on_display {
            self.playback.arm_from(now);
        }
        if self.persistent.displayed_page == self.persistent.target_page {
            self.ui_runtime.nav_mode = NavMode::Sequential;
        }
        self.ui_runtime.last_display_commit_show_seq = Some(self.ui_runtime.show_seq);
        self.request.active_animation_stream_view = if is_stream {
            Some(self.persistent.requested_page)
        } else {
            None
        };
    }

    /// Takes the screen that waits out of the queue.
    pub(crate) fn dequeue_view(&mut self) -> (queued: Option<(u32, u64)>)
        requires
            old(self).wf(),
        ensures
            final(self).wf(),
            queued == old(self)@.request.queued_nav,
            final(self)@ == if queued is Some {
                old(self)@.dequeued()
            } else {
                old(self)@
            },
    {
        reveal(ViewerState::wf);
        let queued: Option<(u32, u64)> = self.request.queued_nav;
        if queued.is_some() {
            self.request.queued_nav = None;
            self.request.queued_view = None;
        }
        queued
    }

    /// Notes that a load failed.
    pub(crate) fn note_load_error(&mut self, result: ViewerResult)
        requires
            old(self).wf(),
        ensures
            final(self).wf(),
            final(self)@ == old(self)@.failed(result),
            final(self)@.request.queued_nav == old(self)@.request.queued_nav,
    {
        reveal(ViewerModel::failed);
        reveal(ViewerState::wf);
        self.ui_runtime.error = result.error;
        self.ui_runtime.loading = false;
        self.ui_runtime.pending_placeholder_after = None;
        self.request.active_animation_stream_view = None;
        self.request.animation_stream_request_id = None;
        self.playback.stop();
    }

    /// Sets everything up for the screen at a page and gives up what belonged to the one before.
    pub(crate) fn begin_view(&mut self, view_idx: u32, now: u64)
        requires
            old(self).wf(),
        ensures
            final(self).wf(),
            final(self)@ == old(self)@.view_begun(view_idx, now),
            final(self)@.request.queued_nav == old(self)@.request.queued_nav,
    {
        reveal(ViewerModel::view_begun);
        reveal(ViewerState::wf);
        let (_, page_right): (Option<u32>, Option<u32>) = self.display_pages_for_physical_page(
            view_idx,
        );
        let paired: bool = page_right.is_some() || self.is_leading_cover_blank_spread(view_idx);
        self.ui_runtime.loading = true;
        self.ui_runtime.error = None;
        self.ui_runtime.pending_placeholder_after = Some(
            now.saturating_add(PENDING_PLACEHOLDER_DELAY),
        );
        self.playback.wait_for_display();
        self.persistent.requested_page = view_idx;
        self.persistent.target_page = view_idx;
        self.persistent.spread_mode =
        match self.persistent.spread_setting {
            SpreadMode::Auto => paired,
            SpreadMode::Spread => true,
            SpreadMode::Single => false,
        };
        self.request.prefetch_anchor_view = view_idx;
        self.request.prefetch_idle_deadline = None;
        self.request.active_animation_stream_view = None;
        self.request.animation_stream_request_id = None;
        self.request.pending_id = 0;
        self.request.pending_id_aux = None;
        self.request.pending_interactive_group = None;
        self.request.interactive_inflight_even_page = None;
        self.request.interactive_inflight_odd_page = None;
    }

    /// Notes that a texture was found for some of a screen's pages, or for none.
    pub(crate) fn note_incomplete_lookup(&mut self, some_found: bool)
        requires
            old(self).wf(),
        ensures
            final(self).wf(),
            final(self)@ == old(self)@.lookup_noted(some_found),
            final(self)@.request.queued_nav == old(self)@.request.queued_nav,
    {
        reveal(ViewerModel::lookup_noted);
        reveal(ViewerState::wf);
        if some_found {
            self.display_assets.gpu_texture_history.record_partial_spread_hit();
        } else {
            self.display_assets.gpu_texture_history.record_miss();
        }
    }

    pub(crate) fn note_partial_reuse(&mut self)
        requires
            old(self).wf(),
        ensures
            final(self).wf(),
            final(self)@ == old(self)@.reuse_noted(),
    {
        reveal(ViewerModel::reuse_noted);
        reveal(ViewerState::wf);
        self.display_assets.gpu_texture_history.record_partial_reuse();
    }
}

/// How far a texture misses the required size.
fn signature_distance(signature: RenderSignature, requirement: DisplayRequirement) -> (distance: u64)
    ensures
        distance == super::working_set::size_distance(signature, requirement),
{
    abs_diff_u32(signature.target_w, requirement.required_w) as u64 + abs_diff_u32(
        signature.target_h,
        requirement.required_h,
    ) as u64
}

fn page_of_parity(left: Option<u32>, right: Option<u32>, parity: u32) -> (page: Option<u32>)
    ensures
        page == first_of_parity(left, right, parity as int),
{
    if let Some(page) = left {
        if page % 2 == parity {
            return Some(page);
        }
    }
    if let Some(page) = right {
        if page % 2 == parity {
            return Some(page);
        }
    }
    None
}

/// The texture of a page that is shown as a still one.
pub fn static_texture(content: &Option<PageContent>) -> (texture: Option<TextureRef>)
    ensures
        texture == match content_view(*content) {
            Some(Content::Static(texture)) => Some(texture),
            _ => None,
        },
{
    match content {
        Some(PageContent::Static(texture)) => Some(*texture),
        _ => None,
    }
}

/// A page shown by a texture that was found.
pub fn found_content(hit: Option<GpuTextureHit>) -> (content: Option<PageContent>)
    ensures
        content_view(content) == texture_content(hit),
        content matches Some(content) ==> content.wf(),
{
    match hit {
        Some(hit) => Some(PageContent::Static(hit.texture)),
        None => None,
    }
}

} // verus!
