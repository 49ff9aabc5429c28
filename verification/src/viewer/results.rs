//! What comes back from the loader: the pages of a screen are put together, and chunks are added
//! to the animation that plays.
use vstd::prelude::*;

use super::display::screen_of;
use super::display_model::{waiting, DisplayArea, Screen};
use super::gpu_texture_history::count_events;
use super::layout::ViewerViewLayout;
use super::page_content::{Content, PageContent, StreamFrame};
use super::rgba_page_cache::{FrameSet, RgbaPageCache};
use super::state::{
    InteractivePendingGroup, LoadKind, NavMode, ViewerEffect, ViewerLoadRequest, ViewerModel,
    ViewerRequestState, ViewerResult, ViewerState,
};
use crate::num::{greatest, least, max_u64};

verus! {

/// The page that an answer is for.
pub open spec fn answered_page(result: ViewerResult) -> Option<u32> {
    match result.page_left {
        Some(page) => Some(page),
        None => result.page_right,
    }
}

/// The group with an answer to one of its requests; none where the answer is to no request of it.
pub open spec fn group_with(group: InteractivePendingGroup, result: ViewerResult) -> Option<
    InteractivePendingGroup,
> {
    if group.left_request_id == Some(result.request_id) {
        Some(InteractivePendingGroup { left_result: Some(result), ..group })
    } else if group.right_request_id == Some(result.request_id) {
        Some(InteractivePendingGroup { right_result: Some(result), ..group })
    } else {
        None
    }
}

/// Whether every request of the group is answered.
pub open spec fn is_complete(group: InteractivePendingGroup) -> bool {
    &&& group.left_request_id is None || group.left_result is Some
    &&& group.right_request_id is None || group.right_result is Some
}

/// The answers of a group as one result. The right side is what the second answer holds on its
/// left, unless the first holds a right side already.
pub open spec fn merged(group: InteractivePendingGroup) -> Option<ViewerResult> {
    match (group.left_result, group.right_result) {
        (Some(left), Some(right)) => {
            let sides = if left.right is None {
                ViewerResult {
                    right: right.left,
                    right_orig_w: right.left_orig_w,
                    right_orig_h: right.left_orig_h,
                    right_is_animation_stream: right.left_is_animation_stream,
                    right_stream_exhausted: right.left_stream_exhausted,
                    ..left
                }
            } else {
                left
            };
            Some(
                ViewerResult {
                    decode_ms: least(left.decode_ms + right.decode_ms, u64::MAX as int) as u64,
                    queue_wait_ms: greatest(
                        left.queue_wait_ms as int,
                        right.queue_wait_ms as int,
                    ) as u64,
                    page_left: group.page_left,
                    page_right: group.page_right,
                    ..sides
                },
            )
        },
        (Some(only), None) => Some(
            ViewerResult { page_left: group.page_left, page_right: group.page_right, ..only },
        ),
        (None, Some(only)) => Some(
            ViewerResult { page_left: group.page_left, page_right: group.page_right, ..only },
        ),
        (None, None) => None,
    }
}

/// The page, unless it is the one that was answered.
pub open spec fn unless_answered(page: Option<u32>, answered: Option<u32>) -> Option<u32> {
    if page is Some && page == answered {
        None
    } else {
        page
    }
}

impl ViewerModel {
    /// Whether an answer belongs to the screen that is waited for.
    pub open spec fn awaits(self, request_id: u64) -> bool {
        request_id == self.request.pending_id || self.request.pending_id_aux == Some(request_id)
    }

    /// The group of the present generation with an answer added.
    pub open spec fn answered_group(self, result: ViewerResult) -> Option<InteractivePendingGroup> {
        match self.request.pending_interactive_group {
            Some(group) => if group.generation == self.request.interactive_generation {
                group_with(group, result)
            } else {
                None
            },
            None => None,
        }
    }

    /// The result that an answer completes.
    pub open spec fn completed(self, result: ViewerResult) -> Option<ViewerResult> {
        match self.answered_group(result) {
            Some(group) => if is_complete(group) {
                merged(group)
            } else {
                None
            },
            None => None,
        }
    }

    /// The state with an answer added to its group; a group that is complete is gone.
    pub open spec fn absorbed(self, result: ViewerResult) -> ViewerModel {
        match self.answered_group(result) {
            Some(group) => ViewerModel {
                request: ViewerRequestState {
                    interactive_inflight_even_page: unless_answered(
                        self.request.interactive_inflight_even_page,
                        answered_page(result),
                    ),
                    interactive_inflight_odd_page: unless_answered(
                        self.request.interactive_inflight_odd_page,
                        answered_page(result),
                    ),
                    pending_interactive_group: if is_complete(group) {
                        None
                    } else {
                        Some(group)
                    },
                    pending_id_aux: if is_complete(group) {
                        None
                    } else {
                        self.request.pending_id_aux
                    },
                    ..self.request
                },
                ..self
            },
            None => self,
        }
    }

    /// The result that comes on screen with an answer.
    pub open spec fn result_for(self, result: ViewerResult) -> Option<ViewerResult> {
        if !self.awaits(result.request_id) {
            None
        } else if self.request.pending_interactive_group is Some {
            self.completed(result)
        } else {
            Some(result)
        }
    }

    /// Whether a chunk is for the animation on screen.
    pub open spec fn plays_on(self) -> bool {
        &&& self.request.active_animation_stream_view == Some(self.persistent.displayed_page)
        &&& self.ui.nav_mode != NavMode::FollowLatest
    }

    pub open spec fn chunk_awaited_no_more(self) -> ViewerModel {
        ViewerModel {
            request: ViewerRequestState { animation_stream_request_id: None, ..self.request },
            ..self
        }
    }

    /// A chunk for the left side: added to the stream there, or the start of one.
    pub open spec fn left_chunk_taken(
        self,
        frames: Option<FrameSet>,
        chunk: Seq<StreamFrame>,
        exhausted: bool,
        now: u64,
    ) -> ViewerModel {
        match (frames, self.content_left) {
            (Some(_), Some(Content::AnimatedStream { .. })) => ViewerModel {
                content_left: Some(self.content_left->0.appended(chunk, exhausted)),
                ..self
            },
            (Some(_), _) => ViewerModel {
                content_left: self.new_content(frames, true, chunk, exhausted, now),
                ..self.uploaded(frames, true, chunk)
            },
            (None, _) => self,
        }
    }

    pub open spec fn right_chunk_taken(
        self,
        frames: Option<FrameSet>,
        chunk: Seq<StreamFrame>,
        exhausted: bool,
        now: u64,
    ) -> ViewerModel {
        match (frames, self.content_right) {
            (Some(_), Some(Content::AnimatedStream { .. })) => ViewerModel {
                content_right: Some(self.content_right->0.appended(chunk, exhausted)),
                ..self
            },
            (Some(_), _) => ViewerModel {
                content_right: self.new_content(frames, true, chunk, exhausted, now),
                ..self.uploaded(frames, true, chunk)
            },
            (None, _) => self,
        }
    }

    /// The chunks of both sides taken, if the animation they are for still plays.
    pub open spec fn chunks_taken(
        self,
        result: ViewerResult,
        left_chunk: Seq<StreamFrame>,
        right_chunk: Seq<StreamFrame>,
        now: u64,
    ) -> ViewerModel {
        let model = self.chunk_awaited_no_more();
        if self.plays_on() {
            model.left_chunk_taken(
                result.left,
                left_chunk,
                result.left_stream_exhausted,
                now,
            ).right_chunk_taken(result.right, right_chunk, result.right_stream_exhausted, now)
        } else {
            model
        }
    }

    /// Whether the animation on screen may ask for more.
    pub open spec fn may_ask_for_chunks(self) -> bool {
        &&& !self.ui.loading
        &&& self.request.queued_view is None
        &&& self.request.animation_stream_request_id is None
        &&& self.plays_on()
    }

    pub open spec fn left_restarts(self) -> bool {
        self.content_left matches Some(content) && content.wants_restart()
    }

    pub open spec fn right_restarts(self) -> bool {
        self.content_right matches Some(content) && content.wants_restart()
    }

    pub open spec fn left_asks(self) -> bool {
        self.left_restarts() || (self.content_left matches Some(content) && content.wants_fill())
    }

    pub open spec fn right_asks(self) -> bool {
        self.right_restarts() || (self.content_right matches Some(content) && content.wants_fill())
    }

    pub open spec fn chunks_due(self) -> bool {
        self.may_ask_for_chunks() && (self.left_asks() || self.right_asks())
    }

    /// The request for more frames of the animation on screen: from the start where a side has
    /// come to its end.
    pub open spec fn chunk_request(self, area: DisplayArea) -> ViewerLoadRequest {
        let view = self.persistent.displayed_page;
        let layout = self.layout(view, area.display_w, area.display_h);
        ViewerLoadRequest {
            request_id: self.next_request_id,
            kind: if self.left_restarts() || self.right_restarts() {
                LoadKind::AnimationStreamStart
            } else {
                LoadKind::AnimationStreamFill
            },
            view_idx: view,
            page_left: if self.left_asks() {
                layout.page_left
            } else {
                None
            },
            page_right: if self.right_asks() {
                layout.page_right
            } else {
                None
            },
            display_w: layout.page_decode_w,
            display_h: layout.page_decode_h,
            quality: self.request.quality,
            max_tex_side: area.max_tex_side,
            nav_id: match self.request.active_nav_id {
                Some(id) => id,
                None => 0,
            },
        }
    }

    /// More frames asked for, where they are due.
    pub open spec fn chunks_asked(self, area: DisplayArea) -> ViewerModel {
        if self.chunks_due() {
            let asked = self.laid_out(self.persistent.displayed_page, false).asked(
                self.chunk_request(area),
            );
            ViewerModel {
                request: ViewerRequestState {
                    animation_stream_request_id: Some(self.next_request_id),
                    ..asked.request
                },
                content_left: if self.left_asks() {
                    Some(self.content_left->0.asking())
                } else {
                    self.content_left
                },
                content_right: if self.right_asks() {
                    Some(self.content_right->0.asking())
                } else {
                    self.content_right
                },
                ..asked
            }
        } else {
            self
        }
    }
}

impl Screen {
    /// An answer of the loader taken. The chunks are the frames of streams in the result that it
    /// brings on screen, or those of the answer itself where it is one for the animation.
    pub open spec fn polled(
        self,
        result: ViewerResult,
        left_chunk: Seq<StreamFrame>,
        right_chunk: Seq<StreamFrame>,
        area: DisplayArea,
        now: u64,
    ) -> Screen {
        if !self.model.awaits(result.request_id) {
            if self.model.request.animation_stream_request_id == Some(result.request_id) {
                Screen {
                    model: self.model.chunks_taken(result, left_chunk, right_chunk, now),
                    ..self
                }
            } else {
                self
            }
        } else if self.model.request.pending_interactive_group is Some {
            let absorbed = Screen { model: self.model.absorbed(result), ..self };
            match self.model.completed(result) {
                Some(complete) => absorbed.applied(
                    complete,
                    left_chunk,
                    right_chunk,
                    area,
                    now,
                    waiting(area, now),
                ),
                None => absorbed,
            }
        } else {
            self.applied(result, left_chunk, right_chunk, area, now, waiting(area, now))
        }
    }

    /// Whether an answer changed anything.
    pub open spec fn polls(self, result: ViewerResult) -> bool {
        if !self.model.awaits(result.request_id) {
            self.model.request.animation_stream_request_id == Some(result.request_id)
                && self.model.plays_on()
        } else if self.model.request.pending_interactive_group is Some {
            match self.model.completed(result) {
                Some(complete) => Screen {
                    model: self.model.absorbed(result),
                    ..self
                }.takes(complete),
                None => true,
            }
        } else {
            self.takes(result)
        }
    }
}

fn merge_group(group: InteractivePendingGroup) -> (result: Option<ViewerResult>)
    ensures
        result == merged(group),
{
    match (group.left_result, group.right_result) {
        (Some(left), Some(right)) => {
            let mut whole: ViewerResult = left;
            if whole.right.is_none() {
                whole.right = right.left;
                whole.right_orig_w = right.left_orig_w;
                whole.right_orig_h = right.left_orig_h;
                whole.right_is_animation_stream = right.left_is_animation_stream;
                whole.right_stream_exhausted = right.left_stream_exhausted;
            }
            whole.decode_ms = left.decode_ms.saturating_add(right.decode_ms);
            whole.queue_wait_ms = max_u64(left.queue_wait_ms, right.queue_wait_ms);
            whole.page_left = group.page_left;
            whole.page_right = group.page_right;
            Some(whole)
        },
        (Some(only), None) => {
            let mut whole: ViewerResult = only;
            whole.page_left = group.page_left;
            whole.page_right = group.page_right;
            Some(whole)
        },
        (None, Some(only)) => {
            let mut whole: ViewerResult = only;
            whole.page_left = group.page_left;
            whole.page_right = group.page_right;
            Some(whole)
        },
        (None, None) => None,
    }
}

fn page_unless_answered(page: Option<u32>, answered: Option<u32>) -> (left: Option<u32>)
    ensures
        left == unless_answered(page, answered),
{
    match page {
        Some(p) => match answered {
            Some(a) => if p == a {
                None
            } else {
                page
            },
            None => page,
        },
        None => None,
    }
}

impl ViewerState {
    fn group_with_answer(&self, result: ViewerResult) -> (group: Option<InteractivePendingGroup>)
        ensures
            group == self@.answered_group(result),
    {
        let mut group: InteractivePendingGroup = match self.request.pending_interactive_group {
            Some(group) => group,
            None => {
                return None;
            },
        };
        if group.generation != self.request.interactive_generation {
            return None;
        }
        if group.left_request_id == Some(result.request_id) {
            group.left_result = Some(result);
            Some(group)
        } else if group.right_request_id == Some(result.request_id) {
            group.right_result = Some(result);
            Some(group)
        } else {
            None
        }
    }

    /// Adds an answer to the group that it belongs to; the whole result, once all are in.
    pub fn absorb_interactive_partial(&mut self, result: ViewerResult) -> (complete: Option<
        ViewerResult,
    >)
        requires
            old(self).wf(),
        ensures
            final(self).wf(),
            final(self)@ == old(self)@.absorbed(result),
            complete == old(self)@.completed(result),
            final(self)@.request.queued_nav == old(self)@.request.queued_nav,
    {
        reveal(ViewerState::wf);
        let group: InteractivePendingGroup = match self.group_with_answer(result) {
            Some(group) => group,
            None => {
                return None;
            },
        };
        let page: Option<u32> = match result.page_left {
            Some(page) => Some(page),
            None => result.page_right,
        };
        self.request.interactive_inflight_even_page =
        page_unless_answered(self.request.interactive_inflight_even_page, page);
        self.request.interactive_inflight_odd_page =
        page_unless_answered(self.request.interactive_inflight_odd_page, page);
        let left_done: bool = group.left_request_id.is_none() || group.left_result.is_some();
        let right_done: bool = group.right_request_id.is_none() || group.right_result.is_some();
        if !left_done || !right_done {
            self.request.pending_interactive_group = Some(group);
            return None;
        }
        self.request.pending_interactive_group = None;
        self.request.pending_id_aux = None;
        merge_group(group)
    }

    fn is_awaited(&self, request_id: u64) -> (awaited: bool)
        ensures
            awaited == self@.awaits(request_id),
    {
        request_id == self.request.pending_id || self.request.pending_id_aux == Some(request_id)
    }

    /// The result that would come on screen with an answer: the caller looks up the frames of
    /// its streams.
    pub fn result_to_show(&self, result: ViewerResult) -> (shown: Option<ViewerResult>)
        ensures
            shown == self@.result_for(result),
    {
        if !self.is_awaited(result.request_id) {
            return None;
        }
        if self.request.pending_interactive_group.is_none() {
            return Some(result);
        }
        match self.group_with_answer(result) {
            Some(group) => {
                let left_done: bool = group.left_request_id.is_none()
                    || group.left_result.is_some();
                let right_done: bool = group.right_request_id.is_none()
                    || group.right_result.is_some();
                if left_done && right_done {
                    merge_group(group)
                } else {
                    None
                }
            },
            None => None,
        }
    }

    fn take_left_chunk(
        &mut self,
        frames: Option<FrameSet>,
        chunk: &Vec<StreamFrame>,
        exhausted: bool,
        now: u64,
    )
        requires
            old(self).wf(),
        ensures
            final(self).wf(),
            final(self)@ == old(self)@.left_chunk_taken(frames, chunk@, exhausted, now),
    {
        if frames.is_none() {
            return;
        }
        let is_stream: bool = match &self.display_assets.content_left {
            Some(PageContent::AnimatedStream { .. }) => true,
            _ => false,
        };
        if is_stream {
            reveal(ViewerState::wf);
            if let Some(content) = &mut self.display_assets.content_left {
                content.append_stream_chunk(chunk, exhausted);
            }
        } else {
            let content: Option<PageContent> = self.upload(frames, true, chunk, exhausted, now);
            reveal(ViewerState::wf);
            self.display_assets.content_left = content;
        }
    }

    fn take_right_chunk(
        &mut self,
        frames: Option<FrameSet>,
        chunk: &Vec<StreamFrame>,
        exhausted: bool,
        now: u64,
    )
        requires
            old(self).wf(),
        ensures
            final(self).wf(),
            final(self)@ == old(self)@.right_chunk_taken(frames, chunk@, exhausted, now),
    {
        if frames.is_none() {
            return;
        }
        let is_stream: bool = match &self.display_assets.content_right {
            Some(PageContent::AnimatedStream { .. }) => true,
            _ => false,
        };
        if is_stream {
            reveal(ViewerState::wf);
            if let Some(content) = &mut self.display_assets.content_right {
                content.append_stream_chunk(chunk, exhausted);
            }
        } else {
            let content: Option<PageContent> = self.upload(frames, true, chunk, exhausted, now);
            reveal(ViewerState::wf);
            self.display_assets.content_right = content;
        }
    }

    fn stop_awaiting_chunk(&mut self)
        requires
            old(self).wf(),
        ensures
            final(self).wf(),
            final(self)@ == old(self)@.chunk_awaited_no_more(),
    {
        reveal(ViewerState::wf);
        self.request.animation_stream_request_id = None;
    }

    /// Takes chunks for the animation on screen; tells whether it still plays.
    pub fn apply_animation_stream_chunk_result(
        &mut self,
        result: ViewerResult,
        left_chunk: &Vec<StreamFrame>,
        right_chunk: &Vec<StreamFrame>,
        now: u64,
    ) -> (applied: bool)
        requires
            old(self).wf(),
        ensures
            final(self).wf(),
            final(self)@ == old(self)@.chunks_taken(result, left_chunk@, right_chunk@, now),
            applied == old(self)@.plays_on(),
    {
        let plays_on: bool = self.request.active_animation_stream_view == Some(
            self.persistent.displayed_page,
        ) && self.ui_runtime.nav_mode != NavMode::FollowLatest;
        self.stop_awaiting_chunk();
        if !plays_on {
            return false;
        }
        self.take_left_chunk(result.left, left_chunk, result.left_stream_exhausted, now);
        self.take_right_chunk(result.right, right_chunk, result.right_stream_exhausted, now);
        true
    }

    /// Takes an answer of the loader; tells whether it changed anything. Answers to requests
    /// that are void by now are passed over.
    pub fn handle_polled_loader_result(
        &mut self,
        bg: &mut RgbaPageCache,
        result: ViewerResult,
        left_chunk: &Vec<StreamFrame>,
        right_chunk: &Vec<StreamFrame>,
        area: DisplayArea,
        now: u64,
    ) -> (handled: bool)
        requires
            old(self).wf(),
            old(bg).wf(),
        ensures
            final(self).wf(),
            final(bg).wf(),
            handled == screen_of(*old(self), *old(bg)).polls(result),
            screen_of(*final(self), *final(bg)) == screen_of(*old(self), *old(bg)).polled(
                result,
                left_chunk@,
                right_chunk@,
                area,
                now,
            ),
    {
        if !self.is_awaited(result.request_id) {
            if self.request.animation_stream_request_id == Some(result.request_id) {
                return self.apply_animation_stream_chunk_result(
                    result,
                    left_chunk,
                    right_chunk,
                    now,
                );
            }
            return false;
        }
        if self.request.pending_interactive_group.is_some() {
            return match self.absorb_interactive_partial(result) {
                Some(complete) => self.apply_display_result(
                    bg,
                    complete,
                    left_chunk,
                    right_chunk,
                    area,
                    now,
                ),
                None => true,
            };
        }
        self.apply_display_result(bg, result, left_chunk, right_chunk, area, now)
    }

    /// Asks for more frames of the animation on screen where it runs low; tells whether it did.
    pub fn maybe_request_animation_stream_fill(&mut self, area: DisplayArea) -> (asked: bool)
        requires
            old(self).wf(),
        ensures
            final(self).wf(),
            final(self)@ == old(self)@.chunks_asked(area),
            asked == old(self)@.chunks_due(),
    {
        if self.ui_runtime.loading || self.request.queued_view.is_some()
            || self.request.animation_stream_request_id.is_some() || self.ui_runtime.nav_mode
            == NavMode::FollowLatest {
            return false;
        }
        let view_idx: u32 = self.persistent.displayed_page;
        if self.request.active_animation_stream_view != Some(view_idx) {
            return false;
        }
        let left_restarts: bool = match &self.display_assets.content_left {
            Some(content) => content.stream_should_restart(),
            None => false,
        };
        let right_restarts: bool = match &self.display_assets.content_right {
            Some(content) => content.stream_should_restart(),
            None => false,
        };
        let left_asks: bool = left_restarts || match &self.display_assets.content_left {
            Some(content) => content.stream_should_fill(),
            None => false,
        };
        let right_asks: bool = right_restarts || match &self.display_assets.content_right {
            Some(content) => content.stream_should_fill(),
            None => false,
        };
        if !left_asks && !right_asks {
            return false;
        }
        let layout: ViewerViewLayout = self.view_layout_for_with_caller(
            view_idx,
            area.display_w,
            area.display_h,
            false,
        );
        reveal(ViewerState::wf);
        proof {
            reveal(ViewerModel::laid_out);
        }
        let request_id: u64 = self.next_request_id;
        self.next_request_id = count_events(request_id, 1);
        self.outbox.push(
            ViewerEffect::Load(
                ViewerLoadRequest {
                    request_id,
                    kind: if left_restarts || right_restarts {
                        LoadKind::AnimationStreamStart
                    } else {
                        LoadKind::AnimationStreamFill
                    },
                    view_idx,
                    page_left: if left_asks {
                        layout.page_left
                    } else {
                        None
                    },
                    page_right: if right_asks {
                        layout.page_right
                    } else {
                        None
                    },
                    display_w: layout.page_decode_w,
                    display_h: layout.page_decode_h,
                    quality: self.request.quality,
                    max_tex_side: area.max_tex_side,
                    nav_id: match self.request.active_nav_id {
                        Some(id) => id,
                        None => 0,
                    },
                },
            ),
        );
        self.request.animation_stream_request_id = Some(request_id);
        if left_asks {
            if let Some(content) = &mut self.display_assets.content_left {
                content.mark_stream_fill_in_flight();
            }
        }
        if right_asks {
            if let Some(content) = &mut self.display_assets.content_right {
                content.mark_stream_fill_in_flight();
            }
        }
        true
    }
}

/// An answer to a request that nothing waits for changes nothing.
pub proof fn law_void_answers_change_nothing(
    screen: Screen,
    result: ViewerResult,
    left_chunk: Seq<StreamFrame>,
    right_chunk: Seq<StreamFrame>,
    area: DisplayArea,
    now: u64,
)
    requires
        !screen.model.awaits(result.request_id),
        screen.model.request.animation_stream_request_id != Some(result.request_id),
    ensures
        screen.polled(result, left_chunk, right_chunk, area, now) == screen,
        !screen.polls(result),
{
}

/// Answers that come in either order make the same result.
pub proof fn law_answers_may_come_in_any_order(
    model: ViewerModel,
    left: ViewerResult,
    right: ViewerResult,
)
    requires
        model.request.pending_interactive_group matches Some(group) && group.generation
            == model.request.interactive_generation && group.left_request_id == Some(left.request_id)
            && group.right_request_id == Some(right.request_id) && left.request_id
            != right.request_id && group.left_result is None && group.right_result is None,
    ensures
        model.completed(left) is None,
        model.completed(right) is None,
        model.absorbed(left).completed(right) is Some,
        model.absorbed(left).completed(right) == model.absorbed(right).completed(left),
{
}

/// No more than one request for chunks is under way.
pub proof fn law_one_chunk_request_at_a_time(model: ViewerModel, area: DisplayArea)
    ensures
        model.chunks_due() ==> !model.chunks_asked(area).chunks_due(),
        model.request.animation_stream_request_id is Some ==> model.chunks_asked(area) == model,
{
}

/// The whole result of two answers shows the page of the first on the left and that of the second
/// on the right, for the pages of the screen. The decodes took the sum of both times and waited for
/// as long as the one that waited longer.
pub proof fn law_two_answers_make_one_screen(
    model: ViewerModel,
    left: ViewerResult,
    right: ViewerResult,
)
    requires
        model.request.pending_interactive_group matches Some(group) && group.generation
            == model.request.interactive_generation && group.left_request_id == Some(left.request_id)
            && group.right_request_id == Some(right.request_id) && left.request_id
            != right.request_id && group.left_result is None && group.right_result is None,
        left.right is None,
        left.decode_ms + right.decode_ms <= u64::MAX,
    ensures
        model.absorbed(left).completed(right) matches Some(whole) && {
            &&& whole.left == left.left
            &&& whole.right == right.left
            &&& whole.left_is_animation_stream == left.left_is_animation_stream
            &&& whole.right_is_animation_stream == right.left_is_animation_stream
            &&& whole.left_stream_exhausted == left.left_stream_exhausted
            &&& whole.right_stream_exhausted == right.left_stream_exhausted
            &&& whole.left_orig_w == left.left_orig_w && whole.left_orig_h == left.left_orig_h
            &&& whole.right_orig_w == right.left_orig_w && whole.right_orig_h == right.left_orig_h
            &&& whole.page_left == model.request.pending_interactive_group->0.page_left
            &&& whole.page_right == model.request.pending_interactive_group->0.page_right
            &&& whole.decode_ms == left.decode_ms + right.decode_ms
            &&& whole.queue_wait_ms >= left.queue_wait_ms && whole.queue_wait_ms
                >= right.queue_wait_ms
            &&& whole.queue_wait_ms == left.queue_wait_ms || whole.queue_wait_ms
                == right.queue_wait_ms
            &&& whole.error == left.error
            &&& whole.page_count == left.page_count
        },
        model.absorbed(left).absorbed(right).request.pending_interactive_group is None,
        model.absorbed(left).absorbed(right).request.pending_id_aux is None,
        model.absorbed(left).request.pending_interactive_group is Some,
{
}

/// A screen of one page is complete with one answer.
pub proof fn law_one_answer_completes_one_page(model: ViewerModel, answer: ViewerResult)
    requires
        model.request.pending_interactive_group matches Some(group) && group.generation
            == model.request.interactive_generation && group.left_request_id == Some(
            answer.request_id,
        ) && group.right_request_id is None && group.right_result is None,
    ensures
        model.completed(answer) matches Some(whole) && whole.left == answer.left && whole.right
            == answer.right && whole.request_id == answer.request_id && whole.error == answer.error,
        model.absorbed(answer).request.pending_interactive_group is None,
{
}

/// An answer that belongs to an older screen is taken for no group.
pub proof fn law_older_generations_are_void(model: ViewerModel, answer: ViewerResult)
    requires
        model.request.pending_interactive_group matches Some(group) ==> group.generation
            != model.request.interactive_generation || (group.left_request_id != Some(
            answer.request_id,
        ) && group.right_request_id != Some(answer.request_id)),
    ensures
        model.completed(answer) is None,
        model.absorbed(answer) == model,
{
}

/// A page that was answered is not under way any longer; the other one still is.
pub proof fn law_answered_pages_are_not_under_way(
    model: ViewerModel,
    answer: ViewerResult,
    page: u32,
)
    requires
        model.answered_group(answer) is Some,
        answer.page_left == Some(page),
    ensures
        ({
            let done = model.absorbed(answer).request;
            &&& done.interactive_inflight_even_page != Some(page)
            &&& done.interactive_inflight_odd_page != Some(page)
            &&& model.request.interactive_inflight_even_page != Some(page)
                ==> done.interactive_inflight_even_page
                == model.request.interactive_inflight_even_page
            &&& model.request.interactive_inflight_odd_page != Some(page)
                ==> done.interactive_inflight_odd_page
                == model.request.interactive_inflight_odd_page
        }),
{
}

/// Chunks count for the animation on screen only, and not while fast input leads away from it.
pub proof fn law_chunks_are_for_the_animation_on_screen(
    model: ViewerModel,
    result: ViewerResult,
    left_chunk: Seq<StreamFrame>,
    right_chunk: Seq<StreamFrame>,
    now: u64,
)
    ensures
        ({
            let done = model.chunks_taken(result, left_chunk, right_chunk, now);
            &&& done.request.animation_stream_request_id is None
            &&& done.persistent == model.persistent
            &&& model.request.active_animation_stream_view != Some(model.persistent.displayed_page)
                || model.ui.nav_mode == NavMode::FollowLatest ==> done.content_left
                == model.content_left && done.content_right == model.content_right
                && done.outbox == model.outbox
            &&& result.left is None ==> done.content_left == model.content_left
            &&& result.right is None ==> done.content_right == model.content_right
        }),
{
    reveal(ViewerModel::uploaded);
    reveal(ViewerModel::new_content);
}

/// More frames are asked for on behalf of the sides that run low, once nothing else is waited for;
/// from the start where one has come to its end.
pub proof fn law_low_streams_ask_for_more(model: ViewerModel, area: DisplayArea)
    requires
        model.chunks_due(),
    ensures
        !model.ui.loading && model.request.queued_view is None,
        model.request.active_animation_stream_view == Some(model.persistent.displayed_page),
        ({
            let asked = model.chunks_asked(area);
            &&& asked.request.animation_stream_request_id == Some(model.next_request_id)
            &&& asked.outbox.len() == model.outbox.len() + 1
            &&& asked.outbox.last() matches ViewerEffect::Load(request) && {
                &&& request.request_id == model.next_request_id
                &&& request.view_idx == model.persistent.displayed_page
                &&& request.quality == model.request.quality
                &&& request.max_tex_side == area.max_tex_side
                &&& (request.kind is AnimationStreamStart) <==> (model.content_left matches Some(
                    content,
                ) && content.wants_restart()) || (model.content_right matches Some(content)
                    && content.wants_restart())
                &&& !(request.kind is AnimationStreamStart) ==> request.kind
                    is AnimationStreamFill
                &&& !(model.content_left is Some) || model.content_left->0 is Static
                    ==> request.page_left is None
                &&& !(model.content_right is Some) || model.content_right->0 is Static
                    ==> request.page_right is None
            }
        }),
{
    reveal(ViewerModel::laid_out);
}

/// An answer that completes the screen is the result that comes on screen; one that does not leaves
/// the screen as it is and is kept; and where the screen was asked for as a whole, its answer is the
/// result.
pub proof fn law_complete_answers_come_on_screen(
    screen: Screen,
    result: ViewerResult,
    left_chunk: Seq<StreamFrame>,
    right_chunk: Seq<StreamFrame>,
    area: DisplayArea,
    now: u64,
)
    requires
        screen.model.request.pending_id == result.request_id,
    ensures
        screen.model.request.pending_interactive_group is None ==> screen.model.result_for(result)
            == Some(result) && screen.polled(result, left_chunk, right_chunk, area, now)
            == screen.applied(result, left_chunk, right_chunk, area, now, waiting(area, now)),
        screen.model.request.pending_interactive_group is Some ==> screen.model.result_for(result)
            == screen.model.completed(result),
        screen.model.request.pending_interactive_group is Some && screen.model.completed(result)
            is None ==> screen.polled(result, left_chunk, right_chunk, area, now) == (Screen {
            model: screen.model.absorbed(result),
            ..screen
        }) && screen.polls(result),
        screen.model.request.pending_interactive_group is Some ==> (screen.model.completed(
            result,
        ) matches Some(whole) ==> screen.polled(result, left_chunk, right_chunk, area, now)
            == (Screen { model: screen.model.absorbed(result), ..screen }).applied(
            whole,
            left_chunk,
            right_chunk,
            area,
            now,
            waiting(area, now),
        )),
{
}

/// An animation asks for more only while it is on screen and nothing else is waited for: no page on
/// its way, none that waits, and no chunk.
pub proof fn law_animations_ask_when_nothing_waits(model: ViewerModel)
    ensures
        model.ui.loading ==> !model.chunks_due(),
        model.request.queued_view is Some ==> !model.chunks_due(),
        model.request.animation_stream_request_id is Some ==> !model.chunks_due(),
        model.request.active_animation_stream_view != Some(model.persistent.displayed_page)
            ==> !model.chunks_due(),
        model.ui.nav_mode == NavMode::FollowLatest ==> !model.chunks_due(),
        !model.ui.loading && model.request.queued_view is None
            && model.request.animation_stream_request_id is None
            && model.request.active_animation_stream_view == Some(model.persistent.displayed_page)
            && model.ui.nav_mode == NavMode::Sequential && (model.content_left matches Some(content)
            && (content.wants_fill() || content.wants_restart())) ==> model.chunks_due(),
{
}

/// A chunk is added to the stream on its side, and to no other.
pub proof fn law_chunks_go_to_their_side(
    model: ViewerModel,
    result: ViewerResult,
    left_chunk: Seq<StreamFrame>,
    right_chunk: Seq<StreamFrame>,
    now: u64,
)
    requires
        model.plays_on(),
        model.content_left matches Some(content) && content is AnimatedStream,
        model.content_right matches Some(content) && content is AnimatedStream,
        result.left is Some,
        result.right is Some,
    ensures
        ({
            let done = model.chunks_taken(result, left_chunk, right_chunk, now);
            &&& done.content_left == Some(
                model.content_left->0.appended(left_chunk, result.left_stream_exhausted),
            )
            &&& done.content_right == Some(
                model.content_right->0.appended(right_chunk, result.right_stream_exhausted),
            )
            &&& done.outbox == model.outbox
        }),
{
}

} // verus!
