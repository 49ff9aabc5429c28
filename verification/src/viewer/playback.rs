//! What the viewer keeps track of from frame to frame: the slideshow, messages, the reading
//! session, the size of the display, and the page on its way.
use std::sync::Arc;

use vstd::prelude::*;

use super::auto_spread_plan::AutoSpreadPlan;
use super::display_model::{armed, slideshow_stopped, waiting_for_display};
use super::page_content::after;
use super::state::{
    held_interval, hold_interval, opened, BoundaryPreviewState, PendingDisplayState,
    PendingVisualState, ReadingSessionState, ViewerModel, ViewerPlaybackState, ViewerRequestState,
    ViewerState, ViewerStateInit, ViewerUiRuntimeState,
};
use crate::num::{abs_diff_u32, distance, greatest, least, max_u32, min_u32};

verus! {

/// How long a message on a key stays: two seconds.
pub const KEY_FEEDBACK_DURATION: u64 = 2_000_000_000;

/// What is reported when a reading session ends.
#[derive(Clone, Copy, Debug, PartialEq, Eq, Structural)]
pub struct ReadingSessionSnapshot {
    pub displayed_any_page: bool,
    pub reached_end: bool,
    pub resume_page: Option<usize>,
    pub page_count: usize,
}

impl ReadingSessionState {
    /// Whether the session may be reported: once only.
    pub open spec fn reportable(self) -> bool {
        !self.notification_sent && !self.notification_in_flight
    }

    pub open spec fn reporting(self) -> ReadingSessionState {
        ReadingSessionState { notification_in_flight: true, ..self }
    }

    pub open spec fn reported(self) -> ReadingSessionState {
        ReadingSessionState { notification_in_flight: false, notification_sent: true, ..self }
    }

    pub open spec fn report(self) -> ReadingSessionSnapshot {
        ReadingSessionSnapshot {
            displayed_any_page: self.displayed_any_page,
            reached_end: self.reached_end,
            resume_page: self.resume_page,
            page_count: self.page_count,
        }
    }

    pub fn begin_notification(&mut self) -> (snapshot: Option<ReadingSessionSnapshot>)
        ensures
            *final(self) == if old(self).reportable() {
                old(self).reporting()
            } else {
                *old(self)
            },
            snapshot == if old(self).reportable() {
                Some(old(self).report())
            } else {
                None
            },
    {
        if self.notification_sent || self.notification_in_flight {
            return None;
        }
        self.notification_in_flight = true;
        Some(
            ReadingSessionSnapshot {
                displayed_any_page: self.displayed_any_page,
                reached_end: self.reached_end,
                resume_page: self.resume_page,
                page_count: self.page_count,
            },
        )
    }

    pub fn complete_notification(&mut self)
        ensures
            *final(self) == old(self).reported(),
    {
        self.notification_in_flight = false;
        self.notification_sent = true;
    }

    pub fn discard_notification(&mut self)
        ensures
            *final(self) == old(self).reported(),
    {
        self.notification_in_flight = false;
        self.notification_sent = true;
    }
}

/// A session is reported once: neither while a report is under way nor after it was sent or
/// given up is there another, whatever is shown meanwhile.
pub proof fn law_session_is_reported_once(
    session: ReadingSessionState,
    left: Option<u32>,
    right: Option<u32>,
    page_count: usize,
)
    ensures
        !session.reporting().reportable(),
        !session.reported().reportable(),
        !session.reported().recorded(left, right, page_count).reportable(),
        session.recorded(left, right, page_count).reportable() == session.reportable(),
{
}

/// The end counts as reached while a screen with the last page is the latest that was shown.
pub proof fn law_end_is_the_last_page(
    session: ReadingSessionState,
    left: Option<u32>,
    right: Option<u32>,
    page_count: usize,
)
    requires
        0 < page_count <= u32::MAX,
        left is Some || right is Some,
    ensures
        session.recorded(left, right, page_count).reached_end == (left == Some(
            (page_count - 1) as u32,
        ) || right == Some((page_count - 1) as u32)),
        session.recorded(left, right, page_count).displayed_any_page,
{
}

/// Whether one side of the display changed by more than a twentieth.
pub open spec fn side_changed(now: u32, before: u32) -> bool {
    greatest(now as int, before as int) * 100 > least(now as int, before as int) * 105
}

fn has_side_changed(now: u32, before: u32) -> (changed: bool)
    ensures
        changed == side_changed(now, before),
{
    max_u32(now, before) as u64 * 100 > min_u32(now, before) as u64 * 105
}

/// Whether the size that pages are decoded for is another one: a side differs by more than
/// sixteen pixels or by more than a twentieth, or was nothing before.
pub open spec fn target_changed(now: (u32, u32), before: (u32, u32)) -> bool {
    ||| distance(now.0 as int, before.0 as int) > 16
    ||| distance(now.1 as int, before.1 as int) > 16
    ||| before.0 == 0
    ||| before.1 == 0
    ||| side_changed(now.0, before.0)
    ||| side_changed(now.1, before.1)
}

impl ViewerModel {
    /// The size that pages are decoded for, noted; with how many frames it has been the same.
    pub open spec fn target_noted(self, target_w: u32, target_h: u32) -> ViewerModel {
        let before_h = match self.request.last_prefetch_target_display_h {
            Some(height) => height,
            None => target_h,
        };
        ViewerModel {
            request: ViewerRequestState {
                prefetch_target_display_w: target_w,
                prefetch_target_display_h: target_h,
                last_prefetch_target_display_w: Some(target_w),
                last_prefetch_target_display_h: Some(target_h),
                display_target_stable_frames: match self.request.last_prefetch_target_display_w {
                    None => 0,
                    Some(before_w) => if target_changed((target_w, target_h), (before_w, before_h)) {
                        0
                    } else {
                        least(
                            self.request.display_target_stable_frames + 1,
                            u32::MAX as int,
                        ) as u32
                    },
                },
                display_target_stability_reason: match self.request.last_prefetch_target_display_w {
                    None => "no-previous-target",
                    Some(before_w) => if target_changed((target_w, target_h), (before_w, before_h)) {
                        "target-size-changed"
                    } else {
                        "waiting-stable-frames"
                    },
                },
                ..self.request
            },
            ..self
        }
    }

    pub open spec fn with_playback(self, playback: ViewerPlaybackState) -> ViewerModel {
        ViewerModel { playback, ..self }
    }

    pub open spec fn has_content(self) -> bool {
        self.content_left is Some || self.content_right is Some
    }

    /// The slideshow started: the first wait begins at once, or with the page on its way.
    pub open spec fn slideshow_started(self, now: u64) -> ViewerModel {
        let active = ViewerPlaybackState { slideshow_active: true, ..self.playback };
        ViewerModel {
            preview: BoundaryPreviewState::Hidden,
            playback: if self.ui.loading || !self.has_content() {
                waiting_for_display(active)
            } else {
                armed(active, now)
            },
            ..self
        }
    }

    pub open spec fn slideshow_toggled(self, now: u64) -> ViewerModel {
        if self.playback.slideshow_active {
            self.with_playback(slideshow_stopped(self.playback))
        } else {
            self.slideshow_started(now)
        }
    }

    /// Another interval, held between the bounds; a slideshow that runs waits anew.
    pub open spec fn with_interval(self, interval: u64, now: u64) -> ViewerModel {
        let changed = ViewerPlaybackState {
            slideshow_interval: held_interval(interval, self.playback.slideshow_bounds),
            ..self.playback
        };
        self.with_playback(
            if self.playback.slideshow_active {
                armed(changed, now)
            } else {
                changed
            },
        )
    }

    pub open spec fn feedback_marked(self, text: &'static str, now: u64) -> ViewerModel {
        ViewerModel {
            ui: ViewerUiRuntimeState {
                key_feedback_text: Some(text),
                key_feedback_until: Some(after(now, KEY_FEEDBACK_DURATION as int)),
                ..self.ui
            },
            ..self
        }
    }

    /// Whether a message is still to be shown.
    pub open spec fn feedback_lasts(self, now: u64) -> bool {
        self.ui.key_feedback_until matches Some(until) && now <= until
    }

    /// The state once messages have been looked at: one whose time is over is gone.
    pub open spec fn feedback_checked(self, now: u64) -> ViewerModel {
        if self.ui.key_feedback_until is Some && !self.feedback_lasts(now) {
            ViewerModel {
                ui: ViewerUiRuntimeState {
                    key_feedback_text: None,
                    key_feedback_until: None,
                    ..self.ui
                },
                ..self
            }
        } else {
            self
        }
    }

    /// Whether an animation is on screen.
    pub open spec fn plays_animation(self) -> bool {
        ||| self.request.active_animation_stream_view is Some
        ||| self.content_left matches Some(content) && !(content is Static)
        ||| self.content_right matches Some(content) && !(content is Static)
    }

    /// Whether a placeholder is due for the page on its way: at once while a key is held, else
    /// after a while; never over an animation.
    pub open spec fn placeholder_due(self, now: u64) -> bool {
        &&& self.ui.loading
        &&& self.has_pending_target()
        &&& !self.plays_animation()
        &&& self.ui.nav_consecutive_count >= 2 || (self.ui.pending_placeholder_after matches Some(at)
            ==> now >= at)
    }

    /// The page on its way, noted. A placeholder that has come up stays until the page is there.
    pub open spec fn pending_noted(self, now: u64) -> ViewerModel {
        let latched = self.has_pending_target() && (self.ui.pending_placeholder_latched
            || self.placeholder_due(now));
        ViewerModel {
            ui: ViewerUiRuntimeState {
                pending_started_at: if !self.has_pending_target() {
                    None
                } else if self.ui.pending_started_at is None {
                    Some(now)
                } else {
                    self.ui.pending_started_at
                },
                pending_placeholder_latched: latched,
                pending_visible_last: Some(latched),
                ..self.ui
            },
            ..self
        }
    }

    pub open spec fn pending_display(self, show_pending: bool) -> PendingDisplayState {
        PendingDisplayState {
            target_page: self.persistent.target_page,
            displayed_page: self.persistent.displayed_page,
            requested_page: self.persistent.requested_page,
            show_pending,
        }
    }
}

impl ViewerState {
    pub fn take_reading_session_snapshot(&mut self) -> (snapshot: Option<ReadingSessionSnapshot>)
        requires
            old(self).wf(),
        ensures
            final(self).wf(),
            final(self)@ == (ViewerModel {
                reading_session: if old(self)@.reading_session.reportable() {
                    old(self)@.reading_session.reporting()
                } else {
                    old(self)@.reading_session
                },
                ..old(self)@
            }),
            snapshot == if old(self)@.reading_session.reportable() {
                Some(old(self)@.reading_session.report())
            } else {
                None
            },
    {
        reveal(ViewerState::wf);
        self.reading_session.begin_notification()
    }

    pub fn complete_reading_session_notification(&mut self)
        requires
            old(self).wf(),
        ensures
            final(self).wf(),
            final(self)@ == (ViewerModel {
                reading_session: old(self)@.reading_session.reported(),
                ..old(self)@
            }),
    {
        reveal(ViewerState::wf);
        self.reading_session.complete_notification();
    }

    pub fn discard_reading_session_notification(&mut self)
        requires
            old(self).wf(),
        ensures
            final(self).wf(),
            final(self)@ == (ViewerModel {
                reading_session: old(self)@.reading_session.reported(),
                ..old(self)@
            }),
    {
        reveal(ViewerState::wf);
        self.reading_session.discard_notification();
    }

    pub fn update_display_target_stability(&mut self, target_w: u32, target_h: u32)
        requires
            old(self).wf(),
        ensures
            final(self).wf(),
            final(self)@ == old(self)@.target_noted(target_w, target_h),
    {
        reveal(ViewerState::wf);
        self.request.prefetch_target_display_w = target_w;
        self.request.prefetch_target_display_h = target_h;
        match self.request.last_prefetch_target_display_w {
            None => {
                self.request.display_target_stable_frames = 0;
                self.request.display_target_stability_reason = "no-previous-target";
            },
            Some(before_w) => {
                let before_h: u32 = match self.request.last_prefetch_target_display_h {
                    Some(height) => height,
                    None => target_h,
                };
                let changed_px: bool = abs_diff_u32(target_w, before_w) > 16 || abs_diff_u32(
                    target_h,
                    before_h,
                ) > 16;
                let changed_ratio: bool = before_w == 0 || before_h == 0 || has_side_changed(
                    target_w,
                    before_w,
                ) || has_side_changed(target_h, before_h);
                if changed_px || changed_ratio {
                    self.request.display_target_stable_frames = 0;
                    self.request.display_target_stability_reason = "target-size-changed";
                } else {
                    self.request.display_target_stable_frames =
                    self.request.display_target_stable_frames.saturating_add(1);
                    self.request.display_target_stability_reason = "waiting-stable-frames";
                }
            },
        }
        self.request.last_prefetch_target_display_w = Some(target_w);
        self.request.last_prefetch_target_display_h = Some(target_h);
    }

    pub fn mark_key_feedback(&mut self, text: &'static str, now: u64)
        requires
            old(self).wf(),
        ensures
            final(self).wf(),
            final(self)@ == old(self)@.feedback_marked(text, now),
    {
        reveal(ViewerState::wf);
        self.ui_runtime.key_feedback_text = Some(text);
        self.ui_runtime.key_feedback_until = Some(now.saturating_add(KEY_FEEDBACK_DURATION));
    }

    pub fn key_feedback_text(&mut self, now: u64) -> (text: Option<&'static str>)
        requires
            old(self).wf(),
        ensures
            final(self).wf(),
            final(self)@ == old(self)@.feedback_checked(now),
            text == if old(self)@.feedback_lasts(now) {
                old(self)@.ui.key_feedback_text
            } else {
                None
            },
    {
        reveal(ViewerState::wf);
        let until: u64 = match self.ui_runtime.key_feedback_until {
            Some(until) => until,
            None => {
                return None;
            },
        };
        if now <= until {
            self.ui_runtime.key_feedback_text
        } else {
            self.ui_runtime.key_feedback_until = None;
            self.ui_runtime.key_feedback_text = None;
            None
        }
    }

    pub fn slideshow_active(&self) -> (active: bool)
        ensures
            active == self@.playback.slideshow_active,
    {
        self.playback.slideshow_active
    }

    /// The time between two pages, in nanoseconds.
    pub fn slideshow_interval(&self) -> (interval: u64)
        ensures
            interval == self@.playback.slideshow_interval,
    {
        self.playback.slideshow_interval
    }

    pub fn arm_slideshow_from_now(&mut self, now: u64)
        requires
            old(self).wf(),
        ensures
            final(self).wf(),
            final(self)@ == old(self)@.with_playback(armed(old(self)@.playback, now)),
    {
        reveal(ViewerState::wf);
        self.playback.arm_from(now);
    }

    pub fn start_slideshow(&mut self, now: u64)
        requires
            old(self).wf(),
        ensures
            final(self).wf(),
            final(self)@ == old(self)@.slideshow_started(now),
    {
        reveal(ViewerState::wf);
        self.boundary_preview = BoundaryPreviewState::Hidden;
        self.playback.slideshow_active = true;
        if self.ui_runtime.loading || (self.display_assets.content_left.is_none()
            && self.display_assets.content_right.is_none()) {
            self.playback.wait_for_display();
        } else {
            self.playback.arm_from(now);
        }
    }

    pub fn toggle_slideshow(&mut self, now: u64)
        requires
            old(self).wf(),
        ensures
            final(self).wf(),
            final(self)@ == old(self)@.slideshow_toggled(now),
    {
        if self.playback.slideshow_active {
            self.stop_slideshow();
        } else {
            self.start_slideshow(now);
        }
    }

    pub fn mark_slideshow_wait_display(&mut self)
        requires
            old(self).wf(),
        ensures
            final(self).wf(),
            final(self)@ == old(self)@.with_playback(waiting_for_display(old(self)@.playback)),
    {
        reveal(ViewerState::wf);
        self.playback.wait_for_display();
    }

    pub fn set_slideshow_interval(&mut self, interval: u64, now: u64)
        requires
            old(self).wf(),
        ensures
            final(self).wf(),
            final(self)@ == old(self)@.with_interval(interval, now),
    {
        reveal(ViewerState::wf);
        self.playback.slideshow_interval = hold_interval(interval, self.playback.slideshow_bounds);
        if self.playback.slideshow_active {
            self.playback.arm_from(now);
        }
    }

    pub fn suppress_pending_for_animation(&self) -> (suppress: bool)
        ensures
            suppress == self@.plays_animation(),
    {
        if self.request.active_animation_stream_view.is_some() {
            return true;
        }
        let left: bool = match &self.display_assets.content_left {
            Some(content) => content.is_animated(),
            None => false,
        };
        let right: bool = match &self.display_assets.content_right {
            Some(content) => content.is_animated(),
            None => false,
        };
        left || right
    }

    pub fn show_follow_placeholder(&self) -> (show: bool)
        ensures
            show == self@.ui.pending_placeholder_latched,
    {
        self.ui_runtime.pending_placeholder_latched
    }

    pub fn pending_placeholder_candidate(&self, now: u64) -> (due: bool)
        ensures
            due == self@.placeholder_due(now),
    {
        if !(self.ui_runtime.loading && self.has_pending_target()
            && !self.suppress_pending_for_animation()) {
            return false;
        }
        if self.ui_runtime.nav_consecutive_count >= 2 {
            return true;
        }
        match self.ui_runtime.pending_placeholder_after {
            Some(at) => now >= at,
            None => true,
        }
    }

    pub fn update_pending_progress_state(&mut self, now: u64)
        requires
            old(self).wf(),
        ensures
            final(self).wf(),
            final(self)@ == old(self)@.pending_noted(now),
    {
        let pending: bool = self.has_pending_target();
        let due: bool = self.pending_placeholder_candidate(now);
        reveal(ViewerState::wf);
        if pending {
            if self.ui_runtime.pending_started_at.is_none() {
                self.ui_runtime.pending_started_at = Some(now);
            }
            if due {
                self.ui_runtime.pending_placeholder_latched = true;
            }
        } else {
            self.ui_runtime.pending_started_at = None;
            self.ui_runtime.pending_placeholder_latched = false;
        }
        self.ui_runtime.pending_visible_last = Some(self.ui_runtime.pending_placeholder_latched);
    }

    pub fn pending_visual_state_for_progress(
        &self,
        show_pending: bool,
        progress_hover: bool,
        progress_drag: bool,
        drag_fraction_milli: Option<u16>,
    ) -> (state: PendingVisualState)
        ensures
            state == (PendingVisualState {
                target_page: self@.persistent.target_page,
                displayed_page: self@.persistent.displayed_page,
                requested_page: self@.persistent.requested_page,
                show_pending,
                progress_hover,
                progress_drag,
                drag_fraction_milli,
            }),
    {
        PendingVisualState {
            target_page: self.persistent.target_page,
            displayed_page: self.persistent.displayed_page,
            requested_page: self.persistent.requested_page,
            show_pending,
            progress_hover,
            progress_drag,
            drag_fraction_milli,
        }
    }

    /// Notes what the progress bar shows; tells whether it changed.
    pub fn update_pending_visual_state(&mut self, current: PendingVisualState) -> (changed: bool)
        requires
            old(self).wf(),
        ensures
            final(self).wf(),
            changed == (old(self)@.ui.last_pending_visual_state != current),
            final(self)@ == (ViewerModel {
                ui: ViewerUiRuntimeState { last_pending_visual_state: current, ..old(self)@.ui },
                ..old(self)@
            }),
    {
        if self.ui_runtime.last_pending_visual_state == current {
            return false;
        }
        reveal(ViewerState::wf);
        self.ui_runtime.last_pending_visual_state = current;
        true
    }

    pub fn pending_display_state(&self, show_pending: bool) -> (state: PendingDisplayState)
        ensures
            state == self@.pending_display(show_pending),
    {
        PendingDisplayState {
            target_page: self.persistent.target_page,
            displayed_page: self.persistent.displayed_page,
            requested_page: self.persistent.requested_page,
            show_pending,
        }
    }

    /// Notes what the screen shows of the page on its way; tells whether it changed.
    pub fn update_pending_display_state(&mut self, current: PendingDisplayState) -> (changed: bool)
        requires
            old(self).wf(),
        ensures
            final(self).wf(),
            changed == (old(self)@.ui.last_pending_display_state != Some(current)),
            final(self)@ == (ViewerModel {
                ui: ViewerUiRuntimeState {
                    last_pending_display_state: Some(current),
                    ..old(self)@.ui
                },
                ..old(self)@
            }),
    {
        reveal(ViewerState::wf);
        let changed: bool = match self.ui_runtime.last_pending_display_state {
            Some(last) => last != current,
            None => true,
        };
        self.ui_runtime.last_pending_display_state = Some(current);
        changed
    }
}

/// A placeholder that has come up stays until the page is on screen.
pub proof fn law_placeholder_stays(model: ViewerModel, first: u64, second: u64)
    requires
        model.has_pending_target(),
        model.pending_noted(first).ui.pending_placeholder_latched,
    ensures
        model.pending_noted(first).pending_noted(second).ui.pending_placeholder_latched,
        model.pending_noted(first).pending_noted(second).ui.pending_started_at
            == model.pending_noted(first).ui.pending_started_at,
{
}

/// Nothing is shown in place of a page that is on screen.
pub proof fn law_no_placeholder_without_a_page_on_its_way(model: ViewerModel, now: u64)
    requires
        !model.has_pending_target(),
    ensures
        !model.pending_noted(now).ui.pending_placeholder_latched,
        model.pending_noted(now).ui.pending_started_at is None,
{
}

/// Switching the slideshow on and off again leaves it off, with nothing waited for.
pub proof fn law_slideshow_toggles(model: ViewerModel, now: u64, later: u64)
    requires
        !model.playback.slideshow_active,
    ensures
        model.slideshow_toggled(now).playback.slideshow_active,
        model.slideshow_toggled(now).slideshow_toggled(later).playback == slideshow_stopped(
            model.playback,
        ),
{
}

/// The interval lies between the bounds, when a book is opened and after every change.
pub proof fn law_interval_is_held(
    init: ViewerStateInit,
    plan: Option<Arc<AutoSpreadPlan>>,
    model: ViewerModel,
    interval: u64,
    now: u64,
)
    requires
        init.slideshow_bounds.shortest <= init.slideshow_bounds.longest,
        model.playback.slideshow_bounds == init.slideshow_bounds,
    ensures
        init.slideshow_bounds.shortest <= opened(init, plan).playback.slideshow_interval
            <= init.slideshow_bounds.longest,
        init.slideshow_bounds.shortest <= model.with_interval(
            interval,
            now,
        ).playback.slideshow_interval <= init.slideshow_bounds.longest,
        model.with_interval(interval, now).playback.slideshow_bounds == init.slideshow_bounds,
{
}

/// The place to resume at is the first page of the latest screen that was shown, whatever was shown
/// before.
pub proof fn law_latest_screen_is_resumed(
    session: ReadingSessionState,
    left: Option<u32>,
    right: Option<u32>,
    page_count: usize,
)
    ensures
        left matches Some(page) ==> session.recorded(left, right, page_count).resume_page == Some(
            page as usize,
        ),
        left is None ==> (right matches Some(page) ==> session.recorded(
            left,
            right,
            page_count,
        ).resume_page == Some(page as usize)),
        left is None && right is None ==> session.recorded(left, right, page_count) == session,
        (left is Some || right is Some) && page_count > 0 ==> session.recorded(
            left,
            right,
            page_count,
        ).page_count == page_count,
{
}

/// A report tells the session as it is: the place to resume at, whether the end was reached, and
/// how many pages the book has.
pub proof fn law_reports_tell_the_session(
    session: ReadingSessionState,
    left: u32,
    right: Option<u32>,
    page_count: usize,
)
    requires
        0 < page_count <= u32::MAX,
    ensures
        ({
            let report = session.recorded(Some(left), right, page_count).report();
            &&& report.resume_page == Some(left as usize)
            &&& report.page_count == page_count
            &&& report.displayed_any_page
            &&& report.reached_end <==> left + 1 == page_count || right == Some(
                (page_count - 1) as u32,
            )
        }),
{
}

/// The size that pages are decoded for counts as the same while neither side moves by more than
/// sixteen pixels or by more than a twentieth; and the comparison goes both ways.
pub proof fn law_small_changes_of_size_do_not_count(now: (u32, u32), before: (u32, u32))
    requires
        now.0 > 0 && now.1 > 0 && before.0 > 0 && before.1 > 0,
    ensures
        target_changed(now, before) == target_changed(before, now),
        !target_changed(now, now),
        !target_changed(now, before) <==> {
            &&& -16 <= now.0 - before.0 <= 16
            &&& -16 <= now.1 - before.1 <= 16
            &&& 20 * (now.0 - before.0) <= before.0 && 20 * (before.0 - now.0) <= now.0
            &&& 20 * (now.1 - before.1) <= before.1 && 20 * (before.1 - now.1) <= now.1
        },
{
}

/// The count of stable frames goes up while the size stays and starts over when it changes.
pub proof fn law_stable_frames_are_counted(model: ViewerModel, w: u32, h: u32)
    requires
        w > 0 && h > 0,
        model.request.display_target_stable_frames + 1 < u32::MAX,
    ensures
        model.target_noted(w, h).target_noted(w, h).request.display_target_stable_frames
            == model.target_noted(w, h).request.display_target_stable_frames + 1,
        model.request.last_prefetch_target_display_w is None ==> model.target_noted(
            w,
            h,
        ).request.display_target_stable_frames == 0,
        model.request.last_prefetch_target_display_w matches Some(before) && before + 16 < w
            ==> model.target_noted(w, h).request.display_target_stable_frames == 0,
        model.target_noted(w, h).request.last_prefetch_target_display_w == Some(w),
        model.target_noted(w, h).request.last_prefetch_target_display_h == Some(h),
        model.target_noted(w, h).request.prefetch_target_display_w == w,
        model.target_noted(w, h).request.prefetch_target_display_h == h,
{
}

/// A slideshow that starts on a page that is there turns it one interval later; while a page is on
/// its way it waits for that page.
pub proof fn law_slideshow_waits_one_interval(model: ViewerModel, now: u64)
    requires
        now + model.playback.slideshow_interval <= u64::MAX,
    ensures
        ({
            let started = model.slideshow_started(now).playback;
            &&& started.slideshow_active
            &&& !model.ui.loading && (model.content_left is Some || model.content_right is Some)
                ==> started.slideshow_next_slide_at == Some(
                (now + model.playback.slideshow_interval) as u64,
            ) && !started.slideshow_arm_on_display
            &&& model.ui.loading || (model.content_left is None && model.content_right is None)
                ==> started.slideshow_next_slide_at is None && started.slideshow_arm_on_display
            &&& started.slideshow_interval == model.playback.slideshow_interval
        }),
        model.slideshow_started(now).preview is Hidden,
        armed(waiting_for_display(model.playback), now).slideshow_next_slide_at == Some(
            (now + model.playback.slideshow_interval) as u64,
        ),
{
}

/// A slideshow that is stopped turns no page.
pub proof fn law_stopped_slideshows_wait_for_nothing(playback: ViewerPlaybackState)
    ensures
        !slideshow_stopped(playback).slideshow_active,
        slideshow_stopped(playback).slideshow_next_slide_at is None,
        !slideshow_stopped(playback).slideshow_arm_on_display,
        waiting_for_display(slideshow_stopped(playback)) == slideshow_stopped(playback),
{
}

/// An interval within the bounds is taken as it is, one outside them becomes the nearer bound, and
/// a slideshow that runs waits for the new interval from now on.
pub proof fn law_interval_is_taken_as_given(model: ViewerModel, interval: u64, now: u64)
    requires
        model.playback.slideshow_bounds.shortest <= model.playback.slideshow_bounds.longest,
        now + model.playback.slideshow_bounds.longest <= u64::MAX,
    ensures
        ({
            let bounds = model.playback.slideshow_bounds;
            let changed = model.with_interval(interval, now).playback;
            &&& bounds.shortest <= interval <= bounds.longest ==> changed.slideshow_interval
                == interval
            &&& interval < bounds.shortest ==> changed.slideshow_interval == bounds.shortest
            &&& interval > bounds.longest ==> changed.slideshow_interval == bounds.longest
            &&& model.playback.slideshow_active ==> changed.slideshow_next_slide_at == Some(
                (now + changed.slideshow_interval) as u64,
            )
            &&& !model.playback.slideshow_active ==> changed.slideshow_next_slide_at
                == model.playback.slideshow_next_slide_at
            &&& changed.slideshow_active == model.playback.slideshow_active
        }),
{
}

/// A message on a key is shown for two seconds, and is gone once they are over.
pub proof fn law_messages_last_two_seconds(
    model: ViewerModel,
    text: &'static str,
    now: u64,
    later: u64,
)
    requires
        now + 2_000_000_000 <= u64::MAX,
    ensures
        model.feedback_marked(text, now).feedback_lasts(later) <==> later <= now + 2_000_000_000,
        model.feedback_marked(text, now).ui.key_feedback_text == Some(text),
        model.feedback_marked(text, now).feedback_lasts(later) ==> model.feedback_marked(
            text,
            now,
        ).feedback_checked(later) == model.feedback_marked(text, now),
        !model.feedback_marked(text, now).feedback_lasts(later) ==> model.feedback_marked(
            text,
            now,
        ).feedback_checked(later).ui.key_feedback_text is None,
        model.ui.key_feedback_until is None ==> !model.feedback_lasts(now)
            && model.feedback_checked(now) == model,
{
}

/// A placeholder comes up only for a page on its way, while nothing plays: at the second fast input,
/// or once the wait for it is over.
pub proof fn law_placeholders_come_up_late(model: ViewerModel, now: u64)
    ensures
        model.placeholder_due(now) ==> model.ui.loading && model.persistent.target_page
            != model.persistent.displayed_page && model.request.active_animation_stream_view
            is None,
        model.ui.nav_consecutive_count < 2 && (model.ui.pending_placeholder_after matches Some(at)
            && now < at) ==> !model.placeholder_due(now),
        model.ui.loading && model.persistent.target_page != model.persistent.displayed_page
            && model.request.active_animation_stream_view is None && model.content_left is None
            && model.content_right is None && (model.ui.nav_consecutive_count >= 2 || (
        model.ui.pending_placeholder_after matches Some(at) && now >= at)) ==> model.placeholder_due(
            now,
        ),
{
}

/// The wait for a page is told from the first frame in which it was on its way.
pub proof fn law_waits_are_told_from_their_start(model: ViewerModel, first: u64, second: u64)
    requires
        model.persistent.target_page != model.persistent.displayed_page,
        model.ui.pending_started_at is None,
    ensures
        model.pending_noted(first).ui.pending_started_at == Some(first),
        model.pending_noted(first).pending_noted(second).ui.pending_started_at == Some(first),
{
}

} // verus!
