//! One frame of the viewer, in the order of its steps: sizes are settled, answers are taken, the
//! slideshow moves on, input is acted on, and the screen to paint is decided.

use vstd::prelude::*;
use vstd::string::*;

use super::display::screen_of;
use super::display_model::{armed, slideshow_stopped, waiting_for_display, DisplayArea, Screen};
use super::gpu_texture_history::{count_events, counted};
use super::layout::ViewerViewLayout;
use super::page_content::after;
use super::rgba_page_cache::RgbaPageCache;
use super::state::{
    BoundaryPreviewDirection, BoundaryPreviewState, FullEquivalentSizeHint,
    FullEquivalentSizeHintSource, NavMode, ViewerEffect, ViewerModel, ViewerState,
    ViewerUiRuntimeState,
};
use crate::domain::ReadingDirection;
use crate::num::monus;

verus! {

/// How soon a frame follows while a page is on its way: 16 milliseconds.
pub const LOADING_REPAINT_INTERVAL: u64 = 16_000_000;

/// How long the controls stay over a full-screen page: a second.
pub const FULLSCREEN_OVERLAY_AUTO_HIDE_DELAY: u64 = 1_000_000_000;

/// How long the wheel rests after a page was turned by it: 120 milliseconds.
pub const WHEEL_COOLDOWN: u64 = 120_000_000;

/// The longest wait for the next frame while the slideshow runs: a second.
pub const SLIDESHOW_REPAINT_LIMIT: u64 = 1_000_000_000;

/// What the user may do here.
#[derive(Clone, Copy, Debug, PartialEq, Eq, Structural)]
pub struct ViewerUiCapabilities {
    pub allow_delete: bool,
    pub allow_book_navigation: bool,
    pub allow_favorite_toggle: bool,
}

#[derive(Clone, Copy, Debug, PartialEq, Eq, Structural)]
pub enum ExternalToolTrigger {
    Toolbar,
    Shortcut { key: char },
}

/// What the caller is to do after a frame.
pub enum ViewerAction {
    Nothing,
    ToggleFullscreen,
    RequestDelete,
    ToggleFavorite,
    PreviousBook,
    NextBook,
    RunExternalTool { tool_index: usize, target_path: String, trigger: ExternalToolTrigger },
}

pub enum ExternalToolToolbarState {
    Idle,
    Running { tool_index: usize, path: String },
    Success { tool_index: usize, path: String },
    Failed { tool_index: usize, path: String },
}

/// The area of a frame, and whether the window is changing.
#[derive(Clone, Copy, Debug, PartialEq, Eq, Structural)]
pub struct FrameArea {
    pub display_w: u32,
    pub display_h: u32,
    pub in_fullscreen_transition: bool,
    pub in_viewport_transition: bool,
}

impl ViewerModel {
    /// A frame begun, with the size of the monitor where it is known.
    pub open spec fn frame_begun(self, monitor_size: Option<(u32, u32)>, now: u64) -> ViewerModel {
        ViewerModel {
            hint: match monitor_size {
                Some((width, height)) if width >= 1 && height >= 1 => Some(
                    FullEquivalentSizeHint {
                        monitor_width: width,
                        monitor_height: height,
                        source: FullEquivalentSizeHintSource::ViewerViewport,
                    },
                ),
                _ => self.hint,
            },
            ui: ViewerUiRuntimeState {
                last_show_at: Some(now),
                show_seq: counted(self.ui.show_seq, 1),
                ..self.ui
            },
            ..self
        }
    }

    /// The area to show pages in: while the window is changing, the last one that was at rest.
    pub open spec fn frame_area(self, measured_w: u32, measured_h: u32) -> FrameArea {
        let fullscreen = self.ui.fullscreen_transition_frames > 0;
        let changing = fullscreen || self.ui.viewport_transition_active;
        FrameArea {
            display_w: if changing && self.ui.last_stable_display_w > 0 {
                self.ui.last_stable_display_w
            } else {
                measured_w
            },
            display_h: if changing && self.ui.last_stable_display_h > 0 {
                self.ui.last_stable_display_h
            } else {
                measured_h
            },
            in_fullscreen_transition: fullscreen,
            in_viewport_transition: changing,
        }
    }

    /// A frame measured: an area at rest is noted, a transition comes one frame nearer its end.
    pub open spec fn frame_measured(self, measured_w: u32, measured_h: u32) -> ViewerModel {
        let area = self.frame_area(measured_w, measured_h);
        let at_rest = !area.in_viewport_transition && area.display_w > 0 && area.display_h > 0;
        ViewerModel {
            ui: ViewerUiRuntimeState {
                fullscreen_transition_frames: monus(
                    self.ui.fullscreen_transition_frames as nat,
                    1,
                ) as u8,
                last_stable_display_w: if at_rest {
                    area.display_w
                } else {
                    self.ui.last_stable_display_w
                },
                last_stable_display_h: if at_rest {
                    area.display_h
                } else {
                    self.ui.last_stable_display_h
                },
                ..self.ui
            },
            ..self
        }
    }

    /// The decode size of the page that was asked for, noted and told to the background work.
    pub open spec fn target_published(self, area: DisplayArea) -> ViewerModel {
        let page = self.persistent.requested_page;
        let layout = self.layout(page, area.display_w, area.display_h);
        let noted = self.laid_out(page, true).target_noted(
            layout.page_decode_w,
            layout.page_decode_h,
        );
        noted.with_effect(ViewerEffect::Publish(noted.published(area)))
    }

    /// Whether the slideshow has waited long enough.
    pub open spec fn slide_due(self, now: u64) -> bool {
        self.playback.slideshow_active && (self.playback.slideshow_next_slide_at matches Some(at)
            && now >= at)
    }

    /// The slideshow's wait begun, where it was to begin with the page that is now on screen.
    pub open spec fn slideshow_armed_if_shown(self, now: u64) -> ViewerModel {
        if self.playback.slideshow_active && self.playback.slideshow_arm_on_display
            && !self.ui.loading && self.has_content() {
            self.with_playback(armed(self.playback, now))
        } else {
            self
        }
    }

    /// The traces of an input that led nowhere taken back.
    pub open spec fn input_taken_back(self, before: ViewerModel) -> ViewerModel {
        ViewerModel {
            ui: ViewerUiRuntimeState {
                nav_mode: before.ui.nav_mode,
                last_nav_input_at: before.ui.last_nav_input_at,
                nav_consecutive_count: before.ui.nav_consecutive_count,
                ..self.ui
            },
            ..self
        }
    }

    pub open spec fn with_wheel_cooldown(self, until: Option<u64>) -> ViewerModel {
        ViewerModel {
            ui: ViewerUiRuntimeState { wheel_cooldown_until: until, ..self.ui },
            ..self
        }
    }

    /// Whether the wheel rests.
    pub open spec fn wheel_rests(self, now: u64) -> bool {
        self.ui.wheel_cooldown_until matches Some(until) && now < until
    }
}

/// A step that input asks for.
#[derive(Clone, Copy, Debug, PartialEq, Eq, Structural)]
pub enum InputStep {
    Next,
    Previous,
    First,
    Last,
}

impl InputStep {
    pub open spec fn target(self, model: ViewerModel) -> Option<u32> {
        match self {
            InputStep::Next => model.next_page(),
            InputStep::Previous => model.previous_page(),
            InputStep::First => model.first_page(),
            InputStep::Last => model.last_page(),
        }
    }

    pub open spec fn direction(self) -> i32 {
        match self {
            InputStep::Next => 1i32,
            InputStep::Previous => -1i32,
            InputStep::First => 1i32,
            InputStep::Last => -1i32,
        }
    }

    /// The preview of a neighbour after the step: a move closes it, and a step on at either end
    /// of the book brings it up.
    #[verifier::opaque]
    pub open spec fn preview_after(self, model: ViewerModel, enabled: bool, moved: bool) ->
        ViewerModel {
        match self {
            InputStep::Next => model.preview_after_step(
                enabled,
                moved,
                BoundaryPreviewDirection::Next,
            ),
            InputStep::Previous => model.preview_after_step(
                enabled,
                moved,
                BoundaryPreviewDirection::Previous,
            ),
            _ => if moved {
                model.with_preview(BoundaryPreviewState::Hidden)
            } else {
                model
            },
        }
    }
}

/// The keys that a frame found pressed.
#[derive(Clone, Copy, Debug, PartialEq, Eq, Structural)]
pub struct ViewerKeys {
    pub left_side: bool,
    pub right_side: bool,
    pub page_down: bool,
    pub page_up: bool,
    pub home: bool,
    pub end: bool,
    pub previous_book: bool,
    pub next_book: bool,
    pub delete: bool,
    pub toggle_slideshow: bool,
    pub toggle_fullscreen: bool,
}

/// Whether the keys lead forward; which side that is depends on the direction of reading.
pub open spec fn leads_forward(keys: ViewerKeys, direction: ReadingDirection) -> bool {
    (match direction {
        ReadingDirection::RightToLeft => keys.left_side,
        ReadingDirection::LeftToRight => keys.right_side,
    }) || keys.page_down
}

pub open spec fn leads_back(keys: ViewerKeys, direction: ReadingDirection) -> bool {
    (match direction {
        ReadingDirection::RightToLeft => keys.right_side,
        ReadingDirection::LeftToRight => keys.left_side,
    }) || keys.page_up
}

/// What the keys ask of the caller.
pub open spec fn key_action(keys: ViewerKeys, capabilities: ViewerUiCapabilities) -> ViewerAction {
    if keys.toggle_fullscreen {
        ViewerAction::ToggleFullscreen
    } else if capabilities.allow_delete && keys.delete {
        ViewerAction::RequestDelete
    } else if capabilities.allow_book_navigation && keys.next_book {
        ViewerAction::NextBook
    } else if capabilities.allow_book_navigation && keys.previous_book {
        ViewerAction::PreviousBook
    } else {
        ViewerAction::Nothing
    }
}

impl Screen {
    pub open spec fn with_model(self, model: ViewerModel) -> Screen {
        Screen { model, ..self }
    }

    /// Sizes settled: the background work is told, and the first page is asked for once the
    /// window is at rest.
    pub open spec fn frame_prepared(
        self,
        area: DisplayArea,
        in_viewport_transition: bool,
        now: u64,
    ) -> Screen {
        let told = self.with_model(self.model.target_published(area));
        if !in_viewport_transition && told.model.request.initial_load_pending {
            told.with_model(told.model.initial_load_taken()).view_loaded(
                told.model.persistent.requested_page,
                area,
                now,
            )
        } else {
            told
        }
    }

    /// The slideshow's part of a frame: a page is turned when its time has come, and the
    /// slideshow ends where there is none.
    pub open spec fn slideshow_run(self, area: DisplayArea, blocked: bool, now: u64) -> Screen {
        let ready = self.with_model(self.model.slideshow_armed_if_shown(now));
        if !blocked && ready.model.slide_due(now) {
            let noted = ready.with_model(ready.model.input_noted(now));
            let turned = noted.stepped(noted.model.next_page(), 1, area, now);
            if turned.model.persistent.target_page == self.model.persistent.target_page {
                turned.with_model(
                    turned.model.with_playback(slideshow_stopped(turned.model.playback)),
                )
            } else {
                let closed = turned.model.with_preview(BoundaryPreviewState::Hidden);
                turned.with_model(closed.with_playback(waiting_for_display(closed.playback)))
            }
        } else {
            ready
        }
    }

    /// Where a step of input leads, before its traces are looked at.
    #[verifier::opaque]
    pub open spec fn step_taken(self, step: InputStep, area: DisplayArea, now: u64) -> Screen {
        let noted = self.with_model(
            self.model.with_playback(slideshow_stopped(self.model.playback)).input_noted(now),
        );
        noted.stepped(step.target(noted.model), step.direction(), area, now)
    }

    /// Whether a step of input leads to another page.
    pub open spec fn step_moves(self, step: InputStep, area: DisplayArea, now: u64) -> bool {
        self.step_taken(step, area, now).model.persistent.target_page
            != self.model.persistent.target_page
    }

    /// A step of input: the slideshow ends; a step that leads nowhere leaves no trace but the
    /// preview of the neighbour; one by the wheel lets the wheel rest.
    pub open spec fn input_step(
        self,
        step: InputStep,
        by_wheel: bool,
        previews: bool,
        area: DisplayArea,
        now: u64,
    ) -> Screen {
        let taken = self.step_taken(step, area, now);
        let moved = self.step_moves(step, area, now);
        let settled = if !moved {
            taken.model.input_taken_back(self.model)
        } else if by_wheel {
            taken.model.with_wheel_cooldown(Some(after(now, WHEEL_COOLDOWN as int)))
        } else {
            taken.model
        };
        taken.with_model(step.preview_after(settled, previews, moved))
    }

    /// The step, if it is asked for.
    pub open spec fn step_if(
        self,
        asked: bool,
        step: InputStep,
        previews: bool,
        area: DisplayArea,
        now: u64,
    ) -> Screen {
        if asked {
            self.input_step(step, false, previews, area, now)
        } else {
            self
        }
    }

    pub open spec fn slideshow_stopped_if(self, stop: bool) -> Screen {
        if stop {
            self.with_model(self.model.with_playback(slideshow_stopped(self.model.playback)))
        } else {
            self
        }
    }

    /// The keys of a frame acted on. A key for full screen or deletion goes before all moves.
    pub open spec fn keys_handled(
        self,
        keys: ViewerKeys,
        capabilities: ViewerUiCapabilities,
        previews: bool,
        area: DisplayArea,
        now: u64,
    ) -> Screen {
        let direction = self.model.reading_direction();
        let toggled = if keys.toggle_slideshow {
            self.with_model(self.model.slideshow_toggled(now))
        } else {
            self
        };
        if keys.toggle_fullscreen || (capabilities.allow_delete && keys.delete) {
            toggled.slideshow_stopped_if(true)
        } else {
            toggled.step_if(
                leads_forward(keys, direction),
                InputStep::Next,
                previews,
                area,
                now,
            ).step_if(
                leads_back(keys, direction),
                InputStep::Previous,
                previews,
                area,
                now,
            ).step_if(keys.home, InputStep::First, previews, area, now).step_if(
                keys.end,
                InputStep::Last,
                previews,
                area,
                now,
            ).slideshow_stopped_if(
                capabilities.allow_book_navigation && (keys.previous_book || keys.next_book),
            )
        }
    }
}

impl ViewerState {
    pub fn begin_frame(&mut self, monitor_size: Option<(u32, u32)>, now: u64)
        requires
            old(self).wf(),
        ensures
            final(self).wf(),
            final(self)@ == old(self)@.frame_begun(monitor_size, now),
    {
        self.update_full_equivalent_size_hint_from_viewer(monitor_size);
        reveal(ViewerState::wf);
        self.ui_runtime.last_show_at = Some(now);
        self.ui_runtime.show_seq = count_events(self.ui_runtime.show_seq, 1);
    }

    /// Whether the toolbar stands above the page.
    pub fn shows_toolbar(&self, is_fullscreen: bool) -> (shows: bool)
        ensures
            shows == (!is_fullscreen && self@.ui.fullscreen_transition_frames == 0),
    {
        !is_fullscreen && self.ui_runtime.fullscreen_transition_frames == 0
    }

    /// Settles the area of the frame.
    pub fn measure_frame(&mut self, measured_w: u32, measured_h: u32) -> (area: FrameArea)
        requires
            old(self).wf(),
        ensures
            final(self).wf(),
            area == old(self)@.frame_area(measured_w, measured_h),
            final(self)@ == old(self)@.frame_measured(measured_w, measured_h),
    {
        reveal(ViewerState::wf);
        let in_fullscreen_transition: bool = self.ui_runtime.fullscreen_transition_frames > 0;
        self.ui_runtime.fullscreen_transition_frames =
        self.ui_runtime.fullscreen_transition_frames.saturating_sub(1);
        let in_viewport_transition: bool = in_fullscreen_transition
            || self.ui_runtime.viewport_transition_active;
        let display_w: u32 = if in_viewport_transition && self.ui_runtime.last_stable_display_w > 0 {
            self.ui_runtime.last_stable_display_w
        } else {
            measured_w
        };
        let display_h: u32 = if in_viewport_transition && self.ui_runtime.last_stable_display_h > 0 {
            self.ui_runtime.last_stable_display_h
        } else {
            measured_h
        };
        if !in_viewport_transition && display_w > 0 && display_h > 0 {
            self.ui_runtime.last_stable_display_w = display_w;
            self.ui_runtime.last_stable_display_h = display_h;
        }
        FrameArea { display_w, display_h, in_fullscreen_transition, in_viewport_transition }
    }

    fn publish_target(&mut self, area: DisplayArea)
        requires
            old(self).wf(),
        ensures
            final(self).wf(),
            final(self)@ == old(self)@.target_published(area),
    {
        let layout: ViewerViewLayout = self.view_layout_for_with_caller(
            self.persistent.requested_page,
            area.display_w,
            area.display_h,
            true,
        );
        self.update_display_target_stability(layout.page_decode_w, layout.page_decode_h);
        self.publish_worker_manager_state(area);
    }

    /// Tells the background work where reading stands, and asks for the first page once the
    /// window is at rest. The caller then hands over the loader's answers.
    pub fn prepare_frame(
        &mut self,
        bg: &mut RgbaPageCache,
        area: DisplayArea,
        in_viewport_transition: bool,
        now: u64,
    )
        requires
            old(self).wf(),
            old(bg).wf(),
        ensures
            final(self).wf(),
            final(bg).wf(),
            screen_of(*final(self), *final(bg)) == screen_of(*old(self), *old(bg)).frame_prepared(
                area,
                in_viewport_transition,
                now,
            ),
    {
        self.publish_target(area);
        if !in_viewport_transition && self.request.initial_load_pending {
            self.start_initial_load(bg, area, now);
        }
    }

    fn arm_slideshow_if_shown(&mut self, now: u64)
        requires
            old(self).wf(),
        ensures
            final(self).wf(),
            final(self)@ == old(self)@.slideshow_armed_if_shown(now),
    {
        if self.playback.slideshow_active && self.playback.slideshow_arm_on_display
            && !self.ui_runtime.loading && (self.display_assets.content_left.is_some()
            || self.display_assets.content_right.is_some()) {
            self.arm_slideshow_from_now(now);
        }
    }

    /// Lets the slideshow turn a page when its time has come.
    pub fn run_slideshow(
        &mut self,
        bg: &mut RgbaPageCache,
        area: DisplayArea,
        interaction_blocked: bool,
        now: u64,
    )
        requires
            old(self).wf(),
            old(bg).wf(),
        ensures
            final(self).wf(),
            final(bg).wf(),
            screen_of(*final(self), *final(bg)) == screen_of(*old(self), *old(bg)).slideshow_run(
                area,
                interaction_blocked,
                now,
            ),
    {
        let before: u32 = self.nav_target();
        self.arm_slideshow_if_shown(now);
        let due: bool = match self.playback.slideshow_next_slide_at {
            Some(at) => now >= at,
            None => false,
        };
        if interaction_blocked || !self.playback.slideshow_active || !due {
            return;
        }
        self.register_nav_input(now);
        self.go_next(bg, area, now);
        if self.nav_target() == before {
            self.stop_slideshow();
        } else {
            self.close_boundary_preview_on_successful_page_move(true);
            self.mark_slideshow_wait_display();
        }
    }

    /// Whether the wheel may turn a page; a rest that is over is forgotten.
    pub fn wheel_ready(&mut self, now: u64) -> (ready: bool)
        requires
            old(self).wf(),
        ensures
            final(self).wf(),
            ready == !old(self)@.wheel_rests(now),
            final(self)@ == if ready {
                old(self)@.with_wheel_cooldown(None)
            } else {
                old(self)@
            },
    {
        reveal(ViewerState::wf);
        if let Some(until) = self.ui_runtime.wheel_cooldown_until {
            if now < until {
                return false;
            }
        }
        self.ui_runtime.wheel_cooldown_until = None;
        true
    }

    /// Input is blocked: the wheel starts anew afterwards.
    pub fn reset_wheel(&mut self)
        requires
            old(self).wf(),
        ensures
            final(self).wf(),
            final(self)@ == old(self)@.with_wheel_cooldown(None),
    {
        reveal(ViewerState::wf);
        self.ui_runtime.wheel_cooldown_until = None;
    }

    fn take_back_input(
        &mut self,
        nav_mode: NavMode,
        last_nav_input_at: Option<u64>,
        nav_consecutive_count: u32,
    )
        requires
            old(self).wf(),
        ensures
            final(self).wf(),
            final(self)@ == (ViewerModel {
                ui: ViewerUiRuntimeState {
                    nav_mode,
                    last_nav_input_at,
                    nav_consecutive_count,
                    ..old(self)@.ui
                },
                ..old(self)@
            }),
    {
        reveal(ViewerState::wf);
        self.ui_runtime.nav_mode = nav_mode;
        self.ui_runtime.last_nav_input_at = last_nav_input_at;
        self.ui_runtime.nav_consecutive_count = nav_consecutive_count;
    }

    fn rest_wheel(&mut self, now: u64)
        requires
            old(self).wf(),
        ensures
            final(self).wf(),
            final(self)@ == old(self)@.with_wheel_cooldown(
                Some(after(now, WHEEL_COOLDOWN as int)),
            ),
    {
        reveal(ViewerState::wf);
        self.ui_runtime.wheel_cooldown_until = Some(now.saturating_add(WHEEL_COOLDOWN));
    }

    fn take_step(&mut self, bg: &mut RgbaPageCache, step: InputStep, area: DisplayArea, now: u64)
        requires
            old(self).wf(),
            old(bg).wf(),
        ensures
            final(self).wf(),
            final(bg).wf(),
            screen_of(*final(self), *final(bg)) == screen_of(*old(self), *old(bg)).step_taken(
                step,
                area,
                now,
            ),
    {
        reveal(Screen::step_taken);
        self.stop_slideshow();
        self.register_nav_input(now);
        match step {
            InputStep::Next => self.go_next(bg, area, now),
            InputStep::Previous => self.go_prev(bg, area, now),
            InputStep::First => self.go_first(bg, area, now),
            InputStep::Last => self.go_last(bg, area, now),
        }
    }

    fn settle_preview(&mut self, step: InputStep, previews: bool, moved: bool)
        requires
            old(self).wf(),
        ensures
            final(self).wf(),
            final(self)@ == step.preview_after(old(self)@, previews, moved),
    {
        reveal(InputStep::preview_after);
        match step {
            InputStep::Next => self.apply_boundary_preview_after_page_move(
                previews,
                moved,
                BoundaryPreviewDirection::Next,
            ),
            InputStep::Previous => self.apply_boundary_preview_after_page_move(
                previews,
                moved,
                BoundaryPreviewDirection::Previous,
            ),
            _ => self.close_boundary_preview_on_successful_page_move(moved),
        }
    }

    /// Acts on a step that a key or the wheel asks for; tells whether it led to another page.
    pub fn step_by_input(
        &mut self,
        bg: &mut RgbaPageCache,
        step: InputStep,
        by_wheel: bool,
        previews: bool,
        area: DisplayArea,
        now: u64,
    ) -> (moved: bool)
        requires
            old(self).wf(),
            old(bg).wf(),
        ensures
            final(self).wf(),
            final(bg).wf(),
            moved == screen_of(*old(self), *old(bg)).step_moves(step, area, now),
            screen_of(*final(self), *final(bg)) == screen_of(*old(self), *old(bg)).input_step(
                step,
                by_wheel,
                previews,
                area,
                now,
            ),
    {
        let nav_mode: NavMode = self.ui_runtime.nav_mode;
        let last_nav_input_at: Option<u64> = self.ui_runtime.last_nav_input_at;
        let nav_consecutive_count: u32 = self.ui_runtime.nav_consecutive_count;
        let before: u32 = self.nav_target();
        self.take_step(bg, step, area, now);
        let moved: bool = self.nav_target() != before;
        if !moved {
            self.take_back_input(nav_mode, last_nav_input_at, nav_consecutive_count);
        } else if by_wheel {
            self.rest_wheel(now);
        }
        self.settle_preview(step, previews, moved);
        moved
    }

    /// Acts on the keys of a frame.
    pub fn handle_keys(
        &mut self,
        bg: &mut RgbaPageCache,
        keys: ViewerKeys,
        capabilities: ViewerUiCapabilities,
        previews: bool,
        area: DisplayArea,
        now: u64,
    ) -> (action: ViewerAction)
        requires
            old(self).wf(),
            old(bg).wf(),
        ensures
            final(self).wf(),
            final(bg).wf(),
            action == key_action(keys, capabilities),
            screen_of(*final(self), *final(bg)) == screen_of(*old(self), *old(bg)).keys_handled(
                keys,
                capabilities,
                previews,
                area,
                now,
            ),
    {
        let (forward, back): (bool, bool) = match self.effective_reading_direction() {
            ReadingDirection::RightToLeft => (
                keys.left_side || keys.page_down,
                keys.right_side || keys.page_up,
            ),
            ReadingDirection::LeftToRight => (
                keys.right_side || keys.page_down,
                keys.left_side || keys.page_up,
            ),
        };
        if keys.toggle_slideshow {
            self.toggle_slideshow(now);
        }
        if keys.toggle_fullscreen {
            self.stop_slideshow();
            return ViewerAction::ToggleFullscreen;
        }
        if capabilities.allow_delete && keys.delete {
            self.stop_slideshow();
            return ViewerAction::RequestDelete;
        }
        if forward {
            let _ = self.step_by_input(bg, InputStep::Next, false, previews, area, now);
        }
        if back {
            let _ = self.step_by_input(bg, InputStep::Previous, false, previews, area, now);
        }
        if keys.home {
            let _ = self.step_by_input(bg, InputStep::First, false, previews, area, now);
        }
        if keys.end {
            let _ = self.step_by_input(bg, InputStep::Last, false, previews, area, now);
        }
        let mut action = ViewerAction::Nothing;
        if capabilities.allow_book_navigation && keys.previous_book {
            action = ViewerAction::PreviousBook;
        }
        if capabilities.allow_book_navigation && keys.next_book {
            action = ViewerAction::NextBook;
        }
        if capabilities.allow_book_navigation && (keys.previous_book || keys.next_book) {
            self.stop_slideshow();
        }
        action
    }
}

/// A step of input that leads nowhere does not count as input: the next one is judged as if it
/// had not been.
pub proof fn law_vain_steps_leave_no_trace(
    screen: Screen,
    step: InputStep,
    by_wheel: bool,
    previews: bool,
    area: DisplayArea,
    now: u64,
)
    requires
        !screen.step_moves(step, area, now),
    ensures
        ({
            let after_step = screen.input_step(step, by_wheel, previews, area, now).model;
            &&& after_step.ui.nav_mode == screen.model.ui.nav_mode
            &&& after_step.ui.last_nav_input_at == screen.model.ui.last_nav_input_at
            &&& after_step.ui.nav_consecutive_count == screen.model.ui.nav_consecutive_count
            &&& after_step.persistent.target_page == screen.model.persistent.target_page
        }),
{
    reveal(InputStep::preview_after);
}

/// While the window is changing, pages are shown in the last area that was at rest, and that
/// area stays noted.
pub proof fn law_area_rests_while_the_window_changes(model: ViewerModel, w: u32, h: u32)
    requires
        model.ui.viewport_transition_active || model.ui.fullscreen_transition_frames > 0,
        model.ui.last_stable_display_w > 0,
        model.ui.last_stable_display_h > 0,
    ensures
        model.frame_area(w, h).display_w == model.ui.last_stable_display_w,
        model.frame_area(w, h).display_h == model.ui.last_stable_display_h,
        model.frame_measured(w, h).ui.last_stable_display_w == model.ui.last_stable_display_w,
        model.frame_measured(w, h).ui.last_stable_display_h == model.ui.last_stable_display_h,
{
}

/// The side keys turn pages the way they are read: in a book that is read from right to left the
/// left key leads forward, else the right one, and the other key leads back. The keys for pages up
/// and down do not depend on it.
pub proof fn law_side_keys_follow_the_reading_direction(keys: ViewerKeys)
    ensures
        !keys.page_down ==> (leads_forward(keys, ReadingDirection::RightToLeft)
            <==> keys.left_side),
        !keys.page_down ==> (leads_forward(keys, ReadingDirection::LeftToRight)
            <==> keys.right_side),
        !keys.page_up ==> (leads_back(keys, ReadingDirection::RightToLeft) <==> keys.right_side),
        !keys.page_up ==> (leads_back(keys, ReadingDirection::LeftToRight) <==> keys.left_side),
        keys.page_down ==> leads_forward(keys, ReadingDirection::RightToLeft) && leads_forward(
            keys,
            ReadingDirection::LeftToRight,
        ),
        keys.page_up ==> leads_back(keys, ReadingDirection::RightToLeft) && leads_back(
            keys,
            ReadingDirection::LeftToRight,
        ),
{
}

/// Of the keys that ask something of the caller one counts: full screen before deletion, deletion
/// before a change of books, the next book before the previous. What is not allowed is not asked.
pub proof fn law_one_key_is_acted_on(keys: ViewerKeys, capabilities: ViewerUiCapabilities)
    ensures
        ({
            let action = key_action(keys, capabilities);
            &&& (action is ToggleFullscreen) <==> keys.toggle_fullscreen
            &&& action is RequestDelete ==> keys.delete && capabilities.allow_delete
            &&& keys.delete && capabilities.allow_delete && !keys.toggle_fullscreen ==> action
                is RequestDelete
            &&& action is NextBook ==> keys.next_book && capabilities.allow_book_navigation
            &&& action is PreviousBook ==> keys.previous_book && !keys.next_book
                && capabilities.allow_book_navigation
            &&& capabilities.allow_book_navigation && !keys.toggle_fullscreen && !keys.delete
                && keys.next_book ==> action is NextBook
            &&& capabilities.allow_book_navigation && !keys.toggle_fullscreen && !keys.delete
                && !keys.next_book && keys.previous_book ==> action is PreviousBook
            &&& !(action is ToggleFavorite) && !(action is RunExternalTool)
        }),
{
}

/// Keys that ask for a step lead where that step leads, in its direction; home and end lead to the
/// ends of the book.
pub proof fn law_steps_lead_where_they_say(model: ViewerModel)
    requires
        model.persistent.page_count > 0,
    ensures
        InputStep::First.target(model) matches Some(page) ==> page == 0,
        InputStep::Last.target(model) matches Some(page) ==> page + 1
            == model.persistent.page_count,
        InputStep::Next.direction() > 0 && InputStep::Previous.direction() < 0,
        model.plan is None ==> (InputStep::Next.target(model) matches Some(page) ==> page
            > model.base_page()),
        model.plan is None ==> (InputStep::Previous.target(model) matches Some(page) ==> page
            < model.base_page()),
{
}

/// A frame at rest is shown in the area that was measured, and that area is noted; a transition to
/// or from full screen comes one frame nearer to its end.
pub proof fn law_areas_at_rest_are_noted(model: ViewerModel, w: u32, h: u32)
    requires
        w > 0 && h > 0,
    ensures
        !model.ui.viewport_transition_active && model.ui.fullscreen_transition_frames == 0 ==> {
            &&& model.frame_area(w, h).display_w == w && model.frame_area(w, h).display_h == h
            &&& !model.frame_area(w, h).in_viewport_transition
            &&& model.frame_measured(w, h).ui.last_stable_display_w == w
            &&& model.frame_measured(w, h).ui.last_stable_display_h == h
        },
        model.ui.fullscreen_transition_frames > 0 ==> model.frame_measured(
            w,
            h,
        ).ui.fullscreen_transition_frames + 1 == model.ui.fullscreen_transition_frames
            && model.frame_area(w, h).in_fullscreen_transition,
        model.ui.fullscreen_transition_frames == 0 ==> !model.frame_area(
            w,
            h,
        ).in_fullscreen_transition,
        model.frame_measured(w, h).persistent == model.persistent,
{
}

/// Frames are counted, and the size of the monitor is taken where it is told.
pub proof fn law_frames_are_counted(model: ViewerModel, w: u32, h: u32, now: u64)
    requires
        model.ui.show_seq < u64::MAX,
    ensures
        model.frame_begun(Some((w, h)), now).ui.show_seq == model.ui.show_seq + 1,
        model.frame_begun(None, now).ui.show_seq == model.ui.show_seq + 1,
        model.frame_begun(None, now).ui.last_show_at == Some(now),
        w >= 1 && h >= 1 ==> (model.frame_begun(Some((w, h)), now).hint matches Some(hint)
            && hint.monitor_width == w && hint.monitor_height == h),
        w == 0 || h == 0 ==> model.frame_begun(Some((w, h)), now).hint == model.hint,
        model.frame_begun(None, now).hint == model.hint,
{
}

/// The slideshow turns no page before its time, while it is off, or while it is blocked.
pub proof fn law_slideshow_turns_in_time(screen: Screen, area: DisplayArea, blocked: bool, now: u64)
    requires
        !screen.model.playback.slideshow_arm_on_display,
        blocked || !screen.model.playback.slideshow_active || (
        screen.model.playback.slideshow_next_slide_at matches Some(at) ==> now < at),
    ensures
        screen.slideshow_run(area, blocked, now) == screen,
{
}

/// A slideshow whose time has come at the end of the book ends, and the page stays.
pub proof fn law_slideshow_ends_with_the_book(screen: Screen, area: DisplayArea, now: u64)
    requires
        screen.model.playback.slideshow_active,
        !screen.model.playback.slideshow_arm_on_display,
        screen.model.playback.slideshow_next_slide_at matches Some(at) && at <= now,
        screen.model.input_noted(now).next_page() is None,
    ensures
        !screen.slideshow_run(area, false, now).model.playback.slideshow_active,
        screen.slideshow_run(area, false, now).model.persistent == screen.model.persistent,
        screen.slideshow_run(area, false, now).model.content_left == screen.model.content_left,
{
}

/// A wait that was to begin with the page begins once the page is on screen.
pub proof fn law_slideshow_waits_from_the_page_on(model: ViewerModel, now: u64)
    requires
        model.playback.slideshow_active,
        model.playback.slideshow_arm_on_display,
        now + model.playback.slideshow_interval <= u64::MAX,
    ensures
        !model.ui.loading && model.content_left is Some ==> model.slideshow_armed_if_shown(
            now,
        ).playback.slideshow_next_slide_at == Some(
            (now + model.playback.slideshow_interval) as u64,
        ),
        model.ui.loading ==> model.slideshow_armed_if_shown(now) == model,
        model.content_left is None && model.content_right is None
            ==> model.slideshow_armed_if_shown(now) == model,
{
}

/// A step by input while a page is on its way leads to the page that the step leads to, and ends
/// the slideshow.
pub proof fn law_steps_move_the_target(screen: Screen, step: InputStep, area: DisplayArea, now: u64)
    requires
        screen.model.ui.loading,
    ensures
        ({
            let noted = screen.model.with_playback(
                slideshow_stopped(screen.model.playback),
            ).input_noted(now);
            let taken = screen.step_taken(step, area, now).model;
            &&& step.target(noted) matches Some(page) ==> taken.persistent.target_page == page
                && taken.request.queued_view == Some(page) && taken.request.prefetch_dir
                == step.direction()
            &&& step.target(noted) is None ==> taken.persistent == screen.model.persistent
            &&& !taken.playback.slideshow_active
            &&& taken.persistent.displayed_page == screen.model.persistent.displayed_page
        }),
{
    reveal(Screen::step_taken);
}

/// The wheel rests for 120 milliseconds after it turned a page, and not after a step by a key.
pub proof fn law_wheel_rests_after_a_turn(
    screen: Screen,
    step: InputStep,
    previews: bool,
    area: DisplayArea,
    now: u64,
    later: u64,
)
    requires
        screen.step_moves(step, area, now),
        now + 120_000_000 <= u64::MAX,
    ensures
        screen.input_step(step, true, previews, area, now).model.wheel_rests(later) <==> later < now
            + 120_000_000,
        screen.input_step(step, false, previews, area, now).model.ui.wheel_cooldown_until
            == screen.step_taken(step, area, now).model.ui.wheel_cooldown_until,
        screen.input_step(step, true, previews, area, now).model.preview is Hidden,
{
    reveal(InputStep::preview_after);
}

/// Keys for full screen or deletion turn no page and end the slideshow; without keys nothing
/// happens.
pub proof fn law_keys_for_the_caller_turn_no_page(
    screen: Screen,
    keys: ViewerKeys,
    capabilities: ViewerUiCapabilities,
    previews: bool,
    area: DisplayArea,
    now: u64,
)
    ensures
        keys.toggle_fullscreen || (keys.delete && capabilities.allow_delete) ==> {
            let done = screen.keys_handled(keys, capabilities, previews, area, now).model;
            &&& done.persistent == screen.model.persistent
            &&& done.outbox == screen.model.outbox
            &&& !done.playback.slideshow_active
        },
        !keys.left_side && !keys.right_side && !keys.page_down && !keys.page_up && !keys.home
            && !keys.end && !keys.toggle_slideshow && !keys.toggle_fullscreen && !keys.delete
            && !keys.next_book && !keys.previous_book ==> screen.keys_handled(
            keys,
            capabilities,
            previews,
            area,
            now,
        ) == screen,
{
}

/// One key for a step and no other takes that step, once.
pub proof fn law_step_keys_take_their_step(
    screen: Screen,
    keys: ViewerKeys,
    capabilities: ViewerUiCapabilities,
    previews: bool,
    area: DisplayArea,
    now: u64,
)
    requires
        !keys.toggle_slideshow && !keys.toggle_fullscreen && !keys.delete && !keys.next_book
            && !keys.previous_book && !keys.left_side && !keys.right_side,
    ensures
        ({
            let done = screen.keys_handled(keys, capabilities, previews, area, now);
            &&& keys.page_down && !keys.page_up && !keys.home && !keys.end ==> done
                == screen.input_step(InputStep::Next, false, previews, area, now)
            &&& !keys.page_down && keys.page_up && !keys.home && !keys.end ==> done
                == screen.input_step(InputStep::Previous, false, previews, area, now)
            &&& !keys.page_down && !keys.page_up && keys.home && !keys.end ==> done
                == screen.input_step(InputStep::First, false, previews, area, now)
            &&& !keys.page_down && !keys.page_up && !keys.home && keys.end ==> done
                == screen.input_step(InputStep::Last, false, previews, area, now)
        }),
{
}

/// A frame tells the background work where reading stands, once. The first page is asked for by the
/// first frame in which the window is at rest, and not before.
pub proof fn law_first_page_waits_for_the_window(screen: Screen, area: DisplayArea, now: u64)
    ensures
        ({
            let changing = screen.frame_prepared(area, true, now).model;
            &&& changing.request.initial_load_pending == screen.model.request.initial_load_pending
            &&& changing.outbox.len() == screen.model.outbox.len() + 1
            &&& changing.outbox.last() is Publish
            &&& changing.persistent.requested_page == screen.model.persistent.requested_page
            &&& changing.ui == screen.model.ui
        }),
        !screen.model.request.initial_load_pending ==> screen.frame_prepared(area, false, now)
            == screen.frame_prepared(area, true, now),
{
    reveal(ViewerModel::laid_out);
    reveal(ViewerModel::published);
}

} // verus!
