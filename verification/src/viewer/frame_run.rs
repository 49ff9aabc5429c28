//! The middle of a frame, from the loader's answers to what is painted, in one step.
use vstd::prelude::*;

use super::display::screen_of;
use super::display_model::{DisplayArea, Screen};
use super::frame::{key_action, InputStep, ViewerAction, ViewerKeys, ViewerUiCapabilities};
use super::frame_end::FrameContent;
use super::rgba_page_cache::RgbaPageCache;
use super::state::{ViewerEffect, ViewerState};

verus! {

/// What a frame goes by.
#[derive(Clone, Copy, Debug, PartialEq, Eq, Structural)]
pub struct FrameInput {
    pub is_fullscreen: bool,
    pub in_viewport_transition: bool,
    pub interaction_blocked: bool,
    pub capabilities: ViewerUiCapabilities,
    /// The step that the wheel has been turned for.
    pub wheel: Option<InputStep>,
    pub keys: ViewerKeys,
}

/// What a frame comes to: what is asked of the caller, and what is painted.
pub struct FrameOutcome {
    pub action: ViewerAction,
    pub content: FrameContent,
}

impl Screen {
    /// The input of a frame acted on: the wheel before the keys. The preview of a neighbour
    /// comes up only where it was allowed before.
    #[verifier::opaque]
    pub open spec fn input_handled(self, input: FrameInput, area: DisplayArea, now: u64) -> Screen {
        if input.interaction_blocked {
            self.with_model(self.model.with_wheel_cooldown(None))
        } else {
            let previews = self.model.previews_allowed(
                input.capabilities.allow_book_navigation,
                input.is_fullscreen,
            );
            let wheeled = match input.wheel {
                Some(step) => self.input_step(step, true, previews, area, now),
                None => self,
            };
            wheeled.keys_handled(input.keys, input.capabilities, previews, area, now)
        }
    }

    /// The middle of a frame. While the window is changing nothing is done but to ask for the
    /// next frame.
    pub open spec fn frame_acted(self, input: FrameInput, area: DisplayArea, now: u64) -> Screen {
        let pending = self.with_model(self.model.pending_noted(now));
        if input.in_viewport_transition {
            pending.with_model(pending.model.with_effect(ViewerEffect::RequestRepaint))
        } else {
            let handled = pending.slideshow_run(area, input.interaction_blocked, now).input_handled(
                input,
                area,
                now,
            );
            handled.with_model(handled.model.first_paint_noted(area).display_noted())
        }
    }
}

/// What the input of a frame asks of the caller.
pub open spec fn frame_action(input: FrameInput) -> ViewerAction {
    if input.in_viewport_transition || input.interaction_blocked {
        ViewerAction::Nothing
    } else {
        key_action(input.keys, input.capabilities)
    }
}

impl ViewerState {
    fn handle_input(
        &mut self,
        bg: &mut RgbaPageCache,
        input: &FrameInput,
        area: DisplayArea,
        now: u64,
    ) -> (action: ViewerAction)
        requires
            old(self).wf(),
            old(bg).wf(),
        ensures
            final(self).wf(),
            final(bg).wf(),
            action == if input.interaction_blocked {
                ViewerAction::Nothing
            } else {
                key_action(input.keys, input.capabilities)
            },
            screen_of(*final(self), *final(bg)) == screen_of(*old(self), *old(bg)).input_handled(
                *input,
                area,
                now,
            ),
    {
        reveal(Screen::input_handled);
        if input.interaction_blocked {
            self.reset_wheel();
            return ViewerAction::Nothing;
        }
        let previews: bool = self.boundary_preview_enabled(
            input.capabilities.allow_book_navigation,
            input.is_fullscreen,
        );
        if let Some(step) = input.wheel {
            let _ = self.step_by_input(bg, step, true, previews, area, now);
        }
        self.handle_keys(bg, input.keys, input.capabilities, previews, area, now)
    }

    fn ask_for_repaint(&mut self)
        requires
            old(self).wf(),
        ensures
            final(self).wf(),
            final(self)@ == old(self)@.with_effect(ViewerEffect::RequestRepaint),
    {
        reveal(ViewerState::wf);
        self.outbox.push(ViewerEffect::RequestRepaint);
    }

    /// Acts on a frame, once the loader's answers are in: the slideshow, the wheel and the keys,
    /// and then what is to be painted.
    pub fn act_on_frame(
        &mut self,
        bg: &mut RgbaPageCache,
        input: &FrameInput,
        area: DisplayArea,
        now: u64,
    ) -> (outcome: FrameOutcome)
        requires
            old(self).wf(),
            old(bg).wf(),
        ensures
            final(self).wf(),
            final(bg).wf(),
            screen_of(*final(self), *final(bg)) == screen_of(*old(self), *old(bg)).frame_acted(
                *input,
                area,
                now,
            ),
            outcome.action == frame_action(*input),
            outcome.content == if input.in_viewport_transition {
                FrameContent::Blank
            } else {
                final(self)@.frame_content(false, input.is_fullscreen, input.interaction_blocked)
            },
    {
        self.update_pending_progress_state(now);
        if input.in_viewport_transition {
            self.ask_for_repaint();
            return FrameOutcome { action: ViewerAction::Nothing, content: FrameContent::Blank };
        }
        self.run_slideshow(bg, area, input.interaction_blocked, now);
        let action: ViewerAction = self.handle_input(bg, input, area, now);
        self.note_first_paint(bg, area);
        let _ = self.note_display();
        let content: FrameContent = self.decide_frame_content(
            false,
            input.is_fullscreen,
            input.interaction_blocked,
        );
        FrameOutcome { action, content }
    }
}

/// While input is blocked, a frame asks nothing of the caller.
pub proof fn law_blocked_input_asks_nothing(input: FrameInput)
    requires
        input.interaction_blocked,
    ensures
        frame_action(input) == ViewerAction::Nothing,
{
}

/// While the window is changing, pages stay as they are: neither is one turned, nor is anything
/// asked of the loader.
pub proof fn law_nothing_moves_while_the_window_changes(
    screen: Screen,
    input: FrameInput,
    area: DisplayArea,
    now: u64,
)
    requires
        input.in_viewport_transition,
    ensures
        screen.frame_acted(input, area, now).model.persistent == screen.model.persistent,
        screen.frame_acted(input, area, now).model.request == screen.model.request,
        screen.frame_acted(input, area, now).model.outbox == screen.model.outbox.push(
            ViewerEffect::RequestRepaint,
        ),
        frame_action(input) == ViewerAction::Nothing,
{
}

/// The keys of a frame count unless the window is changing or input is blocked.
pub proof fn law_keys_count_in_a_frame_at_rest(input: FrameInput)
    requires
        !input.in_viewport_transition,
        !input.interaction_blocked,
    ensures
        input.keys.toggle_fullscreen ==> frame_action(input) is ToggleFullscreen,
        !input.keys.toggle_fullscreen && input.keys.delete && input.capabilities.allow_delete
            ==> frame_action(input) is RequestDelete,
{
}

/// While input is blocked neither the wheel nor a key turns a page, and the wheel starts anew.
pub proof fn law_blocked_input_turns_no_page(
    screen: Screen,
    input: FrameInput,
    area: DisplayArea,
    now: u64,
)
    requires
        input.interaction_blocked,
    ensures
        screen.input_handled(input, area, now).model.persistent == screen.model.persistent,
        screen.input_handled(input, area, now).model.outbox == screen.model.outbox,
        screen.input_handled(input, area, now).model.ui.wheel_cooldown_until is None,
        screen.input_handled(input, area, now).bg == screen.bg,
{
    reveal(Screen::input_handled);
}

} // verus!
