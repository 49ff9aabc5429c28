//! The second half of a frame: what is painted, what the controls brought, and when the next
//! frame is due.
use std::sync::Arc;

use vstd::prelude::*;
use vstd::string::*;

use super::auto_spread_plan::AutoSpreadPlan;
use super::display::screen_of;
use super::display_model::{used_by, DisplayArea, Screen};
use super::frame::{
    ExternalToolToolbarState, ExternalToolTrigger, ViewerAction, ViewerUiCapabilities,
    FULLSCREEN_OVERLAY_AUTO_HIDE_DELAY, LOADING_REPAINT_INTERVAL, SLIDESHOW_REPAINT_LIMIT,
};
use super::layout::ViewerViewLayout;
use super::page_content::after;
use super::rgba_page_cache::{holds, RgbaCacheKey, RgbaPageCache};
use super::state::{
    is_plan_for, BoundaryPreviewState, ErrorNote, PendingDisplayState, ViewerModel,
    ViewerPersistentState, ViewerState, ViewerUiRuntimeState,
};
use super::working_set::RenderSignature;
use crate::domain::{ReadingDirection, SpreadMode, ViewerQuality};
use crate::num::{least, min_u64};

verus! {

/// What fills the page area.
#[derive(Clone, Copy, Debug, PartialEq, Eq, Structural)]
pub enum FrameContent {
    /// Nothing, while the window is changing.
    Blank,
    Error(ErrorNote),
    /// The placeholder for the page on its way.
    Placeholder,
    Loading,
    /// The pages, under the help for keys where `help` is set.
    Pages { help: bool },
}

/// What the toolbar brought in a frame.
#[derive(Clone, Copy, Debug, PartialEq, Eq)]
pub struct ToolbarEvents {
    pub delete: bool,
    pub toggle_favorite: bool,
    pub toggle_fullscreen: bool,
    pub toggle_spread: bool,
    pub toggle_cover_blank: bool,
    pub toggle_slideshow: bool,
    pub interval_change: Option<u64>,
    pub reading_direction_override_change: Option<Option<ReadingDirection>>,
    pub quality_override_change: Option<Option<ViewerQuality>>,
    pub external_tool_click: Option<usize>,
    pub external_tool_shortcut: Option<(usize, char)>,
}

pub open spec fn no_events() -> ToolbarEvents {
    ToolbarEvents {
        delete: false,
        toggle_favorite: false,
        toggle_fullscreen: false,
        toggle_spread: false,
        toggle_cover_blank: false,
        toggle_slideshow: false,
        interval_change: None,
        reading_direction_override_change: None,
        quality_override_change: None,
        external_tool_click: None,
        external_tool_shortcut: None,
    }
}

impl Default for ToolbarEvents {
    fn default() -> (events: Self)
        ensures
            events == no_events(),
    {
        ToolbarEvents {
            delete: false,
            toggle_favorite: false,
            toggle_fullscreen: false,
            toggle_spread: false,
            toggle_cover_blank: false,
            toggle_slideshow: false,
            interval_change: None,
            reading_direction_override_change: None,
            quality_override_change: None,
            external_tool_click: None,
            external_tool_shortcut: None,
        }
    }
}

/// Settings of the book that a frame changed, for the caller to store.
#[derive(Clone, Copy, Debug, PartialEq, Eq, Structural)]
pub struct ViewerSettingsChangeSink {
    pub cover_blank: Option<bool>,
    pub spread: Option<SpreadMode>,
    pub slideshow_interval: Option<u64>,
    pub reading_direction_override: Option<Option<ReadingDirection>>,
    pub quality_override: Option<Option<ViewerQuality>>,
}

/// What goes with the events of a toolbar.
#[derive(Clone, Copy, Debug, PartialEq, Eq, Structural)]
pub struct ToolbarApplyContext {
    pub global_quality: ViewerQuality,
    pub now: u64,
    pub in_viewport_transition: bool,
    pub area: DisplayArea,
    pub capabilities: ViewerUiCapabilities,
}

impl ViewerModel {
    /// What fills the page area. An error goes before the placeholder, and that before all else.
    pub open spec fn frame_content(
        self,
        in_fullscreen_transition: bool,
        is_fullscreen: bool,
        interaction_blocked: bool,
    ) -> FrameContent {
        if in_fullscreen_transition {
            FrameContent::Blank
        } else if self.ui.error is Some {
            FrameContent::Error(self.ui.error->0)
        } else if self.ui.pending_placeholder_latched {
            FrameContent::Placeholder
        } else if self.ui.loading && !self.has_content() {
            FrameContent::Loading
        } else {
            FrameContent::Pages { help: !is_fullscreen && !interaction_blocked }
        }
    }

    /// The first frames looked at: the pairing and the decodes of the page that was asked for,
    /// until a page is on screen.
    pub open spec fn first_paint_noted(self, area: DisplayArea) -> ViewerModel {
        if self.ui.first_paint_logged {
            self
        } else {
            let page = self.persistent.requested_page;
            let layout = self.layout(page, area.display_w, area.display_h);
            let noted = self.laid_out(page, false);
            let signature = noted.signature(
                layout.page_decode_w,
                layout.page_decode_h,
                area.max_tex_side,
            );
            ViewerModel {
                interactive: used_by(
                    used_by(noted.interactive, layout.page_left, signature),
                    layout.page_right,
                    signature,
                ),
                ui: ViewerUiRuntimeState { first_paint_logged: self.has_content(), ..noted.ui },
                ..noted
            }
        }
    }

    pub open spec fn display_noted(self) -> ViewerModel {
        ViewerModel {
            ui: ViewerUiRuntimeState {
                last_pending_display_state: Some(
                    self.pending_display(self.ui.pending_placeholder_latched),
                ),
                ..self.ui
            },
            ..self
        }
    }

    /// Whether the controls stand over a full-screen page.
    pub open spec fn overlay_shows(
        self,
        is_fullscreen: bool,
        in_fullscreen_transition: bool,
        pointer_near: bool,
        now: u64,
    ) -> bool {
        is_fullscreen && !in_fullscreen_transition && (pointer_near || (
        self.ui.fullscreen_overlay_visible_until matches Some(until) && now <= until))
    }

    pub open spec fn with_overlay_until(self, until: Option<u64>) -> ViewerModel {
        ViewerModel {
            ui: ViewerUiRuntimeState { fullscreen_overlay_visible_until: until, ..self.ui },
            ..self
        }
    }

    /// How long the controls stay from now on.
    pub open spec fn overlay_noted(
        self,
        is_fullscreen: bool,
        in_fullscreen_transition: bool,
        pointer_near: bool,
        interacting: bool,
        now: u64,
    ) -> ViewerModel {
        self.with_overlay_until(
            if !is_fullscreen || in_fullscreen_transition {
                None
            } else if pointer_near || interacting {
                Some(after(now, FULLSCREEN_OVERLAY_AUTO_HIDE_DELAY as int))
            } else if self.ui.fullscreen_overlay_visible_until matches Some(until) && now > until {
                None
            } else {
                self.ui.fullscreen_overlay_visible_until
            },
        )
    }

    pub open spec fn with_direction_override(self, direction: Option<ReadingDirection>) ->
        ViewerModel {
        ViewerModel {
            persistent: ViewerPersistentState {
                reading_direction_override: direction,
                ..self.persistent
            },
            ..self
        }
    }

    pub open spec fn with_quality_override(self, quality: Option<ViewerQuality>) -> ViewerModel {
        ViewerModel {
            persistent: ViewerPersistentState { quality_override: quality, ..self.persistent },
            ..self
        }
    }
}

impl Screen {
    #[verifier::opaque]
    pub open spec fn spread_switched(self, events: ToolbarEvents, context: ToolbarApplyContext) ->
        Screen {
        if !context.in_viewport_transition && events.toggle_spread {
            self.with_model(self.model.spread_toggled()).view_loaded(
                self.model.base_page(),
                context.area,
                context.now,
            )
        } else {
            self
        }
    }

    /// `plan` is the plan of the book with the blank page the other way.
    #[verifier::opaque]
    pub open spec fn cover_switched(
        self,
        events: ToolbarEvents,
        context: ToolbarApplyContext,
        plan: Option<Arc<AutoSpreadPlan>>,
    ) -> Screen {
        if !context.in_viewport_transition && events.toggle_cover_blank {
            self.with_model(self.model.cover_blank_toggled(plan)).view_loaded(
                self.model.base_page(),
                context.area,
                context.now,
            )
        } else {
            self
        }
    }

    #[verifier::opaque]
    pub open spec fn interval_set(self, events: ToolbarEvents, context: ToolbarApplyContext) ->
        Screen {
        match events.interval_change {
            Some(interval) => self.with_model(self.model.with_interval(interval, context.now)),
            None => self,
        }
    }

    #[verifier::opaque]
    pub open spec fn direction_set(self, events: ToolbarEvents) -> Screen {
        match events.reading_direction_override_change {
            Some(direction) => self.with_model(self.model.with_direction_override(direction)),
            None => self,
        }
    }

    /// Another quality for the book. Where that changes the quality in force, the page is loaded
    /// anew.
    #[verifier::opaque]
    pub open spec fn quality_set(self, events: ToolbarEvents, context: ToolbarApplyContext) ->
        Screen {
        match events.quality_override_change {
            Some(choice) => {
                let noted = self.with_model(self.model.with_quality_override(choice));
                let effective = match choice {
                    Some(quality) => quality,
                    None => context.global_quality,
                };
                if noted.model.request.quality == effective {
                    noted
                } else {
                    let changed = noted.model.with_quality(effective);
                    noted.with_model(changed).view_loaded(
                        changed.persistent.requested_page,
                        changed.reload_area(context.area.max_tex_side),
                        context.now,
                    )
                }
            },
            None => self,
        }
    }

    #[verifier::opaque]
    pub open spec fn playback_set(self, events: ToolbarEvents, context: ToolbarApplyContext) ->
        Screen {
        let toggled = if events.toggle_slideshow {
            self.with_model(self.model.slideshow_toggled(context.now))
        } else {
            self
        };
        toggled.slideshow_stopped_if(
            (context.capabilities.allow_delete && events.delete) || events.toggle_fullscreen,
        )
    }

    /// The events of the toolbar acted on, in the order of the controls.
    pub open spec fn toolbar_applied(
        self,
        events: ToolbarEvents,
        context: ToolbarApplyContext,
        plan: Option<Arc<AutoSpreadPlan>>,
    ) -> Screen {
        self.spread_switched(events, context).cover_switched(events, context, plan).interval_set(
            events,
            context,
        ).direction_set(events).quality_set(events, context).playback_set(events, context)
    }

    /// What is there to store after the events: the settings as they are when their event was
    /// acted on.
    pub open spec fn settings_changed(
        self,
        events: ToolbarEvents,
        context: ToolbarApplyContext,
        plan: Option<Arc<AutoSpreadPlan>>,
        before: ViewerSettingsChangeSink,
    ) -> ViewerSettingsChangeSink {
        let spread = self.spread_switched(events, context);
        let cover = spread.cover_switched(events, context, plan);
        ViewerSettingsChangeSink {
            spread: if !context.in_viewport_transition && events.toggle_spread {
                Some(spread.model.persistent.spread_setting)
            } else {
                before.spread
            },
            cover_blank: if !context.in_viewport_transition && events.toggle_cover_blank {
                Some(cover.model.persistent.cover_blank)
            } else {
                before.cover_blank
            },
            slideshow_interval: match events.interval_change {
                Some(_) => Some(
                    cover.interval_set(events, context).model.playback.slideshow_interval,
                ),
                None => before.slideshow_interval,
            },
            reading_direction_override: match events.reading_direction_override_change {
                Some(direction) => Some(direction),
                None => before.reading_direction_override,
            },
            quality_override: match events.quality_override_change {
                Some(quality) => Some(quality),
                None => before.quality_override,
            },
        }
    }
}

/// Whether `plan` is the plan that switching the blank page brings, where it is switched.
pub open spec fn plan_fits(
    model: ViewerModel,
    events: ToolbarEvents,
    context: ToolbarApplyContext,
    plan: Option<Arc<AutoSpreadPlan>>,
) -> bool {
    !context.in_viewport_transition && events.toggle_cover_blank ==> is_plan_for(
        plan,
        model.book.page_map,
        !model.persistent.cover_blank,
    )
}

/// What the toolbar asks of the caller: full screen goes before deletion, and that before the
/// favourites; else what was asked before.
pub open spec fn toolbar_action(
    events: ToolbarEvents,
    capabilities: ViewerUiCapabilities,
    before: ViewerAction,
) -> ViewerAction {
    if events.toggle_fullscreen {
        ViewerAction::ToggleFullscreen
    } else if capabilities.allow_delete && events.delete {
        ViewerAction::RequestDelete
    } else if events.toggle_favorite {
        ViewerAction::ToggleFavorite
    } else {
        before
    }
}

impl ViewerState {
    /// Decides what fills the page area.
    pub fn decide_frame_content(
        &self,
        in_fullscreen_transition: bool,
        is_fullscreen: bool,
        interaction_blocked: bool,
    ) -> (content: FrameContent)
        ensures
            content == self@.frame_content(
                in_fullscreen_transition,
                is_fullscreen,
                interaction_blocked,
            ),
    {
        if in_fullscreen_transition {
            return FrameContent::Blank;
        }
        if let Some(note) = self.ui_runtime.error {
            return FrameContent::Error(note);
        }
        if self.show_follow_placeholder() {
            return FrameContent::Placeholder;
        }
        if self.ui_runtime.loading && self.display_assets.content_left.is_none()
            && self.display_assets.content_right.is_none() {
            return FrameContent::Loading;
        }
        FrameContent::Pages { help: !is_fullscreen && !interaction_blocked }
    }

    /// Whether the pages of a layout are decoded, here or in the background.
    pub fn compute_first_paint_cache_hit(
        &mut self,
        bg: &RgbaPageCache,
        page_left: Option<u32>,
        page_right: Option<u32>,
        signature: RenderSignature,
    ) -> (hits: (bool, bool))
        requires
            old(self).wf(),
            bg.wf(),
        ensures
            final(self).wf(),
            final(self)@ == (ViewerModel {
                interactive: used_by(
                    used_by(old(self)@.interactive, page_left, signature),
                    page_right,
                    signature,
                ),
                ..old(self)@
            }),
            hits.0 == (page_left matches Some(page) && (holds(
                old(self)@.interactive.entries,
                RgbaCacheKey { page, render_signature: signature },
            ) || holds(bg@.entries, RgbaCacheKey { page, render_signature: signature }))),
            hits.1 == (page_right matches Some(page) && (holds(
                used_by(old(self)@.interactive, page_left, signature).entries,
                RgbaCacheKey { page, render_signature: signature },
            ) || holds(bg@.entries, RgbaCacheKey { page, render_signature: signature }))),
    {
        reveal(ViewerState::wf);
        let left: bool = match page_left {
            Some(page) => {
                let key = RgbaCacheKey { page, render_signature: signature };
                let held: bool = self.display_assets.interactive_rgba_cache.get(&key).is_some();
                held || bg.contains(&key)
            },
            None => false,
        };
        let right: bool = match page_right {
            Some(page) => {
                let key = RgbaCacheKey { page, render_signature: signature };
                let held: bool = self.display_assets.interactive_rgba_cache.get(&key).is_some();
                held || bg.contains(&key)
            },
            None => false,
        };
        (left, right)
    }

    /// Looks at the first frames, until a page is on screen.
    pub fn note_first_paint(&mut self, bg: &RgbaPageCache, area: DisplayArea)
        requires
            old(self).wf(),
            bg.wf(),
        ensures
            final(self).wf(),
            final(self)@ == old(self)@.first_paint_noted(area),
    {
        if self.ui_runtime.first_paint_logged {
            return;
        }
        let has_content: bool = self.display_assets.content_left.is_some()
            || self.display_assets.content_right.is_some();
        let layout: ViewerViewLayout = self.view_layout_for_with_caller(
            self.persistent.requested_page,
            area.display_w,
            area.display_h,
            false,
        );
        proof {
            reveal(ViewerModel::laid_out);
        }
        let signature: RenderSignature = self.render_signature_for_decode(
            layout.page_decode_w,
            layout.page_decode_h,
            area.max_tex_side,
        );
        let _ = self.compute_first_paint_cache_hit(
            bg,
            layout.page_left,
            layout.page_right,
            signature,
        );
        if has_content {
            reveal(ViewerState::wf);
            self.ui_runtime.first_paint_logged = true;
        }
    }

    /// Notes what the screen shows of the page on its way.
    pub fn note_display(&mut self) -> (changed: bool)
        requires
            old(self).wf(),
        ensures
            final(self).wf(),
            final(self)@ == old(self)@.display_noted(),
            changed == (old(self)@.ui.last_pending_display_state
                != old(self)@.display_noted().ui.last_pending_display_state),
    {
        let state: PendingDisplayState = self.pending_display_state(
            self.show_follow_placeholder(),
        );
        self.update_pending_display_state(state)
    }

    /// Whether the controls stand over a full-screen page in this frame.
    pub fn fullscreen_overlay_shows(
        &self,
        is_fullscreen: bool,
        in_fullscreen_transition: bool,
        pointer_near: bool,
        now: u64,
    ) -> (shows: bool)
        ensures
            shows == self@.overlay_shows(
                is_fullscreen,
                in_fullscreen_transition,
                pointer_near,
                now,
            ),
    {
        if !is_fullscreen || in_fullscreen_transition {
            return false;
        }
        let held: bool = match self.ui_runtime.fullscreen_overlay_visible_until {
            Some(until) => now <= until,
            None => false,
        };
        pointer_near || held
    }

    /// Notes how long the controls stay; tells when to look again, where they stay on their own.
    pub fn note_fullscreen_overlay(
        &mut self,
        is_fullscreen: bool,
        in_fullscreen_transition: bool,
        pointer_near: bool,
        shown: bool,
        interacting: bool,
        now: u64,
    ) -> (repaint_after: Option<u64>)
        requires
            old(self).wf(),
        ensures
            final(self).wf(),
            final(self)@ == old(self)@.overlay_noted(
                is_fullscreen,
                in_fullscreen_transition,
                pointer_near,
                interacting,
                now,
            ),
            repaint_after == if shown && !pointer_near && !interacting {
                match final(self)@.ui.fullscreen_overlay_visible_until {
                    Some(until) if now < until => Some((until - now) as u64),
                    _ => None,
                }
            } else {
                None
            },
    {
        reveal(ViewerState::wf);
        if !is_fullscreen || in_fullscreen_transition {
            self.ui_runtime.fullscreen_overlay_visible_until = None;
            return None;
        }
        if pointer_near || interacting {
            self.ui_runtime.fullscreen_overlay_visible_until = Some(
                now.saturating_add(FULLSCREEN_OVERLAY_AUTO_HIDE_DELAY),
            );
            return None;
        }
        if let Some(until) = self.ui_runtime.fullscreen_overlay_visible_until {
            if now > until {
                self.ui_runtime.fullscreen_overlay_visible_until = None;
            } else if shown && now < until {
                return Some(until - now);
            }
        }
        None
    }

    /// Acts on a page that was picked on the progress bar.
    pub fn pick_page(&mut self, bg: &mut RgbaPageCache, page: u32, area: DisplayArea, now: u64)
        requires
            old(self).wf(),
            old(bg).wf(),
        ensures
            final(self).wf(),
            final(bg).wf(),
            screen_of(*final(self), *final(bg)) == ({
                let wanted = screen_of(*old(self), *old(bg)).view_wanted(page, area, now);
                wanted.with_model(wanted.model.with_preview(BoundaryPreviewState::Hidden))
            }),
    {
        self.request_view(bg, page, area, now);
        self.close_boundary_preview_on_successful_page_move(true);
    }

    fn switch_spread_by(
        &mut self,
        bg: &mut RgbaPageCache,
        events: &ToolbarEvents,
        context: &ToolbarApplyContext,
    )
        requires
            old(self).wf(),
            old(bg).wf(),
        ensures
            final(self).wf(),
            final(bg).wf(),
            screen_of(*final(self), *final(bg)) == screen_of(*old(self), *old(bg)).spread_switched(
                *events,
                *context,
            ),
    {
        reveal(Screen::spread_switched);
        if !context.in_viewport_transition && events.toggle_spread {
            self.toggle_spread(bg, context.area, context.now);
        }
    }

    fn switch_cover_by(
        &mut self,
        bg: &mut RgbaPageCache,
        events: &ToolbarEvents,
        context: &ToolbarApplyContext,
    )
        requires
            old(self).wf(),
            old(bg).wf(),
        ensures
            final(self).wf(),
            final(bg).wf(),
            exists|plan: Option<Arc<AutoSpreadPlan>>|
                plan_fits(old(self)@, *events, *context, plan) && screen_of(
                    *final(self),
                    *final(bg),
                ) == #[trigger] screen_of(
                    *old(self),
                    *old(bg),
                ).cover_switched(*events, *context, plan),
    {
        reveal(Screen::cover_switched);
        if !context.in_viewport_transition && events.toggle_cover_blank {
            self.toggle_cover_blank(bg, context.area, context.now);
            proof {
                let plan = choose|plan: Option<Arc<AutoSpreadPlan>>|
                    is_plan_for(plan, old(self)@.book.page_map, !old(self)@.persistent.cover_blank)
                        && screen_of(*self, *bg) == (Screen {
                        model: #[trigger] old(self)@.cover_blank_toggled(plan),
                        bg: old(bg)@,
                    }).view_loaded(old(self)@.base_page(), context.area, context.now);
                assert(screen_of(*self, *bg) == screen_of(*old(self), *old(bg)).cover_switched(
                    *events,
                    *context,
                    plan,
                ));
            }
        } else {
            let ghost plan: Option<Arc<AutoSpreadPlan>> = None;
            assert(screen_of(*self, *bg) == screen_of(*old(self), *old(bg)).cover_switched(
                *events,
                *context,
                plan,
            ));
        }
    }

    fn set_quality_by(
        &mut self,
        bg: &mut RgbaPageCache,
        events: &ToolbarEvents,
        context: &ToolbarApplyContext,
    )
        requires
            old(self).wf(),
            old(bg).wf(),
        ensures
            final(self).wf(),
            final(bg).wf(),
            screen_of(*final(self), *final(bg)) == screen_of(*old(self), *old(bg)).quality_set(
                *events,
                *context,
            ),
    {
        reveal(Screen::quality_set);
        if let Some(choice) = events.quality_override_change {
            self.note_quality_override(choice);
            let effective: ViewerQuality = match choice {
                Some(quality) => quality,
                None => context.global_quality,
            };
            if self.request.quality != effective {
                self.set_quality(effective);
                self.reload_current_view(bg, context.area.max_tex_side, context.now);
            }
        }
    }

    fn set_interval_by(
        &mut self,
        bg: &RgbaPageCache,
        events: &ToolbarEvents,
        context: &ToolbarApplyContext,
    )
        requires
            old(self).wf(),
        ensures
            final(self).wf(),
            screen_of(*final(self), *bg) == screen_of(*old(self), *bg).interval_set(
                *events,
                *context,
            ),
    {
        reveal(Screen::interval_set);
        if let Some(interval) = events.interval_change {
            self.set_slideshow_interval(interval, context.now);
        }
    }

    fn set_direction_by(&mut self, bg: &RgbaPageCache, events: &ToolbarEvents)
        requires
            old(self).wf(),
        ensures
            final(self).wf(),
            screen_of(*final(self), *bg) == screen_of(*old(self), *bg).direction_set(*events),
    {
        reveal(Screen::direction_set);
        if let Some(direction) = events.reading_direction_override_change {
            self.note_direction_override(direction);
        }
    }

    fn set_playback_by(
        &mut self,
        bg: &RgbaPageCache,
        events: &ToolbarEvents,
        context: &ToolbarApplyContext,
    )
        requires
            old(self).wf(),
        ensures
            final(self).wf(),
            screen_of(*final(self), *bg) == screen_of(*old(self), *bg).playback_set(
                *events,
                *context,
            ),
    {
        reveal(Screen::playback_set);
        if events.toggle_slideshow {
            self.toggle_slideshow(context.now);
        }
        if (context.capabilities.allow_delete && events.delete) || events.toggle_fullscreen {
            self.stop_slideshow();
        }
    }

    fn note_quality_override(&mut self, choice: Option<ViewerQuality>)
        requires
            old(self).wf(),
        ensures
            final(self).wf(),
            final(self)@ == old(self)@.with_quality_override(choice),
    {
        reveal(ViewerState::wf);
        self.persistent.quality_override = choice;
    }

    fn note_direction_override(&mut self, direction: Option<ReadingDirection>)
        requires
            old(self).wf(),
        ensures
            final(self).wf(),
            final(self)@ == old(self)@.with_direction_override(direction),
    {
        reveal(ViewerState::wf);
        self.persistent.reading_direction_override = direction;
    }
}

impl ViewerState {
    /// Acts on the events of the toolbar. Settings that changed are put into the sink, and what
    /// is asked of the caller takes the place of `action`.
    pub fn apply_toolbar_state_actions(
        &mut self,
        bg: &mut RgbaPageCache,
        events: &ToolbarEvents,
        context: &ToolbarApplyContext,
        settings: &mut ViewerSettingsChangeSink,
        action: ViewerAction,
    ) -> (next_action: ViewerAction)
        requires
            old(self).wf(),
            old(bg).wf(),
        ensures
            final(self).wf(),
            final(bg).wf(),
            next_action == toolbar_action(*events, context.capabilities, action),
            exists|plan: Option<Arc<AutoSpreadPlan>>|
                {
                    &&& plan_fits(
                        screen_of(*old(self), *old(bg)).spread_switched(*events, *context).model,
                        *events,
                        *context,
                        plan,
                    )
                    &&& screen_of(*final(self), *final(bg)) == #[trigger] screen_of(
                        *old(self),
                        *old(bg),
                    ).toolbar_applied(*events, *context, plan)
                    &&& *final(settings) == screen_of(*old(self), *old(bg)).settings_changed(
                        *events,
                        *context,
                        plan,
                        *old(settings),
                    )
                },
    {
        let ghost before = screen_of(*self, *bg);
        self.switch_spread_by(bg, events, context);
        if !context.in_viewport_transition && events.toggle_spread {
            settings.spread = Some(self.persistent.spread_setting);
        }
        let ghost spread = screen_of(*self, *bg);
        self.switch_cover_by(bg, events, context);
        if !context.in_viewport_transition && events.toggle_cover_blank {
            settings.cover_blank = Some(self.persistent.cover_blank);
        }
        let ghost plan = choose|plan: Option<Arc<AutoSpreadPlan>>|
            plan_fits(spread.model, *events, *context, plan) && screen_of(*self, *bg)
                == #[trigger] spread.cover_switched(*events, *context, plan);
        self.set_interval_by(bg, events, context);
        if events.interval_change.is_some() {
            settings.slideshow_interval = Some(self.slideshow_interval());
        }
        self.set_direction_by(bg, events);
        if let Some(direction) = events.reading_direction_override_change {
            settings.reading_direction_override = Some(direction);
        }
        self.set_quality_by(bg, events, context);
        if let Some(choice) = events.quality_override_change {
            settings.quality_override = Some(choice);
        }
        self.set_playback_by(bg, events, context);
        assert(screen_of(*self, *bg) == before.toolbar_applied(*events, *context, plan));
        if events.toggle_fullscreen {
            ViewerAction::ToggleFullscreen
        } else if context.capabilities.allow_delete && events.delete {
            ViewerAction::RequestDelete
        } else if events.toggle_favorite {
            ViewerAction::ToggleFavorite
        } else {
            action
        }
    }

    /// What external tools ask of the caller: a tool that was clicked or called by its key runs
    /// on this book, the key before the click, unless a tool is running.
    pub fn apply_external_tool_toolbar_actions(
        &self,
        events: &ToolbarEvents,
        tool_state: &ExternalToolToolbarState,
        action: ViewerAction,
    ) -> (next_action: ViewerAction)
        ensures
            next_action == tool_action(
                *events,
                *tool_state is Running,
                self@.book.entry.path,
                action,
            ),
    {
        let running: bool = match tool_state {
            ExternalToolToolbarState::Running { .. } => true,
            _ => false,
        };
        if running {
            return action;
        }
        if let Some((tool_index, key)) = events.external_tool_shortcut {
            return ViewerAction::RunExternalTool {
                tool_index,
                target_path: self.book.entry.path.clone(),
                trigger: ExternalToolTrigger::Shortcut { key },
            };
        }
        if let Some(tool_index) = events.external_tool_click {
            return ViewerAction::RunExternalTool {
                tool_index,
                target_path: self.book.entry.path.clone(),
                trigger: ExternalToolTrigger::Toolbar,
            };
        }
        action
    }

    /// When the next frame is due on account of the page on its way or an animation.
    pub fn loading_repaint(&self) -> (repaint_after: Option<u64>)
        ensures
            repaint_after == if self@.ui.loading {
                Some(LOADING_REPAINT_INTERVAL)
            } else {
                None
            },
    {
        if self.ui_runtime.loading {
            Some(LOADING_REPAINT_INTERVAL)
        } else {
            None
        }
    }

    /// When the next frame is due on account of the slideshow: at its next page, and within a
    /// second.
    pub fn slideshow_repaint(&self, now: u64) -> (repaint_after: Option<u64>)
        ensures
            repaint_after == if self@.playback.slideshow_active {
                Some(
                    match self@.playback.slideshow_next_slide_at {
                        Some(at) if at >= now => least(
                            at - now,
                            SLIDESHOW_REPAINT_LIMIT as int,
                        ) as u64,
                        _ => LOADING_REPAINT_INTERVAL,
                    },
                )
            } else {
                None
            },
    {
        if !self.playback.slideshow_active {
            return None;
        }
        let wait: u64 = match self.playback.slideshow_next_slide_at {
            Some(at) => if at >= now {
                at - now
            } else {
                LOADING_REPAINT_INTERVAL
            },
            None => LOADING_REPAINT_INTERVAL,
        };
        Some(min_u64(wait, SLIDESHOW_REPAINT_LIMIT))
    }

    /// The end of a frame: more of an animation is asked for, and a texture is made ahead. Tells
    /// when the next frame is due for the animation.
    pub fn end_frame(&mut self, bg: &RgbaPageCache, area: DisplayArea) -> (repaint_after: Option<u64>)
        requires
            old(self).wf(),
            bg.wf(),
        ensures
            final(self).wf(),
            final(self)@ == old(self)@.chunks_asked(area).warmed(bg@, area),
            repaint_after == if old(self)@.chunks_asked(
                area,
            ).request.animation_stream_request_id is Some {
                Some(LOADING_REPAINT_INTERVAL)
            } else {
                None
            },
    {
        let _ = self.maybe_request_animation_stream_fill(area);
        let awaited: bool = self.request.animation_stream_request_id.is_some();
        let _ = self.maybe_run_gpu_warmup(bg, area);
        if awaited {
            Some(LOADING_REPAINT_INTERVAL)
        } else {
            None
        }
    }
}

/// What external tools ask of the caller.
pub open spec fn tool_action(
    events: ToolbarEvents,
    running: bool,
    path: String,
    before: ViewerAction,
) -> ViewerAction {
    if running {
        before
    } else {
        match (events.external_tool_shortcut, events.external_tool_click) {
            (Some((tool_index, key)), _) => ViewerAction::RunExternalTool {
                tool_index,
                target_path: path,
                trigger: ExternalToolTrigger::Shortcut { key },
            },
            (None, Some(tool_index)) => ViewerAction::RunExternalTool {
                tool_index,
                target_path: path,
                trigger: ExternalToolTrigger::Toolbar,
            },
            (None, None) => before,
        }
    }
}

/// While a tool runs, none is started.
pub proof fn law_one_tool_at_a_time(events: ToolbarEvents, path: String, before: ViewerAction)
    requires
        !(before is RunExternalTool),
    ensures
        !(tool_action(events, true, path, before) is RunExternalTool),
{
}

/// Deletion is asked for only where it is allowed.
pub proof fn law_deletion_needs_leave(
    events: ToolbarEvents,
    capabilities: ViewerUiCapabilities,
    before: ViewerAction,
)
    requires
        !capabilities.allow_delete,
        !(before is RequestDelete),
    ensures
        !(toolbar_action(events, capabilities, before) is RequestDelete),
{
}

/// An error hides all else, and a placeholder hides the pages. Pages are painted only where none of
/// both is there and a page is, or none is on its way; help stands over them in a window that takes
/// input.
pub proof fn law_errors_and_placeholders_hide_the_pages(
    model: ViewerModel,
    is_fullscreen: bool,
    blocked: bool,
)
    ensures
        ({
            let content = model.frame_content(false, is_fullscreen, blocked);
            &&& model.ui.error matches Some(note) ==> content == FrameContent::Error(note)
            &&& content is Placeholder ==> model.ui.pending_placeholder_latched && model.ui.error
                is None
            &&& model.ui.error is None && model.ui.pending_placeholder_latched ==> content
                is Placeholder
            &&& content is Loading <==> model.ui.error is None
                && !model.ui.pending_placeholder_latched && model.ui.loading && model.content_left
                is None && model.content_right is None
            &&& content matches FrameContent::Pages { help } ==> (help <==> !is_fullscreen
                && !blocked)
            &&& !(content is Blank)
        }),
        model.frame_content(true, is_fullscreen, blocked) is Blank,
{
}

/// The controls stay over a full-screen page for a second after the pointer was near or they were
/// used, and are gone outside full screen.
pub proof fn law_controls_stay_a_second(
    model: ViewerModel,
    near: bool,
    interacting: bool,
    now: u64,
    later: u64,
)
    requires
        now + 1_000_000_000 <= u64::MAX,
    ensures
        near || interacting ==> (model.overlay_noted(
            true,
            false,
            near,
            interacting,
            now,
        ).overlay_shows(true, false, false, later) <==> later <= now + 1_000_000_000),
        model.overlay_shows(true, false, true, now),
        !model.overlay_shows(false, false, near, now),
        !model.overlay_shows(true, true, near, now),
        model.overlay_noted(
            false,
            false,
            near,
            interacting,
            now,
        ).ui.fullscreen_overlay_visible_until is None,
        model.overlay_noted(
            true,
            true,
            near,
            interacting,
            now,
        ).ui.fullscreen_overlay_visible_until is None,
        model.ui.fullscreen_overlay_visible_until is None ==> !model.overlay_noted(
            true,
            false,
            false,
            false,
            now,
        ).overlay_shows(true, false, false, later),
        (model.ui.fullscreen_overlay_visible_until matches Some(until) && now <= until)
            ==> model.overlay_noted(
            true,
            false,
            false,
            false,
            now,
        ).ui.fullscreen_overlay_visible_until == model.ui.fullscreen_overlay_visible_until,
{
}

/// What the toolbar asks of the caller: one thing, full screen before deletion and deletion before
/// the favourites, and what was asked before where the toolbar asks nothing.
pub proof fn law_toolbar_asks_one_thing(
    events: ToolbarEvents,
    capabilities: ViewerUiCapabilities,
    before: ViewerAction,
)
    ensures
        ({
            let action = toolbar_action(events, capabilities, before);
            &&& events.toggle_fullscreen ==> action is ToggleFullscreen
            &&& !events.toggle_fullscreen && capabilities.allow_delete && events.delete ==> action
                is RequestDelete
            &&& !events.toggle_fullscreen && !events.delete && events.toggle_favorite ==> action
                is ToggleFavorite
            &&& !events.toggle_fullscreen && !events.delete && !events.toggle_favorite ==> action
                == before
        }),
{
}

/// A toolbar that was not used changes nothing and has nothing to store.
pub proof fn law_unused_toolbars_change_nothing(
    screen: Screen,
    context: ToolbarApplyContext,
    plan: Option<Arc<AutoSpreadPlan>>,
    before: ViewerSettingsChangeSink,
    action: ViewerAction,
)
    ensures
        screen.toolbar_applied(no_events(), context, plan) == screen,
        screen.settings_changed(no_events(), context, plan, before) == before,
        toolbar_action(no_events(), context.capabilities, action) == action,
{
    reveal(Screen::spread_switched);
    reveal(Screen::cover_switched);
    reveal(Screen::interval_set);
    reveal(Screen::direction_set);
    reveal(Screen::quality_set);
    reveal(Screen::playback_set);
}

/// What the toolbar changed is in force and is what is stored: the direction and the quality that
/// were chosen, and the interval as it was held between its bounds.
pub proof fn law_changed_settings_are_stored(
    screen: Screen,
    events: ToolbarEvents,
    context: ToolbarApplyContext,
    plan: Option<Arc<AutoSpreadPlan>>,
    before: ViewerSettingsChangeSink,
)
    requires
        !events.toggle_spread && !events.toggle_cover_blank,
        events.quality_override_change is None,
    ensures
        ({
            let done = screen.toolbar_applied(events, context, plan).model;
            let stored = screen.settings_changed(events, context, plan, before);
            &&& events.reading_direction_override_change matches Some(direction)
                ==> stored.reading_direction_override == Some(direction)
                && done.persistent.reading_direction_override == direction
            &&& events.interval_change is Some ==> stored.slideshow_interval == Some(
                done.playback.slideshow_interval,
            )
            &&& events.reading_direction_override_change is None
                ==> done.persistent.reading_direction_override
                == screen.model.persistent.reading_direction_override
            &&& events.interval_change is None ==> done.playback.slideshow_interval
                == screen.model.playback.slideshow_interval
            &&& stored.spread == before.spread && stored.cover_blank == before.cover_blank
            &&& stored.quality_override == before.quality_override
            &&& done.persistent.displayed_page == screen.model.persistent.displayed_page
            &&& events.toggle_fullscreen || (context.capabilities.allow_delete && events.delete)
                ==> !done.playback.slideshow_active
            &&& !events.toggle_fullscreen && !events.delete ==> (done.playback.slideshow_active
                <==> (screen.model.playback.slideshow_active != events.toggle_slideshow))
        }),
{
    reveal(Screen::spread_switched);
    reveal(Screen::cover_switched);
    reveal(Screen::interval_set);
    reveal(Screen::direction_set);
    reveal(Screen::quality_set);
    reveal(Screen::playback_set);
}

/// The quality that was chosen for the book is noted; where it is the one in force, nothing is
/// loaded anew.
pub proof fn law_chosen_quality_is_noted(
    screen: Screen,
    events: ToolbarEvents,
    context: ToolbarApplyContext,
    choice: Option<ViewerQuality>,
)
    requires
        events.quality_override_change == Some(choice),
        choice == Some(screen.model.request.quality) || (choice is None && context.global_quality
            == screen.model.request.quality),
    ensures
        screen.quality_set(events, context).model.persistent.quality_override == choice,
        screen.quality_set(events, context).model.outbox == screen.model.outbox,
        screen.quality_set(events, context).model.history == screen.model.history,
{
    reveal(Screen::quality_set);
}

/// A tool is run on the path of the book: the one called by its key before the one that was
/// clicked.
pub proof fn law_tools_run_on_the_book(
    events: ToolbarEvents,
    path: String,
    before: ViewerAction,
    tool: usize,
    key: char,
)
    ensures
        events.external_tool_shortcut == Some((tool, key)) ==> tool_action(
            events,
            false,
            path,
            before,
        ) == (ViewerAction::RunExternalTool {
            tool_index: tool,
            target_path: path,
            trigger: ExternalToolTrigger::Shortcut { key },
        }),
        events.external_tool_shortcut is None && events.external_tool_click == Some(tool)
            ==> tool_action(events, false, path, before) == (ViewerAction::RunExternalTool {
            tool_index: tool,
            target_path: path,
            trigger: ExternalToolTrigger::Toolbar,
        }),
        events.external_tool_shortcut is None && events.external_tool_click is None ==> tool_action(
            events,
            false,
            path,
            before,
        ) == before,
        tool_action(events, true, path, before) == before,
{
}

/// Pairing and the blank page are switched once the window is at rest: then the page that reading
/// stands at is loaded anew; while the window is changing nothing happens.
pub proof fn law_switches_wait_for_the_window(
    screen: Screen,
    events: ToolbarEvents,
    context: ToolbarApplyContext,
    plan: Option<Arc<AutoSpreadPlan>>,
)
    ensures
        context.in_viewport_transition || !events.toggle_spread ==> screen.spread_switched(
            events,
            context,
        ) == screen,
        context.in_viewport_transition || !events.toggle_cover_blank ==> screen.cover_switched(
            events,
            context,
            plan,
        ) == screen,
        !context.in_viewport_transition && events.toggle_spread ==> screen.spread_switched(
            events,
            context,
        ) == screen.with_model(screen.model.spread_toggled()).view_loaded(
            screen.model.base_page(),
            context.area,
            context.now,
        ),
        !context.in_viewport_transition && events.toggle_cover_blank ==> screen.cover_switched(
            events,
            context,
            plan,
        ) == screen.with_model(screen.model.cover_blank_toggled(plan)).view_loaded(
            screen.model.base_page(),
            context.area,
            context.now,
        ),
{
    reveal(Screen::spread_switched);
    reveal(Screen::cover_switched);
}

/// Another quality than the one in force loads the page that was asked for anew, under that
/// quality: the one chosen for the book, or the general one where none is.
pub proof fn law_another_quality_loads_anew(
    screen: Screen,
    events: ToolbarEvents,
    context: ToolbarApplyContext,
    quality: ViewerQuality,
)
    requires
        events.quality_override_change == Some(Some(quality)) || (events.quality_override_change
            == Some(None::<ViewerQuality>) && quality == context.global_quality),
        quality != screen.model.request.quality,
    ensures
        ({
            let changed = screen.model.with_quality_override(
                events.quality_override_change->0,
            ).with_quality(quality);
            &&& changed.request.quality == quality
            &&& screen.quality_set(events, context) == screen.with_model(changed).view_loaded(
                screen.model.persistent.requested_page,
                changed.reload_area(context.area.max_tex_side),
                context.now,
            )
        }),
{
    reveal(Screen::quality_set);
}

} // verus!
