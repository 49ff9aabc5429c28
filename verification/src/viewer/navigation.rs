//! Moving through the book, and what follows from a change of settings.
use std::sync::Arc;

use vstd::prelude::*;

use super::auto_spread_plan::AutoSpreadPlan;
use super::display::screen_of;
use super::display_model::{inflight_cleared, waiting, DisplayArea, Screen};
use super::rgba_page_cache::RgbaPageCache;
use super::state::{
    build_auto_spread_plan_for_mode, empty_cache, is_paired_in_plan, is_plan_for, pairs_in_plan,
    FullEquivalentSizeHint, FullEquivalentSizeHintSource, NavMode, SpreadSnapshot, ViewerModel,
    ViewerPersistentState, ViewerRequestState, ViewerState, ViewerUiRuntimeState,
};
use crate::domain::{SpreadMode, ViewerQuality};
use crate::num::{greatest, least, max_u32, monus};

verus! {

/// Inputs no further apart than this follow the latest one: 180 milliseconds.
pub const FOLLOW_LATEST_THRESHOLD: u64 = 180_000_000;

/// Inputs no further apart than this count as one held key: 50 milliseconds.
pub const NAV_CONSECUTIVE_WINDOW: u64 = 50_000_000;

/// The page that a step forward in the plan leads to.
pub open spec fn planned_next(plan: Option<Arc<AutoSpreadPlan>>, page: u32) -> Option<u32> {
    match plan {
        Some(plan) => if page < (*plan).page_count() && (*plan).unit_of(page as int).end()
            < (*plan).page_count() {
            Some((*plan).unit_of(page as int).end() as u32)
        } else {
            None
        },
        None => None,
    }
}

/// The page that a step back in the plan leads to.
pub open spec fn planned_previous(plan: Option<Arc<AutoSpreadPlan>>, page: u32) -> Option<u32> {
    match plan {
        Some(plan) => if page < (*plan).page_count() && (*plan).unit_of(page as int).first_page > 0 {
            Some((*plan).unit_of((*plan).unit_of(page as int).first_page - 1).first_page)
        } else {
            None
        },
        None => None,
    }
}

impl ViewerModel {
    /// How many pages a step passes: those on screen.
    pub open spec fn step(self) -> int {
        if self.display_pages(self.base_page()).1 is Some {
            2
        } else {
            1
        }
    }

    /// The page that a step forward leads to; none at the end of the book.
    pub open spec fn next_page(self) -> Option<u32> {
        let base = self.base_page();
        if self.persistent.spread_setting == SpreadMode::Auto && self.plan is Some {
            planned_next(self.plan, base)
        } else if base + self.step() < self.persistent.page_count {
            Some((base + self.step()) as u32)
        } else {
            None
        }
    }

    /// The page that a step back leads to; none at the start of the book.
    pub open spec fn previous_page(self) -> Option<u32> {
        let base = self.base_page();
        if self.persistent.spread_setting == SpreadMode::Auto && self.plan is Some {
            planned_previous(self.plan, base)
        } else if base > 0 {
            Some(monus(base as nat, self.step() as nat) as u32)
        } else {
            None
        }
    }

    /// The first page, unless input has led there already.
    pub open spec fn first_page(self) -> Option<u32> {
        if self.persistent.target_page != 0 {
            Some(0)
        } else {
            None
        }
    }

    /// The last page, unless input has led there already.
    pub open spec fn last_page(self) -> Option<u32> {
        let last = monus(self.persistent.page_count as nat, 1) as u32;
        if self.persistent.target_page != last {
            Some(last)
        } else {
            None
        }
    }

    pub open spec fn with_direction(self, prefetch_dir: i32) -> ViewerModel {
        ViewerModel { request: ViewerRequestState { prefetch_dir, ..self.request }, ..self }
    }

    /// Input that asks for a page: the viewer's own decodes are dropped, and while another page
    /// is on its way the page waits, in place of one that waited before.
    pub open spec fn page_wanted(self, page: u32) -> ViewerModel {
        let nav_id = self.request.next_nav_id;
        let moved = self.with_nav();
        ViewerModel {
            interactive: empty_cache(),
            persistent: ViewerPersistentState { target_page: page, ..self.persistent },
            request: ViewerRequestState {
                prefetch_idle_deadline: None,
                queued_view: if self.ui.loading {
                    Some(page)
                } else {
                    None
                },
                queued_nav: if self.ui.loading {
                    Some((page, nav_id))
                } else {
                    None
                },
                ..moved.request
            },
            ..moved
        }
    }

    /// Another quality: nothing that was made before fits it.
    pub open spec fn with_quality(self, quality: ViewerQuality) -> ViewerModel {
        if self.request.quality == quality {
            self
        } else {
            ViewerModel {
                request: inflight_cleared(
                    ViewerRequestState { quality, prefetch_idle_deadline: None, ..self.request },
                ),
                history: self.history.cleared("quality_changed"),
                warmup: self.warmup.cleared("quality_changed"),
                interactive: empty_cache(),
                ..self
            }
        }
    }

    /// The setting that follows the present one when pairing is switched.
    pub open spec fn next_setting(self) -> SpreadMode {
        match self.persistent.spread_setting {
            SpreadMode::Auto => SpreadMode::Single,
            SpreadMode::Single => SpreadMode::Spread,
            SpreadMode::Spread => if self.plan is Some {
                SpreadMode::Auto
            } else {
                SpreadMode::Single
            },
        }
    }

    /// Pairing switched to the next setting.
    pub open spec fn spread_toggled(self) -> ViewerModel {
        let setting = self.next_setting();
        let switched = ViewerModel {
            persistent: ViewerPersistentState { spread_setting: setting, ..self.persistent },
            ..self
        };
        ViewerModel {
            persistent: ViewerPersistentState {
                spread_mode: match setting {
                    SpreadMode::Auto => switched.display_pages(self.base_page()).1 is Some,
                    SpreadMode::Single => false,
                    SpreadMode::Spread => true,
                },
                spread_snapshot: SpreadSnapshot {
                    valid: false,
                    ..self.persistent.spread_snapshot
                },
                ..switched.persistent
            },
            ..switched
        }
    }

    /// The blank page opposite the cover put in or taken out, with the plan that goes with it.
    pub open spec fn cover_blank_toggled(self, plan: Option<Arc<AutoSpreadPlan>>) -> ViewerModel {
        ViewerModel {
            plan,
            persistent: ViewerPersistentState {
                cover_blank: !self.persistent.cover_blank,
                spread_snapshot: SpreadSnapshot {
                    valid: false,
                    ..self.persistent.spread_snapshot
                },
                ..self.persistent
            },
            ..self
        }
    }

    /// Another page to start at, for as long as nothing was asked for.
    pub open spec fn with_start_page(self, page: u32) -> ViewerModel {
        if !self.request.initial_load_pending {
            self
        } else {
            ViewerModel {
                persistent: ViewerPersistentState {
                    requested_page: page,
                    displayed_page: page,
                    target_page: page,
                    spread_mode: if self.persistent.spread_setting == SpreadMode::Auto {
                        pairs_in_plan(self.plan, page)
                    } else {
                        self.persistent.spread_mode
                    },
                    spread_snapshot: SpreadSnapshot {
                        valid: false,
                        ..self.persistent.spread_snapshot
                    },
                    ..self.persistent
                },
                request: ViewerRequestState { prefetch_anchor_view: page, ..self.request },
                ..self
            }
        }
    }

    /// Input noted: keys that follow fast are one held key, and lead straight to the latest page.
    pub open spec fn input_noted(self, now: u64) -> ViewerModel {
        let gap = match self.ui.last_nav_input_at {
            Some(last) => Some(monus(now as nat, last as nat)),
            None => None,
        };
        ViewerModel {
            ui: ViewerUiRuntimeState {
                nav_consecutive_count: if gap matches Some(gap) && gap <= NAV_CONSECUTIVE_WINDOW {
                    least(self.ui.nav_consecutive_count + 1, u32::MAX as int) as u32
                } else {
                    1
                },
                nav_mode: if gap matches Some(gap) && gap <= FOLLOW_LATEST_THRESHOLD {
                    NavMode::FollowLatest
                } else {
                    NavMode::Sequential
                },
                last_nav_input_at: Some(now),
                ..self.ui
            },
            ..self
        }
    }
}

impl Screen {
    /// The screen at a page asked for under a new navigation id.
    pub open spec fn view_loaded(self, page: u32, area: DisplayArea, now: u64) -> Screen {
        Screen { model: self.model.with_nav(), ..self }.view_started(
            self.model.request.next_nav_id,
            page,
            area,
            now,
            waiting(area, now),
        )
    }

    /// Input asks for a page.
    pub open spec fn view_wanted(self, page: u32, area: DisplayArea, now: u64) -> Screen {
        let wanted = Screen { model: self.model.page_wanted(page), ..self };
        if self.model.ui.loading {
            wanted
        } else {
            wanted.view_started(
                self.model.request.next_nav_id,
                page,
                area,
                now,
                waiting(area, now),
            )
        }
    }

    /// A step to a page, if there is one to go to.
    pub open spec fn stepped(
        self,
        page: Option<u32>,
        direction: i32,
        area: DisplayArea,
        now: u64,
    ) -> Screen {
        match page {
            Some(page) => Screen {
                model: self.model.with_direction(direction),
                ..self
            }.view_wanted(page, area, now),
            None => self,
        }
    }
}

impl ViewerState {
    /// Asks for the screen at a page, whatever is under way.
    pub fn load_view(&mut self, bg: &mut RgbaPageCache, page: u32, area: DisplayArea, now: u64)
        requires
            old(self).wf(),
            old(bg).wf(),
        ensures
            final(self).wf(),
            final(bg).wf(),
            screen_of(*final(self), *final(bg)) == screen_of(*old(self), *old(bg)).view_loaded(
                page,
                area,
                now,
            ),
    {
        let nav_id: u64 = self.begin_nav();
        self.start_view_request(bg, nav_id, page, area, now);
    }

    /// Notes that input asks for a page.
    fn want_page(&mut self, page: u32)
        requires
            old(self).wf(),
        ensures
            final(self).wf(),
            final(self)@ == old(self)@.page_wanted(page),
    {
        reveal(ViewerState::wf);
        let nav_id: u64 = self.begin_nav();
        self.display_assets.interactive_rgba_cache = RgbaPageCache::new();
        assert(self@.interactive == empty_cache());
        self.request.prefetch_idle_deadline = None;
        self.persistent.target_page = page;
        if self.ui_runtime.loading {
            self.request.queued_view = Some(page);
            self.request.queued_nav = Some((page, nav_id));
        } else {
            self.request.queued_view = None;
            self.request.queued_nav = None;
        }
    }

    /// Asks for the screen at a page, or lets it wait for the one on its way.
    pub fn request_view(&mut self, bg: &mut RgbaPageCache, page: u32, area: DisplayArea, now: u64)
        requires
            old(self).wf(),
            old(bg).wf(),
        ensures
            final(self).wf(),
            final(bg).wf(),
            screen_of(*final(self), *final(bg)) == screen_of(*old(self), *old(bg)).view_wanted(
                page,
                area,
                now,
            ),
    {
        let nav_id: u64 = self.request.next_nav_id;
        let loading: bool = self.ui_runtime.loading;
        self.want_page(page);
        if !loading {
            self.start_view_request(bg, nav_id, page, area, now);
        }
    }

    fn set_direction(&mut self, direction: i32)
        requires
            old(self).wf(),
        ensures
            final(self).wf(),
            final(self)@ == old(self)@.with_direction(direction),
    {
        reveal(ViewerState::wf);
        self.request.prefetch_dir = direction;
    }

    fn go_to(
        &mut self,
        bg: &mut RgbaPageCache,
        page: Option<u32>,
        direction: i32,
        area: DisplayArea,
        now: u64,
    )
        requires
            old(self).wf(),
            old(bg).wf(),
        ensures
            final(self).wf(),
            final(bg).wf(),
            screen_of(*final(self), *final(bg)) == screen_of(*old(self), *old(bg)).stepped(
                page,
                direction,
                area,
                now,
            ),
    {
        if let Some(page) = page {
            self.set_direction(direction);
            self.request_view(bg, page, area, now);
        }
    }

    /// The page that a step forward leads to.
    pub fn next_page_target(&self) -> (page: Option<u32>)
        requires
            self.wf(),
        ensures
            page == self@.next_page(),
    {
        reveal(ViewerState::wf);
        let base: u32 = self.navigation_base_page();
        if self.persistent.spread_setting == SpreadMode::Auto {
            if let Some(plan) = &self.auto_spread_plan {
                return plan.next_anchor(base);
            }
        }
        let (_, visible_right): (Option<u32>, Option<u32>) = self.current_view_pages(base);
        let step: u32 = if visible_right.is_some() {
            2
        } else {
            1
        };
        let next: u32 = base.saturating_add(step);
        if next < self.persistent.page_count {
            Some(next)
        } else {
            None
        }
    }

    /// The page that a step back leads to.
    pub fn previous_page_target(&self) -> (page: Option<u32>)
        requires
            self.wf(),
        ensures
            page == self@.previous_page(),
    {
        reveal(ViewerState::wf);
        let base: u32 = self.navigation_base_page();
        if self.persistent.spread_setting == SpreadMode::Auto {
            if let Some(plan) = &self.auto_spread_plan {
                return plan.previous_anchor(base);
            }
        }
        let (_, visible_right): (Option<u32>, Option<u32>) = self.current_view_pages(base);
        let step: u32 = if visible_right.is_some() {
            2
        } else {
            1
        };
        let previous: u32 = base.saturating_sub(step);
        if previous != base {
            Some(previous)
        } else {
            None
        }
    }

    pub fn go_next(&mut self, bg: &mut RgbaPageCache, area: DisplayArea, now: u64)
        requires
            old(self).wf(),
            old(bg).wf(),
        ensures
            final(self).wf(),
            final(bg).wf(),
            screen_of(*final(self), *final(bg)) == screen_of(*old(self), *old(bg)).stepped(
                old(self)@.next_page(),
                1,
                area,
                now,
            ),
    {
        let page: Option<u32> = self.next_page_target();
        self.go_to(bg, page, 1, area, now);
    }

    pub fn go_prev(&mut self, bg: &mut RgbaPageCache, area: DisplayArea, now: u64)
        requires
            old(self).wf(),
            old(bg).wf(),
        ensures
            final(self).wf(),
            final(bg).wf(),
            screen_of(*final(self), *final(bg)) == screen_of(*old(self), *old(bg)).stepped(
                old(self)@.previous_page(),
                -1i32,
                area,
                now,
            ),
    {
        let page: Option<u32> = self.previous_page_target();
        self.go_to(bg, page, -1, area, now);
    }

    pub fn go_first(&mut self, bg: &mut RgbaPageCache, area: DisplayArea, now: u64)
        requires
            old(self).wf(),
            old(bg).wf(),
        ensures
            final(self).wf(),
            final(bg).wf(),
            screen_of(*final(self), *final(bg)) == screen_of(*old(self), *old(bg)).stepped(
                old(self)@.first_page(),
                1,
                area,
                now,
            ),
    {
        let page: Option<u32> = if self.nav_target() != 0 {
            Some(0)
        } else {
            None
        };
        self.go_to(bg, page, 1, area, now);
    }

    pub fn go_last(&mut self, bg: &mut RgbaPageCache, area: DisplayArea, now: u64)
        requires
            old(self).wf(),
            old(bg).wf(),
        ensures
            final(self).wf(),
            final(bg).wf(),
            screen_of(*final(self), *final(bg)) == screen_of(*old(self), *old(bg)).stepped(
                old(self)@.last_page(),
                -1i32,
                area,
                now,
            ),
    {
        let last: u32 = self.persistent.page_count.saturating_sub(1);
        let page: Option<u32> = if self.nav_target() != last {
            Some(last)
        } else {
            None
        };
        self.go_to(bg, page, -1, area, now);
    }

    fn switch_spread(&mut self)
        requires
            old(self).wf(),
        ensures
            final(self).wf(),
            final(self)@ == old(self)@.spread_toggled(),
    {
        reveal(ViewerState::wf);
        let selected_page: u32 = self.navigation_base_page();
        let next_setting: SpreadMode = match self.persistent.spread_setting {
            SpreadMode::Auto => SpreadMode::Single,
            SpreadMode::Single => SpreadMode::Spread,
            SpreadMode::Spread => if self.auto_mode_available() {
                SpreadMode::Auto
            } else {
                SpreadMode::Single
            },
        };
        self.persistent.spread_setting = next_setting;
        self.persistent.spread_mode =
        match next_setting {
            SpreadMode::Auto => {
                let (_, page_right): (Option<u32>, Option<u32>) =
                    self.display_pages_for_physical_page(selected_page);
                page_right.is_some()
            },
            SpreadMode::Single => false,
            SpreadMode::Spread => true,
        };
        self.persistent.spread_snapshot.valid = false;
    }

    /// Switches pairing: automatic, single, spread and back. Automatic pairing is passed over
    /// where there is no plan.
    pub fn toggle_spread(&mut self, bg: &mut RgbaPageCache, area: DisplayArea, now: u64)
        requires
            old(self).wf(),
            old(bg).wf(),
        ensures
            final(self).wf(),
            final(bg).wf(),
            screen_of(*final(self), *final(bg)) == (Screen {
                model: old(self)@.spread_toggled(),
                bg: old(bg)@,
            }).view_loaded(old(self)@.base_page(), area, now),
    {
        let selected_page: u32 = self.navigation_base_page();
        self.switch_spread();
        self.load_view(bg, selected_page, area, now);
    }

    /// Puts in or takes out the blank page; tells what the new plan is to its own contract.
    fn switch_cover_blank(&mut self)
        requires
            old(self).wf(),
        ensures
            final(self).wf(),
            is_plan_for(
                final(self)@.plan,
                old(self)@.book.page_map,
                !old(self)@.persistent.cover_blank,
            ),
            final(self)@ == old(self)@.cover_blank_toggled(final(self)@.plan),
    {
        reveal(ViewerState::wf);
        self.persistent.cover_blank = !self.persistent.cover_blank;
        self.auto_spread_plan =
        build_auto_spread_plan_for_mode(&self.book.page_map, self.persistent.cover_blank);
        self.persistent.spread_snapshot.valid = false;
    }

    /// Puts the blank page opposite the cover in or out. The book is planned anew.
    pub fn toggle_cover_blank(&mut self, bg: &mut RgbaPageCache, area: DisplayArea, now: u64)
        requires
            old(self).wf(),
            old(bg).wf(),
        ensures
            final(self).wf(),
            final(bg).wf(),
            exists|plan: Option<Arc<AutoSpreadPlan>>|
                is_plan_for(plan, old(self)@.book.page_map, !old(self)@.persistent.cover_blank)
                    && screen_of(*final(self), *final(bg)) == (Screen {
                    model: #[trigger] old(self)@.cover_blank_toggled(plan),
                    bg: old(bg)@,
                }).view_loaded(old(self)@.base_page(), area, now),
    {
        let selected_page: u32 = self.navigation_base_page();
        self.switch_cover_blank();
        let ghost plan = self@.plan;
        assert(self@ == old(self)@.cover_blank_toggled(plan));
        self.load_view(bg, selected_page, area, now);
    }

    /// Drops every texture that was kept.
    pub fn clear_gpu_texture_history(&mut self, reason: &'static str)
        requires
            old(self).wf(),
        ensures
            final(self).wf(),
            final(self)@ == (ViewerModel {
                history: old(self)@.history.cleared(reason),
                warmup: old(self)@.warmup.cleared(reason),
                ..old(self)@
            }),
    {
        reveal(ViewerState::wf);
        self.display_assets.gpu_texture_history.clear(reason);
        self.display_assets.gpu_warmup_cache.clear(reason);
    }

    pub fn set_quality(&mut self, quality: ViewerQuality)
        requires
            old(self).wf(),
        ensures
            final(self).wf(),
            final(self)@ == old(self)@.with_quality(quality),
    {
        reveal(ViewerState::wf);
        if self.request.quality == quality {
            return;
        }
        self.request.quality = quality;
        self.clear_gpu_texture_history("quality_changed");
        self.display_assets.interactive_rgba_cache = RgbaPageCache::new();
        assert(self@.interactive == empty_cache());
        self.clear_interactive_in_flight();
        self.request.prefetch_idle_deadline = None;
    }

    /// Asks for the present screen again.
    pub fn reload_current_view(&mut self, bg: &mut RgbaPageCache, max_tex_side: u32, now: u64)
        requires
            old(self).wf(),
            old(bg).wf(),
        ensures
            final(self).wf(),
            final(bg).wf(),
            screen_of(*final(self), *final(bg)) == screen_of(*old(self), *old(bg)).view_loaded(
                old(self)@.persistent.requested_page,
                old(self)@.reload_area(max_tex_side),
                now,
            ),
    {
        let area = DisplayArea {
            display_w: max_u32(self.ui_runtime.last_stable_display_w, 1),
            display_h: max_u32(self.ui_runtime.last_stable_display_h, 1),
            max_tex_side,
        };
        let page: u32 = self.persistent.requested_page;
        self.load_view(bg, page, area, now);
    }

    fn take_initial_load(&mut self)
        requires
            old(self).wf(),
        ensures
            final(self).wf(),
            final(self)@ == old(self)@.initial_load_taken(),
    {
        reveal(ViewerState::wf);
        self.request.initial_load_pending = false;
        self.ui_runtime.loading = true;
    }

    /// Asks for the first screen, now that the display size is known.
    pub fn start_initial_load(&mut self, bg: &mut RgbaPageCache, area: DisplayArea, now: u64)
        requires
            old(self).wf(),
            old(bg).wf(),
        ensures
            final(self).wf(),
            final(bg).wf(),
            screen_of(*final(self), *final(bg)) == (Screen {
                model: old(self)@.initial_load_taken(),
                bg: old(bg)@,
            }).view_loaded(old(self)@.persistent.requested_page, area, now),
    {
        let page: u32 = self.persistent.requested_page;
        self.take_initial_load();
        self.load_view(bg, page, area, now);
    }

    /// Moves the start page, for as long as nothing was asked for.
    pub fn apply_start_page_before_initial_load(&mut self, start_page: Option<usize>)
        requires
            old(self).wf(),
        ensures
            final(self).wf(),
            final(self)@ == match start_page {
                Some(page) => old(self)@.with_start_page(page as u32),
                None => old(self)@,
            },
    {
        reveal(ViewerState::wf);
        let start_page: u32 = match start_page {
            Some(page) => page_number(page),
            None => {
                return;
            },
        };
        if !self.request.initial_load_pending {
            return;
        }
        self.persistent.requested_page = start_page;
        self.persistent.displayed_page = start_page;
        self.persistent.target_page = start_page;
        self.request.prefetch_anchor_view = start_page;
        self.persistent.spread_snapshot.valid = false;
        if self.persistent.spread_setting == SpreadMode::Auto {
            self.persistent.spread_mode = is_paired_in_plan(&self.auto_spread_plan, start_page);
        }
    }

    pub fn register_nav_input(&mut self, now: u64)
        requires
            old(self).wf(),
        ensures
            final(self).wf(),
            final(self)@ == old(self)@.input_noted(now),
    {
        reveal(ViewerState::wf);
        let mut held: bool = false;
        let mut fast: bool = false;
        if let Some(last) = self.ui_runtime.last_nav_input_at {
            let gap: u64 = now.saturating_sub(last);
            held = gap <= NAV_CONSECUTIVE_WINDOW;
            fast = gap <= FOLLOW_LATEST_THRESHOLD;
        }
        self.ui_runtime.nav_consecutive_count = if held {
            self.ui_runtime.nav_consecutive_count.saturating_add(1)
        } else {
            1
        };
        self.ui_runtime.nav_mode = if fast {
            NavMode::FollowLatest
        } else {
            NavMode::Sequential
        };
        self.ui_runtime.last_nav_input_at = Some(now);
    }

    pub fn set_full_equivalent_size_hint(&mut self, hint: Option<FullEquivalentSizeHint>)
        requires
            old(self).wf(),
        ensures
            final(self).wf(),
            final(self)@ == (ViewerModel { hint, ..old(self)@ }),
    {
        reveal(ViewerState::wf);
        self.full_equivalent_size_hint = hint;
    }

    /// Takes the size of the monitor, in whole points; sides of less than a point tell nothing.
    pub fn update_full_equivalent_size_hint_from_viewer(&mut self, monitor_size: Option<(u32, u32)>)
        requires
            old(self).wf(),
        ensures
            final(self).wf(),
            final(self)@ == match monitor_size {
                Some((width, height)) if width >= 1 && height >= 1 => (ViewerModel {
                    hint: Some(
                        FullEquivalentSizeHint {
                            monitor_width: width,
                            monitor_height: height,
                            source: FullEquivalentSizeHintSource::ViewerViewport,
                        },
                    ),
                    ..old(self)@
                }),
                _ => old(self)@,
            },
    {
        if let Some((monitor_width, monitor_height)) = monitor_size {
            if monitor_width >= 1 && monitor_height >= 1 {
                self.set_full_equivalent_size_hint(
                    Some(
                        FullEquivalentSizeHint {
                            monitor_width,
                            monitor_height,
                            source: FullEquivalentSizeHintSource::ViewerViewport,
                        },
                    ),
                );
            }
        }
    }
}

impl ViewerModel {
    /// The area of the last frame that was not in transition.
    pub open spec fn reload_area(self, max_tex_side: u32) -> DisplayArea {
        DisplayArea {
            display_w: greatest(self.ui.last_stable_display_w as int, 1) as u32,
            display_h: greatest(self.ui.last_stable_display_h as int, 1) as u32,
            max_tex_side,
        }
    }

    pub open spec fn initial_load_taken(self) -> ViewerModel {
        ViewerModel {
            request: ViewerRequestState { initial_load_pending: false, ..self.request },
            ui: ViewerUiRuntimeState { loading: true, ..self.ui },
            ..self
        }
    }
}

#[verifier::truncate]
fn page_number(page: usize) -> (number: u32)
    ensures
        number == page as u32,
{
    page as u32
}

/// A step forward leads to a later page and a step back to an earlier one; outside automatic
/// pairing both stay in the book.
pub proof fn law_steps_move_the_right_way(model: ViewerModel)
    requires
        model.plan matches Some(plan) ==> (*plan).wf(),
    ensures
        model.next_page() matches Some(page) ==> page > model.base_page(),
        model.previous_page() matches Some(page) ==> page < model.base_page(),
        !(model.persistent.spread_setting == SpreadMode::Auto && model.plan is Some) ==> (
        model.next_page() matches Some(page) ==> page < model.persistent.page_count),
{
    let base = model.base_page() as int;
    assert(model.plan matches Some(plan) ==> (base < (*plan).page_count() ==> {
        let unit = (*plan).unit_of(base);
        &&& unit.covers(base)
        &&& unit.end() <= (*plan).page_count()
        &&& unit.first_page > 0 ==> (*plan).unit_of(unit.first_page - 1).covers(
            unit.first_page - 1,
        )
    }));
}

/// While a page is on its way, input changes the target and what waits, but neither the page on
/// screen nor the one that was asked for.
pub proof fn law_input_waits_while_loading(
    screen: Screen,
    page: u32,
    area: DisplayArea,
    now: u64,
)
    requires
        screen.model.ui.loading,
    ensures
        screen.view_wanted(page, area, now).model.persistent == (ViewerPersistentState {
            target_page: page,
            ..screen.model.persistent
        }),
        screen.view_wanted(page, area, now).model.request.queued_view == Some(page),
        screen.view_wanted(page, area, now).model.outbox == screen.model.outbox,
        screen.view_wanted(page, area, now).bg == screen.bg,
{
}

/// Of inputs that come while a page is on its way, only the latest waits.
pub proof fn law_latest_input_wins(
    screen: Screen,
    first: u32,
    second: u32,
    area: DisplayArea,
    now: u64,
)
    requires
        screen.model.ui.loading,
    ensures
        ({
            let both = screen.view_wanted(first, area, now).view_wanted(second, area, now).model;
            &&& both.request.queued_view == Some(second)
            &&& both.request.queued_nav matches Some((page, _)) && page == second
            &&& both.persistent.target_page == second
        }),
{
}

/// Switching pairing goes round: three switches lead back where there is a plan, and from single
/// pages two do where there is none.
pub proof fn law_pairing_goes_round(model: ViewerModel)
    ensures
        model.plan is Some ==> model.spread_toggled().spread_toggled().spread_toggled().persistent.spread_setting
            == model.persistent.spread_setting,
        model.plan is None && model.persistent.spread_setting != SpreadMode::Auto
            ==> model.spread_toggled().spread_toggled().persistent.spread_setting
            == model.persistent.spread_setting,
{
}

/// Where reading stands: the latest page that input led to while inputs follow fast, else the page
/// on its way, else the page on screen.
pub proof fn law_reading_stands_at_the_latest_page(model: ViewerModel)
    ensures
        model.ui.nav_mode == NavMode::FollowLatest ==> model.base_page()
            == model.persistent.target_page,
        model.ui.nav_mode == NavMode::Sequential && model.ui.loading ==> model.base_page()
            == model.persistent.requested_page,
        model.ui.nav_mode == NavMode::Sequential && !model.ui.loading ==> model.base_page()
            == model.persistent.displayed_page,
{
}

/// Outside automatic pairing a step passes exactly the pages on screen: one page, or two where two
/// are shown. A step back stops at the first page, and a step forward is not taken where it would
/// leave the book.
pub proof fn law_steps_pass_the_pages_on_screen(model: ViewerModel)
    requires
        model.persistent.spread_setting != SpreadMode::Auto || model.plan is None,
        model.base_page() < model.persistent.page_count,
    ensures
        ({
            let base = model.base_page() as int;
            let count = model.persistent.page_count as int;
            let two = model.persistent.spread_setting == SpreadMode::Spread && base + 1 < count
                && !(model.persistent.cover_blank && base == 0);
            &&& !two && base > 0 ==> model.previous_page() == Some((base - 1) as u32)
            &&& two && base > 1 ==> model.previous_page() == Some((base - 2) as u32)
            &&& two && base == 1 ==> model.previous_page() == Some(0u32)
            &&& base == 0 ==> model.previous_page() is None
            &&& !two && base + 1 < count ==> model.next_page() == Some((base + 1) as u32)
            &&& two && base + 2 < count ==> model.next_page() == Some((base + 2) as u32)
            &&& base + (if two {
                2int
            } else {
                1int
            }) >= count ==> model.next_page() is None
        }),
{
}

/// With automatic pairing a step leads from screen to screen of the plan: forward to the page
/// behind the pages on screen, back to the screen that ends before them.
pub proof fn law_planned_steps_lead_from_screen_to_screen(model: ViewerModel)
    requires
        model.persistent.spread_setting == SpreadMode::Auto,
        model.plan matches Some(plan) && (*plan).wf() && model.base_page() < (*plan).page_count(),
    ensures
        ({
            let plan = *model.plan->0;
            let here = plan.unit_of(model.base_page() as int);
            &&& model.next_page() matches Some(page) ==> page == match here.second_page {
                Some(second) => second + 1,
                None => here.first_page + 1,
            } && plan.unit_of(page as int).first_page == page
            &&& model.next_page() is None ==> here.covers(plan.page_count() - 1)
            &&& model.previous_page() matches Some(page) ==> plan.unit_of(page as int).first_page
                == page && plan.unit_of(page as int).covers(here.first_page - 1)
            &&& model.previous_page() is None ==> here.first_page == 0
        }),
{
    let plan = *model.plan->0;
    let base = model.base_page() as int;
    let index = plan.page_to_unit@[base] as int;
    let here = plan.units@[index];
    assert(here.covers(base) && here.wf() && here.end() <= plan.page_count());
    if here.end() < plan.page_count() {
        super::auto_spread_plan::law_next_then_previous(plan, base);
    }
    if here.first_page > 0 {
        super::auto_spread_plan::law_previous_then_next(plan, base);
        super::auto_spread_plan::law_anchor_is_in_the_unit(plan, here.first_page - 1);
    }
    assert(here.covers(here.end() - 1));
}

/// Page by page, a step back from the page that a step forward led to leads to the page that it
/// came from, and the other way round.
pub proof fn law_steps_between_single_pages_undo_each_other(before: ViewerModel, after: ViewerModel)
    requires
        before.persistent.spread_setting == SpreadMode::Single,
        after.persistent.spread_setting == SpreadMode::Single,
        before.persistent.page_count == after.persistent.page_count,
        before.base_page() < before.persistent.page_count,
        after.base_page() < after.persistent.page_count,
    ensures
        before.next_page() == Some(after.base_page()) <==> after.previous_page() == Some(
            before.base_page(),
        ),
        before.next_page() == Some(after.base_page()) <==> after.base_page() == before.base_page()
            + 1,
{
}

/// The keys for the ends of the book lead to its first and its last page, unless input has led
/// there already.
pub proof fn law_ends_of_the_book(model: ViewerModel)
    requires
        model.persistent.page_count > 0,
    ensures
        model.persistent.target_page != 0 ==> model.first_page() == Some(0u32),
        model.persistent.target_page == 0 ==> model.first_page() is None,
        model.last_page() matches Some(page) ==> page + 1 == model.persistent.page_count,
        model.last_page() is None <==> model.persistent.target_page + 1
            == model.persistent.page_count,
{
}

/// A page that input asks for while nothing is on its way becomes the target and the page that is
/// asked for, and nothing waits.
pub proof fn law_input_at_rest_is_acted_on(screen: Screen, page: u32, area: DisplayArea, now: u64)
    requires
        !screen.model.ui.loading,
    ensures
        screen.view_wanted(page, area, now) == (Screen {
            model: screen.model.page_wanted(page),
            ..screen
        }).view_started(screen.model.request.next_nav_id, page, area, now, waiting(area, now)),
        screen.model.page_wanted(page).persistent.target_page == page,
        screen.model.page_wanted(page).request.queued_view is None,
        screen.model.page_wanted(page).persistent.displayed_page
            == screen.model.persistent.displayed_page,
        screen.model.page_wanted(page).history == screen.model.history,
        screen.model.page_wanted(page).warmup == screen.model.warmup,
{
}

/// Steps and the direction of reading: a step forward sets pages ahead being decoded, a step back
/// pages behind.
pub proof fn law_steps_set_the_direction(
    screen: Screen,
    page: u32,
    direction: i32,
    area: DisplayArea,
    now: u64,
)
    requires
        screen.model.ui.loading,
    ensures
        screen.stepped(Some(page), direction, area, now).model.request.prefetch_dir == direction,
        screen.stepped(Some(page), direction, area, now).model.persistent.target_page == page,
        screen.stepped(None, direction, area, now) == screen,
{
}

/// Inputs at most 180 milliseconds apart follow the latest page, others are taken one by one; those
/// at most 50 milliseconds apart count as one held key.
pub proof fn law_fast_input_follows_the_latest(model: ViewerModel, last: u64, now: u64)
    requires
        model.ui.last_nav_input_at == Some(last),
        last <= now,
    ensures
        (model.input_noted(now).ui.nav_mode == NavMode::FollowLatest) <==> now - last
            <= 180_000_000,
        now - last <= 50_000_000 && model.ui.nav_consecutive_count < u32::MAX
            ==> model.input_noted(now).ui.nav_consecutive_count == model.ui.nav_consecutive_count
            + 1,
        now - last > 50_000_000 ==> model.input_noted(now).ui.nav_consecutive_count == 1,
        model.input_noted(now).ui.last_nav_input_at == Some(now),
        model.input_noted(now).persistent == model.persistent,
{
}

/// The first input is a single one.
pub proof fn law_first_input_is_single(model: ViewerModel, now: u64)
    requires
        model.ui.last_nav_input_at is None,
    ensures
        model.input_noted(now).ui.nav_mode == NavMode::Sequential,
        model.input_noted(now).ui.nav_consecutive_count == 1,
{
}

/// Another quality empties every cache of the viewer and voids what is under way; the same quality
/// changes nothing.
pub proof fn law_another_quality_starts_over(model: ViewerModel, quality: ViewerQuality)
    ensures
        quality == model.request.quality ==> model.with_quality(quality) == model,
        quality != model.request.quality ==> {
            let changed = model.with_quality(quality);
            &&& changed.request.quality == quality
            &&& changed.history.entries.len() == 0
            &&& changed.warmup.entries.len() == 0
            &&& changed.interactive.entries.len() == 0
            &&& changed.request.pending_interactive_group is None
            &&& !changed.awaits(model.request.pending_id) || model.request.pending_id == 0
            &&& changed.persistent == model.persistent
            &&& changed.content_left == model.content_left
            &&& changed.content_right == model.content_right
        },
{
}

/// The pairing that is switched to is in force at once: single pages are not a spread, forced
/// spreads are, and the noted pairing is forgotten. Nothing else of the book's settings changes.
pub proof fn law_switched_pairing_is_in_force(model: ViewerModel)
    ensures
        ({
            let switched = model.spread_toggled();
            &&& model.persistent.spread_setting == SpreadMode::Auto
                ==> switched.persistent.spread_setting == SpreadMode::Single
            &&& model.persistent.spread_setting == SpreadMode::Single
                ==> switched.persistent.spread_setting == SpreadMode::Spread
            &&& model.persistent.spread_setting == SpreadMode::Spread && model.plan is None
                ==> switched.persistent.spread_setting == SpreadMode::Single
            &&& switched.persistent.spread_setting == SpreadMode::Single
                ==> !switched.persistent.spread_mode
            &&& switched.persistent.spread_setting == SpreadMode::Spread
                ==> switched.persistent.spread_mode
            &&& switched.persistent.spread_setting == SpreadMode::Auto ==> model.plan is Some
            &&& !switched.persistent.spread_snapshot.valid
            &&& switched.persistent.displayed_page == model.persistent.displayed_page
            &&& switched.persistent.cover_blank == model.persistent.cover_blank
        }),
{
}

/// Switching the blank page twice leaves it as it was, and every switch forgets the noted pairing.
pub proof fn law_blank_page_switches(
    model: ViewerModel,
    first: Option<Arc<AutoSpreadPlan>>,
    second: Option<Arc<AutoSpreadPlan>>,
)
    ensures
        model.cover_blank_toggled(first).persistent.cover_blank != model.persistent.cover_blank,
        model.cover_blank_toggled(first).cover_blank_toggled(second).persistent.cover_blank
            == model.persistent.cover_blank,
        model.cover_blank_toggled(first).plan == first,
        !model.cover_blank_toggled(first).persistent.spread_snapshot.valid,
{
}

/// A start page counts until the first page was asked for, and not afterwards.
pub proof fn law_start_page_counts_until_the_first_load(model: ViewerModel, page: u32)
    ensures
        model.request.initial_load_pending ==> {
            let moved = model.with_start_page(page);
            &&& moved.persistent.requested_page == page
            &&& moved.persistent.displayed_page == page
            &&& moved.persistent.target_page == page
            &&& moved.request.initial_load_pending
        },
        !model.request.initial_load_pending ==> model.with_start_page(page) == model,
        !model.initial_load_taken().request.initial_load_pending,
        model.initial_load_taken().with_start_page(page) == model.initial_load_taken(),
{
}

} // verus!
