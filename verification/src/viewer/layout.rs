//! Which pages stand together on a screen, and at which sizes they are shown and decoded.
use std::sync::Arc;

use vstd::prelude::*;
use vstd::string::*;

use super::auto_spread_plan::AutoSpreadPlan;
use super::decode_layout::request_display_width_for_pair;
use super::interactive_plan::{
    compute_interactive_request_pages, interactive_pages, InteractiveRequestCacheKey,
    InteractiveRequestPlanCache,
};
use super::state::{
    FullEquivalentSizeHint, NavMode, SpreadSnapshot, SpreadSnapshotKey, ViewerModel,
    ViewerPersistentState, ViewerState,
};
use super::working_set::{
    Direction, DisplayRequirement, RenderSignature, WorkingSetAnchorPage,
};
use crate::domain::{ReadingDirection, SpreadMode};
use crate::num::{greatest, least, max_u32, min_u32, monus};

verus! {

/// The pages of one screen and the sizes that go with them.
#[derive(Clone, Copy, Debug, PartialEq, Eq)]
pub struct ViewerViewLayout {
    pub physical_page: u32,
    pub page_left: Option<u32>,
    pub page_right: Option<u32>,
    pub effective_spread: bool,
    pub page_display_w: u32,
    pub page_display_h: u32,
    pub page_decode_w: u32,
    pub page_decode_h: u32,
    pub image_area_w: u32,
    pub image_area_h: u32,
    pub full_equivalent_area_w: u32,
    pub full_equivalent_area_h: u32,
    pub hint_source: &'static str,
}

/// The area that decodes are made for: the monitor's where its size is known, else the present
/// one.
pub open spec fn full_equivalent_area(
    hint: Option<FullEquivalentSizeHint>,
    display_w: u32,
    display_h: u32,
) -> (u32, u32) {
    match hint {
        Some(hint) => (hint.monitor_width, hint.monitor_height),
        None => (display_w, display_h),
    }
}

/// Where the area comes from.
pub open spec fn area_source(hint: Option<FullEquivalentSizeHint>) -> &'static str {
    match hint {
        Some(_) => "viewer-viewport",
        None => "fallback-current-layout",
    }
}

pub fn resolved_full_equivalent_area_from_hint(
    full_equivalent_size_hint: Option<FullEquivalentSizeHint>,
    display_w: u32,
    display_h: u32,
) -> (area: (u32, u32, &'static str))
    ensures
        (area.0, area.1) == full_equivalent_area(full_equivalent_size_hint, display_w, display_h),
        area.2 == area_source(full_equivalent_size_hint),
{
    match full_equivalent_size_hint {
        Some(hint) => (hint.monitor_width, hint.monitor_height, "viewer-viewport"),
        None => (display_w, display_h, "fallback-current-layout"),
    }
}

/// The width for one page: half the area, rounded up, where two share it.
pub open spec fn page_width(area_w: u32, spread: bool) -> u32 {
    if spread {
        greatest((area_w + 1) / 2, 1) as u32
    } else {
        area_w
    }
}

/// The pages that the plan shows with a page; the page alone where it has no say.
pub open spec fn planned_pages(plan: Option<Arc<AutoSpreadPlan>>, page: u32) -> (
    Option<u32>,
    Option<u32>,
) {
    match plan {
        Some(plan) if page < (*plan).page_count() => {
            let unit = (*plan).unit_of(page as int);
            (Some(unit.first_page), unit.second_page)
        },
        _ => (Some(page), None),
    }
}

impl ViewerModel {
    /// The cover stands alone, opposite a blank page.
    pub open spec fn leading_blank(self, page: u32) -> bool {
        &&& self.persistent.cover_blank
        &&& page == 0
        &&& self.persistent.spread_setting != SpreadMode::Single
        &&& self.persistent.page_count > 0
    }

    /// The pages on screen when navigation stands at `page`; none outside the book.
    pub open spec fn display_pages(self, page: u32) -> (Option<u32>, Option<u32>) {
        if page >= self.persistent.page_count {
            (None, None)
        } else if self.leading_blank(page) {
            (Some(0), None)
        } else {
            match self.persistent.spread_setting {
                SpreadMode::Auto => planned_pages(self.plan, page),
                SpreadMode::Spread => if page + 1 < self.persistent.page_count {
                    (Some(page), Some((page + 1) as u32))
                } else {
                    (Some(page), None)
                },
                SpreadMode::Single => (Some(page), None),
            }
        }
    }

    /// The pages that are asked for at `page`: as on screen, but before the page count is known
    /// the page is taken to be there, and the one behind it too.
    pub open spec fn request_pages(self, page: u32) -> (Option<u32>, Option<u32>) {
        if self.persistent.page_count > 0 {
            self.display_pages(page)
        } else {
            match self.persistent.spread_setting {
                SpreadMode::Auto => planned_pages(self.plan, page),
                SpreadMode::Spread => if self.persistent.cover_blank && page == 0 {
                    (Some(0), None)
                } else if page < u32::MAX {
                    (Some(page), Some((page + 1) as u32))
                } else {
                    (Some(page), None)
                },
                SpreadMode::Single => (Some(page), None),
            }
        }
    }

    pub open spec fn has_pending_target(self) -> bool {
        self.persistent.target_page != self.persistent.displayed_page
    }

    pub open spec fn most_advanced_page(self) -> int {
        greatest(
            greatest(self.persistent.target_page as int, self.persistent.requested_page as int),
            self.persistent.displayed_page as int,
        )
    }

    pub open spec fn snapshot_key(self, page: u32) -> SpreadSnapshotKey {
        SpreadSnapshotKey {
            entry_id: self.persistent.entry_id,
            page_count: self.persistent.page_count,
            spread_setting: self.persistent.spread_setting,
            cover_blank: self.persistent.cover_blank,
            physical_page: page,
        }
    }

    /// Whether the screen at the page that reading has come to ends the book.
    pub open spec fn is_last_page(self, page: u32, page_right: Option<u32>) -> bool {
        &&& self.persistent.page_count > 0
        &&& page == self.most_advanced_page()
        &&& match page_right {
            Some(right) => right + 1 >= self.persistent.page_count,
            None => page + 1 >= self.persistent.page_count,
        }
    }

    /// Whether nothing more is to be learned of the pairing at `page`.
    pub open spec fn pairing_is_settled(self, page: u32, page_right: Option<u32>) -> bool {
        page_right is Some || self.is_last_page(page, page_right) || self.leading_blank(page)
    }

    /// The noted pairing holds for the page that reading moves to.
    pub open spec fn uses_snapshot(self, page: u32) -> bool {
        let snapshot = self.persistent.spread_snapshot;
        &&& self.has_pending_target()
        &&& snapshot.valid
        &&& snapshot.key == self.snapshot_key(self.persistent.target_page)
        &&& page == snapshot.key.physical_page
    }

    /// The pairing at `page`: the noted one while a page is on its way to it, else `spread` and
    /// `page_right` as they are computed.
    pub open spec fn resolved_spread(self, page: u32, spread: bool, page_right: Option<u32>) -> (
        bool,
        Option<u32>,
    ) {
        let snapshot = self.persistent.spread_snapshot;
        if self.uses_snapshot(page) {
            (snapshot.effective_spread, snapshot.page_right)
        } else {
            (spread, page_right)
        }
    }

    /// The pairing that is noted from then on. A note is made for the target page once its
    /// pairing is settled, and made anew when other conditions hold, or, if `allow_update`,
    /// when reading rests there.
    pub open spec fn noted_spread(
        self,
        page: u32,
        spread: bool,
        page_right: Option<u32>,
        allow_update: bool,
    ) -> SpreadSnapshot {
        let snapshot = self.persistent.spread_snapshot;
        let key = self.snapshot_key(self.persistent.target_page);
        let stale = !snapshot.valid || snapshot.key != key;
        let rests = self.persistent.displayed_page == self.persistent.requested_page
            && self.persistent.displayed_page == self.persistent.target_page;
        if !self.uses_snapshot(page) && page == self.persistent.target_page
            && self.pairing_is_settled(page, page_right) && (stale || (allow_update && rests)) {
            SpreadSnapshot { key, effective_spread: spread, page_right, valid: true }
        } else {
            snapshot
        }
    }

    /// Whether the screen at `page` is a spread before any note is looked at.
    pub open spec fn computed_spread(self, page: u32) -> bool {
        self.request_pages(page).1 is Some || self.leading_blank(page)
    }

    /// The layout of the screen at `page` in an area.
    #[verifier::opaque]
    pub open spec fn layout(self, page: u32, area_w: u32, area_h: u32) -> ViewerViewLayout {
        let (left, right) = self.request_pages(page);
        let (spread, page_right) = self.resolved_spread(page, self.computed_spread(page), right);
        let (full_w, full_h) = full_equivalent_area(self.hint, area_w, area_h);
        ViewerViewLayout {
            physical_page: page,
            page_left: left,
            page_right,
            effective_spread: spread,
            page_display_w: page_width(area_w, spread),
            page_display_h: area_h,
            page_decode_w: page_width(full_w, spread),
            page_decode_h: full_h,
            image_area_w: area_w,
            image_area_h: area_h,
            full_equivalent_area_w: full_w,
            full_equivalent_area_h: full_h,
            hint_source: area_source(self.hint),
        }
    }

    /// The state once the layout at `page` has been looked at.
    #[verifier::opaque]
    pub open spec fn laid_out(self, page: u32, allow_update: bool) -> ViewerModel {
        ViewerModel {
            persistent: ViewerPersistentState {
                spread_snapshot: self.noted_spread(
                    page,
                    self.computed_spread(page),
                    self.request_pages(page).1,
                    allow_update,
                ),
                ..self.persistent
            },
            ..self
        }
    }

    pub open spec fn reading_direction(self) -> ReadingDirection {
        match self.persistent.reading_direction_override {
            Some(direction) => direction,
            None => self.persistent.global_reading_direction,
        }
    }

    /// The page that navigation starts from.
    pub open spec fn base_page(self) -> u32 {
        match self.ui.nav_mode {
            NavMode::FollowLatest => self.persistent.target_page,
            NavMode::Sequential => if self.ui.loading {
                self.persistent.requested_page
            } else {
                self.persistent.displayed_page
            },
        }
    }

    /// The page that pages are kept around.
    pub open spec fn anchor(self) -> WorkingSetAnchorPage {
        let base = least(
            self.base_page() as int,
            monus(self.persistent.page_count as nat, 1) as int,
        ) as u32;
        match self.persistent.spread_setting {
            SpreadMode::Single => WorkingSetAnchorPage::Single {
                requested_page: self.persistent.requested_page,
            },
            SpreadMode::Spread => WorkingSetAnchorPage::Spread { navigation_page: base },
            SpreadMode::Auto => WorkingSetAnchorPage::Auto { navigation_page: base },
        }
    }

    pub open spec fn search_direction(self) -> Direction {
        if self.request.prefetch_dir < 0 {
            Direction::Backward
        } else {
            Direction::Forward
        }
    }

    /// The pages that the viewer keeps decoded for itself, which eviction spares.
    #[verifier::opaque]
    pub open spec fn kept_pages(self) -> Seq<u32> {
        interactive_pages(
            self.anchor().page(),
            self.search_direction(),
            self.persistent.page_count,
        )
    }

    pub open spec fn requirement(self, w: u32, h: u32, max_tex_side: u32) -> DisplayRequirement {
        DisplayRequirement {
            quality: self.request.quality,
            required_w: w,
            required_h: h,
            max_tex_side,
        }
    }

    pub open spec fn signature(self, w: u32, h: u32, max_tex_side: u32) -> RenderSignature {
        RenderSignature { quality: self.request.quality, target_w: w, target_h: h, max_tex_side }
    }
}

impl ViewerState {
    pub fn is_leading_cover_blank_spread(&self, physical_page: u32) -> (blank: bool)
        ensures
            blank == self@.leading_blank(physical_page),
    {
        self.persistent.cover_blank && physical_page == 0 && self.persistent.spread_setting
            != SpreadMode::Single && self.persistent.page_count > 0
    }

    pub fn auto_mode_available(&self) -> (available: bool)
        ensures
            available == (self@.plan is Some),
    {
        self.auto_spread_plan.is_some()
    }

    fn planned_pages_for(&self, physical_page: u32) -> (pages: (Option<u32>, Option<u32>))
        requires
            self.wf(),
        ensures
            pages == planned_pages(self@.plan, physical_page),
    {
        reveal(ViewerState::wf);
        match &self.auto_spread_plan {
            Some(plan) => match plan.pages_for_logical_page(physical_page) {
                Some((first, second)) => (Some(first), second),
                None => (Some(physical_page), None),
            },
            None => (Some(physical_page), None),
        }
    }

    pub fn display_pages_for_physical_page(&self, physical_page: u32) -> (pages: (
        Option<u32>,
        Option<u32>,
    ))
        requires
            self.wf(),
        ensures
            pages == self@.display_pages(physical_page),
    {
        reveal(ViewerState::wf);
        if physical_page >= self.persistent.page_count {
            return (None, None);
        }
        if self.is_leading_cover_blank_spread(physical_page) {
            return (Some(0), None);
        }
        match self.persistent.spread_setting {
            SpreadMode::Auto => self.planned_pages_for(physical_page),
            SpreadMode::Spread => if physical_page + 1 < self.persistent.page_count {
                (Some(physical_page), Some(physical_page + 1))
            } else {
                (Some(physical_page), None)
            },
            SpreadMode::Single => (Some(physical_page), None),
        }
    }

    pub fn current_view_pages(&self, physical_page: u32) -> (pages: (Option<u32>, Option<u32>))
        requires
            self.wf(),
        ensures
            pages == self@.display_pages(physical_page),
    {
        reveal(ViewerState::wf);
        self.display_pages_for_physical_page(physical_page)
    }

    pub fn request_view_pages(&self, physical_page: u32) -> (pages: (Option<u32>, Option<u32>))
        requires
            self.wf(),
        ensures
            pages == self@.request_pages(physical_page),
    {
        reveal(ViewerState::wf);
        if self.is_leading_cover_blank_spread(physical_page) {
            return (Some(0), None);
        }
        if self.persistent.page_count == 0 {
            return match self.persistent.spread_setting {
                SpreadMode::Auto => self.planned_pages_for(physical_page),
                SpreadMode::Spread => if self.persistent.cover_blank && physical_page == 0 {
                    (Some(0), None)
                } else if physical_page < u32::MAX {
                    (Some(physical_page), Some(physical_page + 1))
                } else {
                    (Some(physical_page), None)
                },
                SpreadMode::Single => (Some(physical_page), None),
            };
        }
        self.display_pages_for_physical_page(physical_page)
    }

    pub fn current_displayed_page_min_max(&self) -> (bounds: Option<(u32, u32)>)
        requires
            self.wf(),
        ensures
            bounds == match self@.display_pages(self@.persistent.displayed_page) {
                (Some(left), Some(right)) => Some(
                    (
                        least(left as int, right as int) as u32,
                        greatest(left as int, right as int) as u32,
                    ),
                ),
                (Some(page), None) => Some((page, page)),
                (None, Some(page)) => Some((page, page)),
                (None, None) => None,
            },
    {
        reveal(ViewerState::wf);
        match self.current_view_pages(self.persistent.displayed_page) {
            (Some(left), Some(right)) => Some((min_u32(left, right), max_u32(left, right))),
            (Some(page), None) => Some((page, page)),
            (None, Some(page)) => Some((page, page)),
            (None, None) => None,
        }
    }

    pub fn has_pending_target(&self) -> (pending: bool)
        ensures
            pending == self@.has_pending_target(),
    {
        self.persistent.target_page != self.persistent.displayed_page
    }

    pub fn most_advanced_physical_page(&self) -> (page: u32)
        ensures
            page == self@.most_advanced_page(),
    {
        max_u32(
            max_u32(self.persistent.target_page, self.persistent.requested_page),
            self.persistent.displayed_page,
        )
    }

    pub fn make_spread_snapshot_key(&self, physical_page: u32) -> (key: SpreadSnapshotKey)
        ensures
            key == self@.snapshot_key(physical_page),
    {
        SpreadSnapshotKey {
            entry_id: self.persistent.entry_id,
            page_count: self.persistent.page_count,
            spread_setting: self.persistent.spread_setting,
            cover_blank: self.persistent.cover_blank,
            physical_page,
        }
    }

    pub fn is_last_page_for_physical_page(
        &self,
        physical_page: u32,
        current_page_right: Option<u32>,
    ) -> (last: bool)
        ensures
            last == self@.is_last_page(physical_page, current_page_right),
    {
        if self.persistent.page_count == 0 || physical_page != self.most_advanced_physical_page() {
            return false;
        }
        let last: u32 = match current_page_right {
            Some(page) => page,
            None => physical_page,
        };
        last >= self.persistent.page_count - 1
    }

    /// The pairing of a page, held while a page is on its way to it; `allow_snapshot_update`
    /// lets a noted pairing be replaced where reading rests.
    pub fn resolved_spread_for_physical_page(
        &mut self,
        physical_page: u32,
        current_spread: bool,
        current_page_right: Option<u32>,
        allow_snapshot_update: bool,
    ) -> (resolved: (bool, Option<u32>))
        requires
            old(self).wf(),
        ensures
            final(self).wf(),
            resolved == old(self)@.resolved_spread(
                physical_page,
                current_spread,
                current_page_right,
            ),
            final(self)@ == (ViewerModel {
                persistent: ViewerPersistentState {
                    spread_snapshot: old(self)@.noted_spread(
                        physical_page,
                        current_spread,
                        current_page_right,
                        allow_snapshot_update,
                    ),
                    ..old(self)@.persistent
                },
                ..old(self)@
            }),
    {
        reveal(ViewerState::wf);
        let pending_target: bool = self.has_pending_target();
        let target: u32 = self.persistent.target_page;
        let key: SpreadSnapshotKey = self.make_spread_snapshot_key(target);
        let snapshot: SpreadSnapshot = self.persistent.spread_snapshot;
        if pending_target && snapshot.valid && snapshot.key == key && physical_page
            == snapshot.key.physical_page {
            return (snapshot.effective_spread, snapshot.page_right);
        }
        if physical_page != target {
            return (current_spread, current_page_right);
        }
        let settled: bool = current_page_right.is_some() || self.is_last_page_for_physical_page(
            physical_page,
            current_page_right,
        ) || self.is_leading_cover_blank_spread(physical_page);
        let stale: bool = !snapshot.valid || snapshot.key != key;
        let rests: bool = self.persistent.displayed_page == self.persistent.requested_page
            && self.persistent.displayed_page == self.persistent.target_page;
        if settled && (stale || (allow_snapshot_update && !pending_target && rests)) {
            self.persistent.spread_snapshot = SpreadSnapshot {
                key,
                effective_spread: current_spread,
                page_right: current_page_right,
                valid: true,
            };
        }
        (current_spread, current_page_right)
    }

    pub fn resolved_full_equivalent_area(&self, display_w: u32, display_h: u32) -> (area: (
        u32,
        u32,
        &'static str,
    ))
        ensures
            (area.0, area.1) == full_equivalent_area(self@.hint, display_w, display_h),
            area.2 == area_source(self@.hint),
    {
        resolved_full_equivalent_area_from_hint(
            self.full_equivalent_size_hint,
            display_w,
            display_h,
        )
    }

    /// The layout of the screen at a page.
    pub fn view_layout_for_with_caller(
        &mut self,
        physical_page: u32,
        image_area_w: u32,
        image_area_h: u32,
        allow_snapshot_update: bool,
    ) -> (layout: ViewerViewLayout)
        requires
            old(self).wf(),
        ensures
            final(self).wf(),
            layout == old(self)@.layout(physical_page, image_area_w, image_area_h),
            final(self)@ == old(self)@.laid_out(physical_page, allow_snapshot_update),
            final(self)@.request == old(self)@.request,
    {
        reveal(ViewerModel::laid_out);
        reveal(ViewerModel::layout);
        reveal(ViewerState::wf);
        let (page_left, current_page_right): (Option<u32>, Option<u32>) = self.request_view_pages(
            physical_page,
        );
        let current_spread: bool = current_page_right.is_some()
            || self.is_leading_cover_blank_spread(physical_page);
        let (effective_spread, page_right): (bool, Option<u32>) =
            self.resolved_spread_for_physical_page(
            physical_page,
            current_spread,
            current_page_right,
            allow_snapshot_update,
        );
        let (full_equivalent_area_w, full_equivalent_area_h, hint_source): (
            u32,
            u32,
            &'static str,
        ) = self.resolved_full_equivalent_area(image_area_w, image_area_h);
        ViewerViewLayout {
            physical_page,
            page_left,
            page_right,
            effective_spread,
            page_display_w: request_display_width_for_pair(image_area_w, effective_spread),
            page_display_h: image_area_h,
            page_decode_w: request_display_width_for_pair(
                full_equivalent_area_w,
                effective_spread,
            ),
            page_decode_h: full_equivalent_area_h,
            image_area_w,
            image_area_h,
            full_equivalent_area_w,
            full_equivalent_area_h,
            hint_source,
        }
    }

    pub fn invalidate_spread_snapshot(&mut self)
        requires
            old(self).wf(),
        ensures
            final(self).wf(),
            final(self)@ == (ViewerModel {
                persistent: ViewerPersistentState {
                    spread_snapshot: SpreadSnapshot {
                        valid: false,
                        ..old(self)@.persistent.spread_snapshot
                    },
                    ..old(self)@.persistent
                },
                ..old(self)@
            }),
    {
        reveal(ViewerState::wf);
        self.persistent.spread_snapshot.valid = false;
    }

    pub fn effective_reading_direction(&self) -> (direction: ReadingDirection)
        ensures
            direction == self@.reading_direction(),
    {
        match self.persistent.reading_direction_override {
            Some(direction) => direction,
            None => self.persistent.global_reading_direction,
        }
    }

    pub fn nav_target(&self) -> (page: u32)
        ensures
            page == self@.persistent.target_page,
    {
        self.persistent.target_page
    }

    pub fn navigation_base_page(&self) -> (page: u32)
        ensures
            page == self@.base_page(),
    {
        match self.ui_runtime.nav_mode {
            NavMode::FollowLatest => self.persistent.target_page,
            NavMode::Sequential => if self.ui_runtime.loading {
                self.persistent.requested_page
            } else {
                self.persistent.displayed_page
            },
        }
    }

    pub fn interactive_request_anchor_page(&self) -> (anchor: WorkingSetAnchorPage)
        ensures
            anchor == self@.anchor(),
    {
        let last: u32 = self.persistent.page_count.saturating_sub(1);
        let base: u32 = min_u32(self.navigation_base_page(), last);
        match self.persistent.spread_setting {
            SpreadMode::Single => WorkingSetAnchorPage::Single {
                requested_page: self.persistent.requested_page,
            },
            SpreadMode::Spread => WorkingSetAnchorPage::Spread { navigation_page: base },
            SpreadMode::Auto => WorkingSetAnchorPage::Auto { navigation_page: base },
        }
    }

    pub fn interactive_request_direction(&self) -> (direction: Direction)
        ensures
            direction == self@.search_direction(),
    {
        match Direction::from_nav_delta(self.request.prefetch_dir) {
            Some(direction) => direction,
            None => Direction::Forward,
        }
    }

    fn interactive_request_cache_key(&self, display_w: u32, display_h: u32, max_tex_side: u32) -> (key:
        InteractiveRequestCacheKey)
        ensures
            key == (InteractiveRequestCacheKey {
                entry_id: self@.persistent.entry_id,
                page_count: self@.persistent.page_count,
                spread_mode: match self@.persistent.spread_setting {
                    SpreadMode::Auto => 0,
                    SpreadMode::Single => 1,
                    SpreadMode::Spread => 2,
                },
                quality: self@.request.quality,
                display_w,
                display_h,
                max_tex_side,
                working_set_anchor_page: self@.anchor().page(),
                direction: self@.search_direction(),
            }),
    {
        InteractiveRequestCacheKey {
            entry_id: self.persistent.entry_id,
            page_count: self.persistent.page_count,
            spread_mode: match self.persistent.spread_setting {
                SpreadMode::Auto => 0,
                SpreadMode::Single => 1,
                SpreadMode::Spread => 2,
            },
            quality: self.request.quality,
            display_w,
            display_h,
            max_tex_side,
            working_set_anchor_page: self.interactive_request_anchor_page().navigation_page(),
            direction: self.interactive_request_direction(),
        }
    }

    /// The pages that the viewer keeps decoded for itself. The last list is kept for as long as
    /// nothing that it depends on changes.
    pub fn cached_interactive_request_pages(
        &mut self,
        display_w: u32,
        display_h: u32,
        max_tex_side: u32,
    ) -> (pages: Vec<u32>)
        requires
            old(self).wf(),
        ensures
            final(self).wf(),
            pages@ == old(self)@.kept_pages(),
            final(self)@ == old(self)@,
    {
        reveal(ViewerModel::kept_pages);
        reveal(ViewerState::wf);
        let key: InteractiveRequestCacheKey = self.interactive_request_cache_key(
            display_w,
            display_h,
            max_tex_side,
        );
        if let Some(cache) = &self.interactive_request_plan_cache {
            if cache.key == key {
                return cache.pages.clone();
            }
        }
        let pages: Vec<u32> = compute_interactive_request_pages(
            key.working_set_anchor_page,
            key.direction,
            key.page_count,
        );
        self.interactive_request_plan_cache = Some(
            InteractiveRequestPlanCache { key, pages: pages.clone() },
        );
        pages
    }

    pub fn display_requirement_for_request(
        &self,
        required_w: u32,
        required_h: u32,
        max_tex_side: u32,
    ) -> (requirement: DisplayRequirement)
        ensures
            requirement == self@.requirement(required_w, required_h, max_tex_side),
    {
        DisplayRequirement::from_display_request(
            self.request.quality,
            required_w,
            required_h,
            max_tex_side,
        )
    }

    pub fn render_signature_for_decode(&self, decode_w: u32, decode_h: u32, max_tex_side: u32) -> (signature:
        RenderSignature)
        ensures
            signature == self@.signature(decode_w, decode_h, max_tex_side),
    {
        RenderSignature::from_decode_request(
            self.request.quality,
            decode_w,
            decode_h,
            max_tex_side,
        )
    }
}

/// Once the page count is known, what is asked for is what is shown, and that lies in the book
/// wherever the plan is one of this book.
pub proof fn law_pages_on_screen_are_in_the_book(model: ViewerModel, page: u32)
    requires
        page < model.persistent.page_count,
        model.plan matches Some(plan) ==> (*plan).wf() && (*plan).page_count()
            <= model.persistent.page_count,
    ensures
        model.request_pages(page) == model.display_pages(page),
        model.display_pages(page).0 matches Some(left) && left <= page,
        model.display_pages(page).1 matches Some(right) ==> right < model.persistent.page_count
            && right == model.display_pages(page).0->0 + 1 && page <= right,
        model.display_pages(page).1 is None ==> model.display_pages(page).0 == Some(page),
{
    if model.persistent.spread_setting == SpreadMode::Auto && !model.leading_blank(page) {
        assert(model.plan matches Some(plan) ==> (page < (*plan).page_count() ==> {
            let unit = (*plan).unit_of(page as int);
            unit.covers(page as int) && unit.wf() && unit.end() <= (*plan).page_count()
        }));
    }
}

/// Looking at a layout a second time gives the same layout and changes nothing more.
pub proof fn law_layout_is_stable(
    model: ViewerModel,
    page: u32,
    area_w: u32,
    area_h: u32,
    allow_update: bool,
)
    ensures
        model.laid_out(page, allow_update).layout(page, area_w, area_h) == model.layout(
            page,
            area_w,
            area_h,
        ),
        model.laid_out(page, allow_update).laid_out(page, allow_update) == model.laid_out(
            page,
            allow_update,
        ),
{
    reveal(ViewerModel::layout);
    reveal(ViewerModel::laid_out);
}

/// A page that shares the screen gets half of the width, rounded up, and one that stands alone gets
/// all of it; the height is never shared. Pages are decoded for the monitor where its size is known,
/// and for the present area else.
pub proof fn law_pages_share_the_width(model: ViewerModel, page: u32, area_w: u32, area_h: u32)
    requires
        area_w > 0,
    ensures
        ({
            let layout = model.layout(page, area_w, area_h);
            let (full_w, full_h) = match model.hint {
                Some(hint) => (hint.monitor_width, hint.monitor_height),
                None => (area_w, area_h),
            };
            &&& layout.physical_page == page
            &&& !layout.effective_spread ==> layout.page_display_w == area_w
                && layout.page_decode_w == full_w
            &&& layout.effective_spread ==> area_w <= 2 * layout.page_display_w <= area_w + 1
            &&& layout.effective_spread && full_w > 0 ==> full_w <= 2 * layout.page_decode_w
                <= full_w + 1
            &&& layout.page_display_h == area_h && layout.page_decode_h == full_h
            &&& layout.image_area_w == area_w && layout.image_area_h == area_h
            &&& layout.full_equivalent_area_w == full_w && layout.full_equivalent_area_h == full_h
        }),
{
    reveal(ViewerModel::layout);
}

/// At rest the layout of a screen shows the pages that stand together there, and it is a spread
/// where there are two of them or where the cover stands opposite a blank page.
pub proof fn law_layout_shows_the_pages_at_rest(
    model: ViewerModel,
    page: u32,
    area_w: u32,
    area_h: u32,
)
    requires
        model.persistent.target_page == model.persistent.displayed_page,
        model.persistent.page_count > 0,
    ensures
        ({
            let layout = model.layout(page, area_w, area_h);
            &&& (layout.page_left, layout.page_right) == model.display_pages(page)
            &&& layout.effective_spread <==> model.display_pages(page).1 is Some || (
            model.persistent.cover_blank && page == 0 && model.persistent.spread_setting
                != SpreadMode::Single)
        }),
{
    reveal(ViewerModel::layout);
}

/// The pairing that was noted for a page holds while that page is on its way, whatever is computed
/// meanwhile.
pub proof fn law_noted_pairing_holds_on_the_way(
    model: ViewerModel,
    spread: bool,
    page_right: Option<u32>,
    other: bool,
    other_right: Option<u32>,
    displayed: u32,
)
    requires
        !model.persistent.spread_snapshot.valid,
        model.persistent.target_page == model.persistent.requested_page,
        page_right is Some,
        displayed != model.persistent.target_page,
    ensures
        ({
            let page = model.persistent.target_page;
            let noted = ViewerModel {
                persistent: ViewerPersistentState {
                    spread_snapshot: model.noted_spread(page, spread, page_right, false),
                    displayed_page: displayed,
                    ..model.persistent
                },
                ..model
            };
            noted.resolved_spread(page, other, other_right) == (spread, page_right)
        }),
{
}

/// A pairing is noted for the page that input led to and for no other, and none is noted while it
/// may still change.
pub proof fn law_only_settled_pairings_are_noted(
    model: ViewerModel,
    page: u32,
    spread: bool,
    page_right: Option<u32>,
    allow_update: bool,
)
    ensures
        page != model.persistent.target_page ==> model.noted_spread(
            page,
            spread,
            page_right,
            allow_update,
        ) == model.persistent.spread_snapshot,
        page_right is None && page + 1 < model.persistent.page_count && !(
        model.persistent.cover_blank && page == 0) ==> model.noted_spread(
            page,
            spread,
            page_right,
            allow_update,
        ) == model.persistent.spread_snapshot,
        model.persistent.page_count == 0 && page_right is None ==> model.noted_spread(
            page,
            spread,
            page_right,
            allow_update,
        ) == model.persistent.spread_snapshot,
{
}

/// What stands on the screen at a page of the book, setting by setting.
pub proof fn law_settings_decide_what_stands_together(model: ViewerModel, page: u32)
    requires
        page < model.persistent.page_count,
    ensures
        model.persistent.spread_setting == SpreadMode::Single ==> model.display_pages(page) == (
            Some(page),
            None::<u32>,
        ),
        model.persistent.spread_setting == SpreadMode::Spread && !(model.persistent.cover_blank
            && page == 0) && page + 1 < model.persistent.page_count ==> model.display_pages(page)
            == (Some(page), Some((page + 1) as u32)),
        model.persistent.spread_setting != SpreadMode::Auto && page + 1
            == model.persistent.page_count ==> model.display_pages(page) == (
            Some(page),
            None::<u32>,
        ),
        model.persistent.cover_blank && page == 0 ==> model.display_pages(page) == (
            Some(0u32),
            None::<u32>,
        ),
        model.persistent.spread_setting == SpreadMode::Auto && model.plan is None
            ==> model.display_pages(page) == (Some(page), None::<u32>),
{
}

/// With automatic pairing, the two pages of a screen lead to that same screen.
pub proof fn law_planned_screens_are_the_same_from_both_pages(model: ViewerModel, page: u32)
    requires
        page < model.persistent.page_count,
        model.persistent.spread_setting == SpreadMode::Auto,
        !model.persistent.cover_blank,
        model.plan matches Some(plan) ==> (*plan).wf() && (*plan).page_count()
            <= model.persistent.page_count,
    ensures
        model.display_pages(model.display_pages(page).0->0) == model.display_pages(page),
        model.display_pages(page).1 matches Some(right) ==> model.display_pages(right)
            == model.display_pages(page),
        model.display_pages(page).0 == Some(page) || model.display_pages(page).1 == Some(page),
{
    if model.plan is Some {
        let plan = *model.plan->0;
        if page < plan.page_count() {
            let index = plan.page_to_unit@[page as int] as int;
            let unit = plan.units@[index];
            assert(unit.wf() && unit.covers(page as int) && unit.end() <= plan.page_count());
            assert(unit.covers(unit.first_page as int));
            if unit.second_page is Some {
                assert(unit.covers(unit.first_page + 1));
            }
        }
    }
}

/// Nothing stands on a screen outside the book.
pub proof fn law_nothing_stands_outside_the_book(model: ViewerModel, page: u32)
    requires
        page >= model.persistent.page_count,
    ensures
        model.display_pages(page) == (None::<u32>, None::<u32>),
{
}

/// Before the page count is known a page is asked for all the same.
pub proof fn law_pages_are_asked_for_before_the_count_is_known(model: ViewerModel, page: u32)
    requires
        model.persistent.page_count == 0,
        model.persistent.spread_setting != SpreadMode::Auto,
    ensures
        model.request_pages(page).0 == Some(page),
        model.persistent.spread_setting == SpreadMode::Single ==> model.request_pages(page).1
            is None,
        model.persistent.spread_setting == SpreadMode::Spread && page < u32::MAX && !(
        model.persistent.cover_blank && page == 0) ==> model.request_pages(page).1 == Some(
            (page + 1) as u32,
        ),
        model.persistent.cover_blank && page == 0 ==> model.request_pages(page).1 is None,
{
}

/// At rest a screen ends the book where the last page is on it.
pub proof fn law_last_screen_holds_the_last_page(model: ViewerModel, page: u32, right: Option<u32>)
    requires
        page == model.persistent.target_page,
        page == model.persistent.requested_page,
        page == model.persistent.displayed_page,
        page < model.persistent.page_count,
        right matches Some(right) ==> right == page + 1 && right < model.persistent.page_count,
    ensures
        model.is_last_page(page, right) <==> page + 1 == model.persistent.page_count || right
            == Some((model.persistent.page_count - 1) as u32),
{
}

/// A screen before the page that reading has come to does not end the book.
pub proof fn law_earlier_screens_do_not_end_the_book(
    model: ViewerModel,
    page: u32,
    right: Option<u32>,
)
    requires
        page < model.persistent.target_page || page < model.persistent.requested_page || page
            < model.persistent.displayed_page,
    ensures
        !model.is_last_page(page, right),
{
}

/// A direction set for the book goes before the general one.
pub proof fn law_direction_of_the_book_goes_first(model: ViewerModel)
    ensures
        model.persistent.reading_direction_override matches Some(direction)
            ==> model.reading_direction() == direction,
        model.persistent.reading_direction_override is None ==> model.reading_direction()
            == model.persistent.global_reading_direction,
{
}

/// The pages that are kept decoded surround the page that was asked for where pages stand alone,
/// and the page that reading stands at else. Five pages lie in the direction of reading and three
/// against it.
pub proof fn law_kept_pages_surround_the_reader(model: ViewerModel, page: u32)
    requires
        page < model.persistent.page_count,
    ensures
        ({
            let here = if model.persistent.spread_setting == SpreadMode::Single {
                model.persistent.requested_page
            } else {
                model.base_page()
            };
            here < model.persistent.page_count ==> (model.kept_pages().contains(page) <==> if
                model.request.prefetch_dir < 0 {
                here - 5 <= page <= here + 3
            } else {
                here - 3 <= page <= here + 5
            })
        }),
{
    reveal(ViewerModel::kept_pages);
    if model.anchor().page() < model.persistent.page_count {
        super::interactive_plan::law_kept_pages_are_near(
            model.anchor().page(),
            model.search_direction(),
            model.persistent.page_count,
            page,
        );
    }
}

/// A noted pairing is for one page of one book under one setting: with any of them changed, or with
/// nothing on its way, it is not used.
pub proof fn law_noted_pairings_are_for_their_page(model: ViewerModel, page: u32)
    ensures
        ({
            let snapshot = model.persistent.spread_snapshot;
            &&& model.persistent.target_page == model.persistent.displayed_page
                ==> !model.uses_snapshot(page)
            &&& !snapshot.valid ==> !model.uses_snapshot(page)
            &&& page != model.persistent.target_page ==> !model.uses_snapshot(page)
            &&& snapshot.key.page_count != model.persistent.page_count ==> !model.uses_snapshot(
                page,
            )
            &&& snapshot.key.entry_id != model.persistent.entry_id ==> !model.uses_snapshot(page)
            &&& snapshot.key.spread_setting != model.persistent.spread_setting
                ==> !model.uses_snapshot(page)
            &&& snapshot.key.cover_blank != model.persistent.cover_blank ==> !model.uses_snapshot(
                page,
            )
        }),
{
}

/// At rest a pairing that was noted is replaced only where that is allowed.
pub proof fn law_noted_pairings_are_replaced_at_rest(
    model: ViewerModel,
    page: u32,
    spread: bool,
    right: u32,
)
    requires
        model.persistent.spread_snapshot.valid,
        model.persistent.spread_snapshot.key == model.snapshot_key(page),
        page == model.persistent.target_page,
        page == model.persistent.displayed_page,
        page == model.persistent.requested_page,
    ensures
        model.noted_spread(page, spread, Some(right), false) == model.persistent.spread_snapshot,
        model.noted_spread(page, spread, Some(right), true).page_right == Some(right),
        model.noted_spread(page, spread, Some(right), true).effective_spread == spread,
        model.noted_spread(page, spread, Some(right), true).valid,
{
}

} // verus!
