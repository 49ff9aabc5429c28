//! Pages of the neighbouring books, decoded ahead of a move to them.
use std::collections::HashSet;

use vstd::prelude::*;
use vstd::string::*;

use super::auto_spread_plan::{build_auto_spread_plan, lemma_unit_covering, starts_have_width, unit_covering, units_from,
};
use super::decode_layout::{
    request_display_width_for_pair, rgba_bytes, static_rgba_bytes_for_decode,
};
use super::gpu_texture_history::counted;
use super::rgba_page_cache::FrameSet;
use super::working_set::RenderSignature;
use crate::domain::{BookPageMap, SpreadMode, ViewerQuality};
use crate::num::{capped, greatest, least, max_usize, min_usize, monus, saturating_mul_usize};
use crate::util::path_eq::{paths_equivalent_for_selection, selection_form};

verus! {

broadcast use vstd::std_specs::hash::group_hash_axioms;

#[derive(Clone, Copy, Debug, PartialEq, Eq, Structural)]
pub enum SpadSide {
    Prev,
    Next,
}

#[derive(Clone, Copy, Debug, PartialEq, Eq, Structural)]
pub struct SpadReadyPage {
    pub page: u32,
    pub frames: FrameSet,
    pub render_signature: RenderSignature,
}

#[derive(Clone, Copy, Debug, PartialEq, Eq, Structural)]
pub struct SpadTargetLayoutSettings {
    pub spread_setting: SpreadMode,
    pub cover_blank: bool,
}

/// Where the decode size of a neighbouring book comes from.
#[derive(Clone, Copy, Debug, PartialEq, Eq, Structural)]
pub enum SpadDecodeLayoutSource {
    CurrentLayout,
    TargetPageMap,
}

#[derive(Clone, Copy, Debug, PartialEq, Eq, Structural)]
pub struct SpadTargetLayoutHint {
    pub source: SpadDecodeLayoutSource,
    pub page_count: u32,
    pub resolved_entry_page: u32,
    pub effective_spread: bool,
}

#[derive(Clone, Copy, Debug, PartialEq, Eq, Structural)]
pub struct SpadResolvedDecodeTarget {
    pub source: SpadDecodeLayoutSource,
    pub effective_spread: bool,
    pub decode_w: u32,
    pub decode_h: u32,
    pub two_page_rgba_bytes: usize,
}

/// The sizes that decode targets are derived from: the area that a full screen would give, and
/// the decode size and pairing of the current view.
#[derive(Clone, Copy, Debug, PartialEq, Eq, Structural)]
pub struct SpadArea {
    pub full_equivalent_w: u32,
    pub full_equivalent_h: u32,
    pub current_decode_w: u32,
    pub current_decode_h: u32,
    pub current_effective_spread: bool,
}

#[derive(Clone, Copy, Debug, PartialEq, Eq, Structural)]
pub struct SpadBudgetPlan {
    pub prev_guaranteed_bytes: usize,
    pub next_guaranteed_bytes: usize,
    pub prev_extra_budget_bytes: usize,
    pub next_extra_budget_bytes: usize,
    pub prev_total_budget_bytes: usize,
    pub next_total_budget_bytes: usize,
    pub l2_effective_bytes: usize,
}

/// A neighbouring book as the caller found it: the page to open it at, its page count where it
/// is known, and its page map where one was stored.
pub struct AdjacentBook {
    pub path: String,
    pub start_page: Option<usize>,
    pub page_count: Option<u32>,
    pub page_map: Option<BookPageMap>,
}

pub struct SpadTargetState {
    pub path: String,
    pub page_count: Option<u32>,
    pub entry_page: u32,
    pub layout_hint: Option<SpadTargetLayoutHint>,
    /// Pages in the order in which they are decoded.
    pub scheduled_pages: Vec<u32>,
    pub next_dispatch_index: usize,
    /// In ascending order of the page.
    pub ready_pages: Vec<SpadReadyPage>,
    pub failed_pages: HashSet<u32>,
    pub current_bytes: usize,
    pub max_bytes: usize,
    pub guaranteed_bytes: usize,
    pub extra_budget_bytes: usize,
    pub exhausted: bool,
}

/// A neighbouring book's decoded pages and what is left to do, as values.
pub struct SpadTarget {
    pub path: Seq<char>,
    pub page_count: Option<u32>,
    pub entry_page: u32,
    pub layout_hint: Option<SpadTargetLayoutHint>,
    pub scheduled: Seq<u32>,
    pub next: nat,
    pub ready: Seq<SpadReadyPage>,
    pub failed: Set<u32>,
    pub bytes: nat,
    pub max: nat,
    pub guaranteed: nat,
    pub extra: nat,
    pub exhausted: bool,
}

impl View for SpadTargetState {
    type V = SpadTarget;

    open spec fn view(&self) -> SpadTarget {
        SpadTarget {
            path: self.path@,
            page_count: self.page_count,
            entry_page: self.entry_page,
            layout_hint: self.layout_hint,
            scheduled: self.scheduled_pages@,
            next: self.next_dispatch_index as nat,
            ready: self.ready_pages@,
            failed: self.failed_pages@,
            bytes: self.current_bytes as nat,
            max: self.max_bytes as nat,
            guaranteed: self.guaranteed_bytes as nat,
            extra: self.extra_budget_bytes as nat,
            exhausted: self.exhausted,
        }
    }
}

pub struct SpadInflightRequest {
    pub request_id: u64,
    pub session: u64,
    pub generation: u64,
    pub side: SpadSide,
    pub path: String,
    pub page: u32,
    pub render_signature: RenderSignature,
}

/// A request under way, as values.
pub struct SpadInflight {
    pub request_id: u64,
    pub session: u64,
    pub generation: u64,
    pub side: SpadSide,
    pub path: Seq<char>,
    pub page: u32,
    pub render_signature: RenderSignature,
}

impl View for SpadInflightRequest {
    type V = SpadInflight;

    open spec fn view(&self) -> SpadInflight {
        SpadInflight {
            request_id: self.request_id,
            session: self.session,
            generation: self.generation,
            side: self.side,
            path: self.path@,
            page: self.page,
            render_signature: self.render_signature,
        }
    }
}

pub struct ViewerSpadState {
    pub session: u64,
    pub generation: u64,
    pub next_inflight: Option<SpadInflightRequest>,
    pub prev_inflight: Option<SpadInflightRequest>,
    pub prev: Option<SpadTargetState>,
    pub next: Option<SpadTargetState>,
}

/// The work on both neighbours, as values.
pub struct SpadState {
    pub session: u64,
    pub generation: u64,
    pub next_inflight: Option<SpadInflight>,
    pub prev_inflight: Option<SpadInflight>,
    pub prev: Option<SpadTarget>,
    pub next: Option<SpadTarget>,
}

pub open spec fn target_view(target: Option<SpadTargetState>) -> Option<SpadTarget> {
    match target {
        Some(target) => Some(target@),
        None => None,
    }
}

pub open spec fn inflight_view(inflight: Option<SpadInflightRequest>) -> Option<SpadInflight> {
    match inflight {
        Some(inflight) => Some(inflight@),
        None => None,
    }
}

impl View for ViewerSpadState {
    type V = SpadState;

    open spec fn view(&self) -> SpadState {
        SpadState {
            session: self.session,
            generation: self.generation,
            next_inflight: inflight_view(self.next_inflight),
            prev_inflight: inflight_view(self.prev_inflight),
            prev: target_view(self.prev),
            next: target_view(self.next),
        }
    }
}

/// A page that is handed over when the viewer moves to the neighbouring book.
pub struct SpadPromotionPage {
    pub page: u32,
    pub frames: FrameSet,
    pub render_signature: RenderSignature,
    pub target_path: String,
    pub session: u64,
    pub generation: u64,
    pub target_page_count: Option<u32>,
}

/// What a decode for a neighbouring book came back with.
#[derive(Clone, Copy, Debug, PartialEq, Eq, Structural)]
pub struct SpadResult {
    pub request_id: u64,
    pub page_count: u32,
    pub frames: Option<FrameSet>,
    pub is_animation_stream: bool,
}

/// Pages that are ready stand in ascending order.
pub open spec fn ascending(ready: Seq<SpadReadyPage>) -> bool {
    forall|i: int, j: int|
        0 <= i < j < ready.len() ==> (#[trigger] ready[i]).page < (#[trigger] ready[j]).page
}

pub open spec fn is_ready(ready: Seq<SpadReadyPage>, page: u32) -> bool {
    exists|i: int| 0 <= i < ready.len() && (#[trigger] ready[i]).page == page
}

pub open spec fn ready_bytes(ready: Seq<SpadReadyPage>) -> nat
    decreases ready.len(),
{
    if ready.len() == 0 {
        0
    } else {
        ready_bytes(ready.drop_last()) + ready.last().frames.first_frame_bytes as nat
    }
}

/// Where a page goes among the ready ones.
pub open spec fn ready_position(ready: Seq<SpadReadyPage>, page: u32) -> int
    decreases ready.len(),
{
    if ready.len() == 0 || ready.last().page < page {
        ready.len() as int
    } else {
        ready_position(ready.drop_last(), page)
    }
}

/// The pages of a neighbouring book in the order in which they are decoded: from the entry page
/// to the end, and the page before it where that would be a single page. Where the page count
/// is not known, the entry page and the one behind it.
pub open spec fn schedule(page_count: Option<u32>, entry_page: u32) -> Seq<u32> {
    match page_count {
        Some(count) if count > 0 => {
            let entry = entry_in(count, entry_page);
            let ahead = Seq::new((count - entry) as nat, |i: int| (entry + i) as u32);
            if ahead.len() < 2 && entry > 0 {
                ahead.push((entry - 1) as u32)
            } else {
                ahead
            }
        },
        _ => seq![entry_page, least(entry_page + 1, u32::MAX as int) as u32],
    }
}

/// The entry page, or the first page where it lies outside.
pub open spec fn entry_in(count: u32, entry_page: u32) -> u32 {
    if entry_page < count {
        entry_page
    } else {
        0
    }
}

impl SpadTarget {
    pub open spec fn wf(self) -> bool {
        &&& ascending(self.ready)
        &&& forall|p: u32| #[trigger] is_ready(self.ready, p) ==> !self.failed.contains(p)
        &&& self.bytes == capped(ready_bytes(self.ready))
        &&& forall|i: int|
            0 <= i < self.ready.len() ==> (#[trigger] self.ready[i]).frames.frame_count == 1
    }

    /// Neither decoded nor given up.
    pub open spec fn is_open(self, page: u32) -> bool {
        !is_ready(self.ready, page) && !self.failed.contains(page)
    }

    pub open spec fn scheduled_now(self) -> SpadTarget {
        if self.scheduled.len() > 0 {
            self
        } else {
            SpadTarget {
                scheduled: schedule(self.page_count, self.entry_page),
                entry_page: match self.page_count {
                    Some(count) if count > 0 => entry_in(count, self.entry_page),
                    _ => self.entry_page,
                },
                ..self
            }
        }
    }

    /// The target with a page given up; the dispatch moves on where it stood at that page.
    pub open spec fn with_failed(self, page: u32) -> SpadTarget {
        SpadTarget {
            failed: self.failed.insert(page),
            next: if self.next < self.scheduled.len() && self.scheduled[self.next as int] == page {
                capped(self.next + 1)
            } else {
                self.next
            },
            ..self
        }
    }

    /// The first place from `i` on at which an open page is scheduled.
    pub open spec fn first_open(self, i: nat) -> nat
        decreases self.scheduled.len() - i,
    {
        if i >= self.scheduled.len() || self.is_open(self.scheduled[i as int]) {
            i
        } else {
            self.first_open(i + 1)
        }
    }

    /// Whether a page is left to decode.
    pub open spec fn has_open_page(self) -> bool {
        self.scheduled.len() == 0 || exists|i: int|
            self.next <= i < self.scheduled.len() && self.is_open(#[trigger] self.scheduled[i])
    }

    pub open spec fn dispatchable(self) -> bool {
        !self.exhausted && self.bytes < self.max && self.has_open_page()
    }

    /// The target once its budget has been looked at: full is exhausted.
    pub open spec fn checked(self) -> SpadTarget {
        SpadTarget { exhausted: self.exhausted || self.bytes >= self.max, ..self }
    }

    /// The page to decode next, if the budget and the schedule leave one.
    pub open spec fn next_page(self) -> Option<u32> {
        let ready = self.scheduled_now();
        let at = ready.first_open(ready.next);
        if self.exhausted || self.bytes >= self.max || at >= ready.scheduled.len() {
            None
        } else {
            Some(ready.scheduled[at as int])
        }
    }

    /// The target once the next page has been looked for.
    pub open spec fn sought(self) -> SpadTarget {
        if self.exhausted {
            self
        } else if self.bytes >= self.max {
            SpadTarget { exhausted: true, ..self }
        } else {
            let ready = self.scheduled_now();
            SpadTarget { next: ready.first_open(ready.next), ..ready }
        }
    }

    /// The target with the page count that a decode told.
    pub open spec fn with_page_count(self, count: u32) -> SpadTarget {
        if count > 0 && self.page_count != Some(count) {
            SpadTarget { page_count: Some(count), scheduled: Seq::empty(), next: 0, ..self }.scheduled_now()
        } else {
            self
        }
    }

    /// The target with a decode that came back for `page`.
    pub open spec fn with_result(
        self,
        page: u32,
        render_signature: RenderSignature,
        result: SpadResult,
    ) -> SpadTarget {
        let target = self.with_page_count(result.page_count);
        if target.page_count matches Some(count) && page >= count {
            target.with_failed(page)
        } else if !target.is_open(page) {
            target
        } else {
            match result.frames {
                Some(frames) if !result.is_animation_stream && frames.frame_count == 1 => {
                    if capped(target.bytes + frames.first_frame_bytes as nat) > target.max {
                        SpadTarget { exhausted: true, ..target.with_failed(page) }
                    } else {
                        SpadTarget {
                            bytes: capped(target.bytes + frames.first_frame_bytes as nat),
                            ready: target.ready.insert(
                                ready_position(target.ready, page),
                                SpadReadyPage { page, frames, render_signature },
                            ),
                            next: capped(target.next + 1),
                            ..target
                        }
                    }
                },
                _ => target.with_failed(page),
            }
        }
    }
}

/// The layout of a neighbouring book at its entry page, where its page map tells it.
pub open spec fn layout_hint_for(
    page_map: Option<BookPageMap>,
    entry_page: u32,
    settings: Option<SpadTargetLayoutSettings>,
) -> Option<SpadTargetLayoutHint> {
    match (page_map, settings) {
        (Some(page_map), Some(settings)) => {
            let pages = page_map.pages@;
            if pages.len() > u32::MAX || entry_page >= pages.len() {
                None
            } else {
                let unit = unit_covering(
                    units_from(pages, settings.cover_blank, 0),
                    entry_page as int,
                );
                let hint = SpadTargetLayoutHint {
                    source: SpadDecodeLayoutSource::TargetPageMap,
                    page_count: pages.len() as u32,
                    resolved_entry_page: entry_page,
                    effective_spread: false,
                };
                match settings.spread_setting {
                    SpreadMode::Single => Some(hint),
                    SpreadMode::Spread => Some(
                        SpadTargetLayoutHint {
                            effective_spread: !(settings.cover_blank && entry_page == 0)
                                && entry_page + 1 < pages.len(),
                            ..hint
                        },
                    ),
                    SpreadMode::Auto => if starts_have_width(pages, settings.cover_blank, 0) {
                        Some(
                            SpadTargetLayoutHint {
                                resolved_entry_page: unit.first_page,
                                effective_spread: unit.second_page is Some,
                                ..hint
                            },
                        )
                    } else {
                        None
                    },
                }
            }
        },
        _ => None,
    }
}

fn resolve_layout_hint(
    page_map: &Option<BookPageMap>,
    entry_page: u32,
    settings: Option<SpadTargetLayoutSettings>,
) -> (hint: Option<SpadTargetLayoutHint>)
    ensures
        hint == layout_hint_for(*page_map, entry_page, settings),
{
    let settings: SpadTargetLayoutSettings = match settings {
        Some(settings) => settings,
        None => {
            return None;
        },
    };
    let page_map: &BookPageMap = match page_map {
        Some(page_map) => page_map,
        None => {
            return None;
        },
    };
    let count: usize = page_map.page_count();
    if count as u64 > 0xFFFF_FFFF {
        return None;
    }
    let page_count: u32 = count as u32;
    if entry_page >= page_count {
        return None;
    }
    let mut entry: u32 = entry_page;
    let effective_spread: bool = match settings.spread_setting {
        SpreadMode::Single => false,
        SpreadMode::Spread => !(settings.cover_blank && entry_page == 0)
            && entry_page.saturating_add(1) < page_count,
        SpreadMode::Auto => match build_auto_spread_plan(page_map, settings.cover_blank) {
            Some(plan) => {
                proof {
                    lemma_unit_covering(plan, entry_page as int);
                }
                match plan.pages_for_logical_page(entry_page) {
                    Some((anchor_page, page_right)) => {
                        entry = anchor_page;
                        page_right.is_some()
                    },
                    None => {
                        return None;
                    },
                }
            },
            None => {
                return None;
            },
        },
    };
    Some(
        SpadTargetLayoutHint {
            source: SpadDecodeLayoutSource::TargetPageMap,
            page_count,
            resolved_entry_page: entry,
            effective_spread,
        },
    )
}

/// The page that a start page stands for, as far as 32 bits go.
pub open spec fn start_page_of(start_page: Option<usize>) -> u32 {
    match start_page {
        Some(page) => page as u32,
        None => 0,
    }
}

/// A neighbouring book before any of its pages is decoded.
pub open spec fn target_for(
    book: AdjacentBook,
    settings: Option<SpadTargetLayoutSettings>,
) -> SpadTarget {
    let hint = layout_hint_for(book.page_map, start_page_of(book.start_page), settings);
    SpadTarget {
        path: book.path@,
        page_count: match (book.page_count, hint) {
            (Some(count), _) => Some(count),
            (None, Some(hint)) => Some(hint.page_count),
            (None, None) => None,
        },
        entry_page: match hint {
            Some(hint) => hint.resolved_entry_page,
            None => start_page_of(book.start_page),
        },
        layout_hint: hint,
        scheduled: Seq::empty(),
        next: 0,
        ready: Seq::empty(),
        failed: Set::empty(),
        bytes: 0,
        max: 0,
        guaranteed: 0,
        extra: 0,
        exhausted: false,
    }
}

#[verifier::truncate]
fn page_number(page: usize) -> (number: u32)
    ensures
        number == page as u32,
{
    page as u32
}

/// Prepares a neighbouring book. In automatic pairing the entry page is the first one of its
/// screen.
pub fn build_spad_target(book: AdjacentBook, settings: Option<SpadTargetLayoutSettings>) -> (target:
    SpadTargetState)
    ensures
        target@ == target_for(book, settings),
        target@.wf(),
{
    let start_page: u32 = match book.start_page {
        Some(page) => page_number(page),
        None => 0,
    };
    let hint: Option<SpadTargetLayoutHint> = resolve_layout_hint(
        &book.page_map,
        start_page,
        settings,
    );
    let page_count: Option<u32> = match book.page_count {
        Some(count) => Some(count),
        None => match hint {
            Some(hint) => Some(hint.page_count),
            None => None,
        },
    };
    let entry_page: u32 = match hint {
        Some(hint) => hint.resolved_entry_page,
        None => start_page,
    };
    let target = SpadTargetState {
        path: book.path,
        page_count,
        entry_page,
        layout_hint: hint,
        scheduled_pages: Vec::new(),
        next_dispatch_index: 0,
        ready_pages: Vec::new(),
        failed_pages: HashSet::new(),
        current_bytes: 0,
        max_bytes: 0,
        guaranteed_bytes: 0,
        extra_budget_bytes: 0,
        exhausted: false,
    };
    target
}

/// The decode size for a neighbouring book: by its own layout where that is known, else as the
/// current view.
pub open spec fn decode_target(
    hint: Option<SpadTargetLayoutHint>,
    area: SpadArea,
) -> SpadResolvedDecodeTarget {
    let spread = match hint {
        Some(hint) => hint.effective_spread,
        None => area.current_effective_spread,
    };
    let decode_w = match hint {
        Some(hint) => if hint.effective_spread {
            greatest((area.full_equivalent_w + 1) / 2, 1) as u32
        } else {
            area.full_equivalent_w
        },
        None => area.current_decode_w,
    };
    let decode_h = match hint {
        Some(_) => area.full_equivalent_h,
        None => area.current_decode_h,
    };
    SpadResolvedDecodeTarget {
        source: match hint {
            Some(hint) => hint.source,
            None => SpadDecodeLayoutSource::CurrentLayout,
        },
        effective_spread: spread,
        decode_w,
        decode_h,
        two_page_rgba_bytes: rgba_bytes(decode_w as nat, decode_h as nat, 2) as usize,
    }
}

pub fn resolve_spad_decode_target(hint: Option<SpadTargetLayoutHint>, area: SpadArea) -> (target:
    SpadResolvedDecodeTarget)
    ensures
        target == decode_target(hint, area),
        target.two_page_rgba_bytes == rgba_bytes(
            target.decode_w as nat,
            target.decode_h as nat,
            2,
        ),
{
    match hint {
        Some(hint) => {
            let decode_w: u32 = request_display_width_for_pair(
                area.full_equivalent_w,
                hint.effective_spread,
            );
            SpadResolvedDecodeTarget {
                source: hint.source,
                effective_spread: hint.effective_spread,
                decode_w,
                decode_h: area.full_equivalent_h,
                two_page_rgba_bytes: static_rgba_bytes_for_decode(
                    decode_w,
                    area.full_equivalent_h,
                    2,
                ),
            }
        },
        None => SpadResolvedDecodeTarget {
            source: SpadDecodeLayoutSource::CurrentLayout,
            effective_spread: area.current_effective_spread,
            decode_w: area.current_decode_w,
            decode_h: area.current_decode_h,
            two_page_rgba_bytes: static_rgba_bytes_for_decode(
                area.current_decode_w,
                area.current_decode_h,
                2,
            ),
        },
    }
}

/// The bytes that one side may use: two pages for certain, and a twentieth of the whole budget
/// on top. A side without a book has none.
pub open spec fn side_budget(
    target: Option<Option<SpadTargetLayoutHint>>,
    area: SpadArea,
    total: nat,
) -> (nat, nat) {
    match target {
        Some(hint) => (decode_target(hint, area).two_page_rgba_bytes as nat, total / 20),
        None => (0, 0),
    }
}

/// The budget of both sides. What they do not use is left for the pages of the current book, a
/// mebibyte at least.
pub open spec fn budget_plan(
    prev: Option<Option<SpadTargetLayoutHint>>,
    next: Option<Option<SpadTargetLayoutHint>>,
    area: SpadArea,
    total: nat,
) -> SpadBudgetPlan {
    let (prev_guaranteed, prev_extra) = side_budget(prev, area, total);
    let (next_guaranteed, next_extra) = side_budget(next, area, total);
    let prev_total = capped(prev_guaranteed + prev_extra);
    let next_total = capped(next_guaranteed + next_extra);
    let reserved = capped(prev_total + next_total);
    SpadBudgetPlan {
        prev_guaranteed_bytes: prev_guaranteed as usize,
        next_guaranteed_bytes: next_guaranteed as usize,
        prev_extra_budget_bytes: prev_extra as usize,
        next_extra_budget_bytes: next_extra as usize,
        prev_total_budget_bytes: prev_total as usize,
        next_total_budget_bytes: next_total as usize,
        l2_effective_bytes: greatest(monus(total, reserved) as int, 0x10_0000) as usize,
    }
}

fn side_budget_bytes(
    target: Option<Option<SpadTargetLayoutHint>>,
    area: SpadArea,
    total: usize,
) -> (budget: (usize, usize))
    ensures
        budget.0 == side_budget(target, area, total as nat).0,
        budget.1 == side_budget(target, area, total as nat).1,
{
    match target {
        Some(hint) => (resolve_spad_decode_target(hint, area).two_page_rgba_bytes, total / 20),
        None => (0, 0),
    }
}

/// The bytes of a budget given in mebibytes.
pub open spec fn budget_bytes(mib: u16) -> nat {
    capped(capped(mib as nat * 1024) * 1024)
}

pub fn total_l2_rgba_budget_bytes(rgba_cache_max_mb: u16) -> (bytes: usize)
    ensures
        bytes == budget_bytes(rgba_cache_max_mb),
{
    saturating_mul_usize(saturating_mul_usize(rgba_cache_max_mb as usize, 1024), 1024)
}

/// The pairing of the current view, told by its decode width.
pub open spec fn spad_area(full_w: u32, full_h: u32, decode_w: u32, decode_h: u32) -> SpadArea {
    SpadArea {
        full_equivalent_w: full_w,
        full_equivalent_h: full_h,
        current_decode_w: decode_w,
        current_decode_h: decode_h,
        current_effective_spread: decode_w != full_w,
    }
}

/// The budget in mebibytes that is left for the current book, rounded up and cut to 16 bits.
pub open spec fn l2_mebibytes(plan: SpadBudgetPlan) -> u16 {
    (capped(plan.l2_effective_bytes as nat + 0xF_FFFF) / 0x10_0000) as u16
}

#[verifier::truncate]
fn mebibytes_rounded_up(bytes: usize) -> (mib: u16)
    ensures
        mib == (capped(bytes as nat + 0xF_FFFF) / 0x10_0000) as u16,
{
    let whole: usize = bytes.saturating_add(0xF_FFFF) / 0x10_0000;
    whole as u16
}

pub open spec fn hint_of(target: Option<SpadTarget>) -> Option<Option<SpadTargetLayoutHint>> {
    match target {
        Some(target) => Some(target.layout_hint),
        None => None,
    }
}

fn target_hint(target: &Option<SpadTargetState>) -> (hint: Option<Option<SpadTargetLayoutHint>>)
    ensures
        hint == hint_of(target_view(*target)),
{
    match target {
        Some(target) => Some(target.layout_hint),
        None => None,
    }
}

impl SpadState {
    /// New neighbours, with nothing under way and the answers to older requests void.
    pub open spec fn retargeted(self, prev: Option<SpadTarget>, next: Option<SpadTarget>) ->
        SpadState {
        SpadState {
            session: self.session,
            generation: counted(self.generation, 1),
            next_inflight: None,
            prev_inflight: None,
            prev,
            next,
        }
    }

    /// The request for the next page of one side, if one is due.
    pub open spec fn request_for(
        self,
        side: SpadSide,
        quality: ViewerQuality,
        area: SpadArea,
        max_tex_side: u32,
        request_id: u64,
    ) -> Option<SpadInflight> {
        match (self.inflight(side), self.target(side)) {
            (None, Some(target)) => match target.next_page() {
                Some(page) => Some(
                    SpadInflight {
                        request_id,
                        session: self.session,
                        generation: self.generation,
                        side,
                        path: target.path,
                        page,
                        render_signature: RenderSignature {
                            quality,
                            target_w: decode_target(target.layout_hint, area).decode_w,
                            target_h: decode_target(target.layout_hint, area).decode_h,
                            max_tex_side,
                        },
                    },
                ),
                None => None,
            },
            _ => None,
        }
    }

    /// Both sides once one side's next page has been asked for, if one is due.
    pub open spec fn dispatched(
        self,
        side: SpadSide,
        quality: ViewerQuality,
        area: SpadArea,
        max_tex_side: u32,
        request_id: u64,
    ) -> SpadState {
        match (self.inflight(side), self.target(side)) {
            (None, Some(target)) => self.with_target(side, Some(target.sought())).with_inflight(
                side,
                self.request_for(side, quality, area, max_tex_side, request_id),
            ),
            _ => self,
        }
    }

    /// Both sides once an answer has come in for one. An answer to anything but the request
    /// under way changes nothing.
    pub open spec fn answered(self, side: SpadSide, result: SpadResult) -> SpadState {
        match (self.inflight(side), self.target(side)) {
            (Some(inflight), Some(target)) if inflight.request_id == result.request_id => {
                self.with_inflight(side, None).with_target(
                    side,
                    Some(target.with_result(inflight.page, inflight.render_signature, result)),
                )
            },
            _ => self,
        }
    }

    /// Both targets with their order of decoding set up and their budgets looked at.
    pub open spec fn prepared(self) -> SpadState {
        SpadState {
            prev: match self.prev {
                Some(target) => Some(target.scheduled_now().checked()),
                None => None,
            },
            next: match self.next {
                Some(target) => Some(target.scheduled_now().checked()),
                None => None,
            },
            ..self
        }
    }

    pub open spec fn any_dispatchable(self) -> bool {
        ||| self.next matches Some(target) && target.dispatchable()
        ||| self.prev matches Some(target) && target.dispatchable()
    }

    pub open spec fn budget(self, area: SpadArea, mib: u16) -> SpadBudgetPlan {
        budget_plan(hint_of(self.prev), hint_of(self.next), area, budget_bytes(mib))
    }

    /// The targets with their budgets set.
    pub open spec fn budgeted(self, area: SpadArea, mib: u16) -> SpadState {
        let plan = self.budget(area, mib);
        SpadState {
            prev: match self.prev {
                Some(target) => Some(
                    SpadTarget {
                        guaranteed: plan.prev_guaranteed_bytes as nat,
                        extra: plan.prev_extra_budget_bytes as nat,
                        max: plan.prev_total_budget_bytes as nat,
                        ..target
                    },
                ),
                None => None,
            },
            next: match self.next {
                Some(target) => Some(
                    SpadTarget {
                        guaranteed: plan.next_guaranteed_bytes as nat,
                        extra: plan.next_extra_budget_bytes as nat,
                        max: plan.next_total_budget_bytes as nat,
                        ..target
                    },
                ),
                None => None,
            },
            ..self
        }
    }

    /// Nothing under way.
    pub open spec fn cancelled(self) -> SpadState {
        SpadState { next_inflight: None, prev_inflight: None, ..self }
    }

    pub open spec fn target(self, side: SpadSide) -> Option<SpadTarget> {
        match side {
            SpadSide::Prev => self.prev,
            SpadSide::Next => self.next,
        }
    }

    pub open spec fn inflight(self, side: SpadSide) -> Option<SpadInflight> {
        match side {
            SpadSide::Prev => self.prev_inflight,
            SpadSide::Next => self.next_inflight,
        }
    }

    pub open spec fn with_target(self, side: SpadSide, target: Option<SpadTarget>) -> SpadState {
        match side {
            SpadSide::Prev => SpadState { prev: target, ..self },
            SpadSide::Next => SpadState { next: target, ..self },
        }
    }

    pub open spec fn with_inflight(self, side: SpadSide, inflight: Option<SpadInflight>) ->
        SpadState {
        match side {
            SpadSide::Prev => SpadState { prev_inflight: inflight, ..self },
            SpadSide::Next => SpadState { next_inflight: inflight, ..self },
        }
    }

    /// A request under way belongs to the present targets and asks for a page that is open.
    pub open spec fn side_wf(self, side: SpadSide) -> bool {
        &&& self.target(side) matches Some(target) ==> target.wf()
        &&& self.inflight(side) matches Some(inflight) ==> {
            &&& inflight.side == side
            &&& inflight.session == self.session
            &&& inflight.generation == self.generation
            &&& self.target(side) matches Some(target) && target.path == inflight.path
                && target.is_open(inflight.page)
        }
    }

    pub open spec fn wf(self) -> bool {
        self.side_wf(SpadSide::Prev) && self.side_wf(SpadSide::Next)
    }
}

impl SpadTargetState {
    /// Whether a page is decoded.
    pub fn is_page_ready(&self, page: u32) -> (ready: bool)
        ensures
            ready == is_ready(self.ready_pages@, page),
    {
        let mut i: usize = 0;
        while i < self.ready_pages.len()
            invariant
                i <= self.ready_pages@.len(),
                forall|j: int| 0 <= j < i ==> (#[trigger] self.ready_pages@[j]).page != page,
            decreases self.ready_pages@.len() - i,
        {
            if self.ready_pages[i].page == page {
                assert(self.ready_pages@[i as int].page == page);
                return true;
            }
            i = i + 1;
        }
        false
    }

    pub fn is_page_open(&self, page: u32) -> (open: bool)
        ensures
            open == self@.is_open(page),
    {
        !self.is_page_ready(page) && !self.failed_pages.contains(&page)
    }

    /// Sets up the order of decoding, once.
    pub fn ensure_spad_scheduled_pages(&mut self)
        ensures
            final(self)@ == old(self)@.scheduled_now(),
    {
        if self.scheduled_pages.len() > 0 {
            return;
        }
        let count: u32 = match self.page_count {
            Some(count) => count,
            None => 0,
        };
        if count == 0 {
            self.scheduled_pages.push(self.entry_page);
            self.scheduled_pages.push(self.entry_page.saturating_add(1));
            assert(self.scheduled_pages@ =~= schedule(self.page_count, self.entry_page));
            return;
        }
        let ghost given = self.entry_page;
        let entry: u32 = if self.entry_page < count {
            self.entry_page
        } else {
            0
        };
        self.entry_page = entry;
        let ghost ahead = Seq::new((count - entry) as nat, |i: int| (entry + i) as u32);
        let mut page: u32 = entry;
        let ghost before = *self;
        while page < count
            invariant
                entry <= page <= count,
                ahead == Seq::new((count - entry) as nat, |i: int| (entry + i) as u32),
                self.scheduled_pages@ == ahead.take(page - entry),
                self@ == (SpadTarget { scheduled: self.scheduled_pages@, ..before@ }),
            decreases count - page,
        {
            self.scheduled_pages.push(page);
            page = page + 1;
            assert(self.scheduled_pages@ =~= ahead.take(page - entry));
        }
        assert(ahead.take(page - entry) =~= ahead);
        if self.scheduled_pages.len() < 2 && entry > 0 {
            self.scheduled_pages.push(entry - 1);
        }
        assert(self.scheduled_pages@ =~= schedule(self.page_count, given));
    }

    /// Gives a page up.
    pub fn mark_spad_page_failed(&mut self, page: u32)
        ensures
            final(self)@ == old(self)@.with_failed(page),
    {
        self.failed_pages.insert(page);
        if self.next_dispatch_index < self.scheduled_pages.len()
            && self.scheduled_pages[self.next_dispatch_index] == page {
            self.next_dispatch_index = self.next_dispatch_index.saturating_add(1);
        }
    }

    /// Whether a page is left to decode.
    pub fn has_pending_page(&self) -> (pending: bool)
        ensures
            pending == self@.has_open_page(),
    {
        if self.scheduled_pages.len() == 0 {
            return true;
        }
        let mut i: usize = min_usize(self.next_dispatch_index, self.scheduled_pages.len());
        while i < self.scheduled_pages.len()
            invariant
                least(self.next_dispatch_index as int, self.scheduled_pages@.len() as int) <= i
                    <= self.scheduled_pages@.len(),
                forall|j: int|
                    self.next_dispatch_index <= j < i ==> !self@.is_open(
                        #[trigger] self.scheduled_pages@[j],
                    ),
            decreases self.scheduled_pages@.len() - i,
        {
            if self.is_page_open(self.scheduled_pages[i]) {
                assert(self@.is_open(self@.scheduled[i as int]));
                return true;
            }
            i = i + 1;
        }
        false
    }

    pub fn is_dispatchable(&self) -> (dispatchable: bool)
        ensures
            dispatchable == self@.dispatchable(),
    {
        !self.exhausted && self.current_bytes < self.max_bytes && self.has_pending_page()
    }

    /// Finds the page to decode next and moves the dispatch to it.
    pub fn seek_next_page(&mut self) -> (page: Option<u32>)
        requires
            old(self)@.wf(),
        ensures
            page == old(self)@.next_page(),
            final(self)@ == old(self)@.sought(),
            final(self)@.wf(),
            page matches Some(page) ==> final(self)@.is_open(page),
    {
        if self.exhausted {
            return None;
        }
        if self.current_bytes >= self.max_bytes {
            self.exhausted = true;
            return None;
        }
        self.ensure_spad_scheduled_pages();
        let ghost ready = self@;
        while self.next_dispatch_index < self.scheduled_pages.len()
            invariant_except_break
                self@ == (SpadTarget { next: self@.next, ..ready }),
                ready.first_open(ready.next) == ready.first_open(self@.next),
            ensures
                self@ == (SpadTarget { next: ready.first_open(ready.next), ..ready }),
                ready.first_open(ready.next) < ready.scheduled.len() ==> ready.is_open(
                    ready.scheduled[ready.first_open(ready.next) as int],
                ),
            decreases self.scheduled_pages@.len() - self.next_dispatch_index,
        {
            let page: u32 = self.scheduled_pages[self.next_dispatch_index];
            if self.is_page_open(page) {
                break;
            }
            self.next_dispatch_index = self.next_dispatch_index + 1;
        }
        if self.next_dispatch_index < self.scheduled_pages.len() {
            Some(self.scheduled_pages[self.next_dispatch_index])
        } else {
            None
        }
    }

    fn insert_ready(&mut self, ready: SpadReadyPage)
        requires
            ascending(old(self).ready_pages@),
            !is_ready(old(self).ready_pages@, ready.page),
        ensures
            final(self)@ == (SpadTarget {
                ready: old(self).ready_pages@.insert(
                    ready_position(old(self).ready_pages@, ready.page),
                    ready,
                ),
                ..old(self)@
            }),
            0 <= ready_position(old(self).ready_pages@, ready.page) <= old(self).ready_pages@.len(),
            ascending(final(self).ready_pages@),
    {
        let ghost given = self.ready_pages@;
        let mut k: usize = self.ready_pages.len();
        assert(given.take(k as int) =~= given);
        while k > 0 && self.ready_pages[k - 1].page >= ready.page
            invariant
                k <= self.ready_pages@.len(),
                given == self.ready_pages@,
                self@ == old(self)@,
                ready_position(given, ready.page) == ready_position(
                    given.take(k as int),
                    ready.page,
                ),
                forall|j: int| k <= j < given.len() ==> (#[trigger] given[j]).page >= ready.page,
            decreases k,
        {
            assert(given.take(k as int).drop_last() =~= given.take(k - 1));
            k = k - 1;
        }
        assert(ready_position(given, ready.page) == k);
        self.ready_pages.insert(k, ready);
        assert(ascending(self.ready_pages@)) by {
            let now = self.ready_pages@;
            assert forall|i: int, j: int| 0 <= i < j < now.len() implies (#[trigger] now[i]).page < (
            #[trigger] now[j]).page by {
                if i < k {
                    assert(now[i] == given[i]);
                    if k > 0 {
                        assert(given[i].page <= given[k - 1].page);
                    }
                }
                if j > k {
                    assert(now[j] == given[j - 1]);
                    assert(given[j - 1].page != ready.page);
                }
                if i > k {
                    assert(now[i] == given[i - 1]);
                }
                if j < k {
                    assert(now[j] == given[j]);
                }
            }
        }
    }

    /// Takes a decode that came back for `page`: kept within the budget, or the page is given up.
    pub fn take_result(&mut self, page: u32, render_signature: RenderSignature, result: SpadResult)
        requires
            old(self)@.wf(),
            old(self)@.is_open(page),
        ensures
            final(self)@ == old(self)@.with_result(page, render_signature, result),
            final(self)@.wf(),
    {
        if result.page_count > 0 && self.page_count != Some(result.page_count) {
            self.page_count = Some(result.page_count);
            self.scheduled_pages.clear();
            self.next_dispatch_index = 0;
            assert(self.scheduled_pages@ =~= Seq::empty());
            self.ensure_spad_scheduled_pages();
        }
        let ghost target = self@;
        assert(target == old(self)@.with_page_count(result.page_count));
        if let Some(count) = self.page_count {
            if page >= count {
                self.mark_spad_page_failed(page);
                return;
            }
        }
        let frames: FrameSet = match result.frames {
            Some(frames) => frames,
            None => {
                self.mark_spad_page_failed(page);
                return;
            },
        };
        if result.is_animation_stream || frames.frame_count != 1 {
            self.mark_spad_page_failed(page);
            return;
        }
        let bytes: usize = self.current_bytes.saturating_add(frames.first_frame_bytes);
        if bytes > self.max_bytes {
            self.mark_spad_page_failed(page);
            self.exhausted = true;
            return;
        }
        self.current_bytes = bytes;
        let ready = SpadReadyPage { page, frames, render_signature };
        self.insert_ready(ready);
        self.next_dispatch_index = self.next_dispatch_index.saturating_add(1);
        proof {
            let k = ready_position(target.ready, page);
            lemma_ready_insert(target.ready, k, ready);
            assert forall|p: u32| #[trigger] is_ready(self@.ready, p) implies !self@.failed.contains(
                p,
            ) by {
                let i = choose|i: int| 0 <= i < self@.ready.len() && (#[trigger] self@.ready[i]).page
                    == p;
                if i < k {
                    assert(self@.ready[i] == target.ready[i]);
                    assert(is_ready(target.ready, p));
                } else if i > k {
                    assert(self@.ready[i] == target.ready[i - 1]);
                    assert(is_ready(target.ready, p));
                }
            }
            assert forall|i: int| 0 <= i < self@.ready.len() implies (
            #[trigger] self@.ready[i]).frames.frame_count == 1 by {
                if i < k {
                    assert(self@.ready[i] == target.ready[i]);
                } else if i > k {
                    assert(self@.ready[i] == target.ready[i - 1]);
                }
            }
        }
    }
}

proof fn lemma_ready_insert(ready: Seq<SpadReadyPage>, k: int, page: SpadReadyPage)
    requires
        0 <= k <= ready.len(),
    ensures
        ready_bytes(ready.insert(k, page)) == ready_bytes(ready)
            + page.frames.first_frame_bytes as nat,
    decreases ready.len(),
{
    let now = ready.insert(k, page);
    if k == ready.len() {
        assert(now.drop_last() =~= ready);
    } else {
        lemma_ready_insert(ready.drop_last(), k, page);
        assert(now.drop_last() =~= ready.drop_last().insert(k, page));
        assert(now.last() == ready.last());
    }
}

impl ViewerSpadState {
    pub fn new(session: u64) -> (state: Self)
        ensures
            state@ == (SpadState {
                session,
                generation: 0,
                next_inflight: None,
                prev_inflight: None,
                prev: None,
                next: None,
            }),
            state@.wf(),
    {
        ViewerSpadState {
            session,
            generation: 0,
            next_inflight: None,
            prev_inflight: None,
            prev: None,
            next: None,
        }
    }

    /// Forgets the requests under way; their answers are passed over.
    pub fn cancel_spad(&mut self)
        requires
            old(self)@.wf(),
        ensures
            final(self)@ == old(self)@.cancelled(),
            final(self)@.wf(),
    {
        self.next_inflight = None;
        self.prev_inflight = None;
        assert(self@.prev == old(self)@.prev && self@.next == old(self)@.next);
        assert(self@.side_wf(SpadSide::Prev)) by {
            assert(old(self)@.side_wf(SpadSide::Prev));
        }
        assert(self@.side_wf(SpadSide::Next)) by {
            assert(old(self)@.side_wf(SpadSide::Next));
        }
    }

    /// Starts over with other neighbours.
    pub fn configure_spad_targets(
        &mut self,
        prev: Option<AdjacentBook>,
        next: Option<AdjacentBook>,
        prev_layout_settings: Option<SpadTargetLayoutSettings>,
        next_layout_settings: Option<SpadTargetLayoutSettings>,
    )
        ensures
            final(self)@ == old(self)@.retargeted(
                match prev {
                    Some(book) => Some(target_for(book, prev_layout_settings)),
                    None => None,
                },
                match next {
                    Some(book) => Some(target_for(book, next_layout_settings)),
                    None => None,
                },
            ),
            final(self)@.wf(),
    {
        self.generation = self.generation.saturating_add(1);
        self.next_inflight = None;
        self.prev_inflight = None;
        self.prev =
        match prev {
            Some(book) => Some(build_spad_target(book, prev_layout_settings)),
            None => None,
        };
        self.next =
        match next {
            Some(book) => Some(build_spad_target(book, next_layout_settings)),
            None => None,
        };
        assert(self@.side_wf(SpadSide::Prev));
        assert(self@.side_wf(SpadSide::Next));
    }

    pub fn build_spad_budget_plan(&self, area: SpadArea, rgba_cache_max_mb: u16) -> (plan:
        SpadBudgetPlan)
        ensures
            plan == self@.budget(area, rgba_cache_max_mb),
    {
        let total: usize = total_l2_rgba_budget_bytes(rgba_cache_max_mb);
        let (prev_guaranteed_bytes, prev_extra_budget_bytes): (usize, usize) = side_budget_bytes(
            target_hint(&self.prev),
            area,
            total,
        );
        let (next_guaranteed_bytes, next_extra_budget_bytes): (usize, usize) = side_budget_bytes(
            target_hint(&self.next),
            area,
            total,
        );
        let prev_total_budget_bytes: usize = prev_guaranteed_bytes.saturating_add(
            prev_extra_budget_bytes,
        );
        let next_total_budget_bytes: usize = next_guaranteed_bytes.saturating_add(
            next_extra_budget_bytes,
        );
        let reserved: usize = prev_total_budget_bytes.saturating_add(next_total_budget_bytes);
        let minimum: usize = 0x10_0000;
        SpadBudgetPlan {
            prev_guaranteed_bytes,
            next_guaranteed_bytes,
            prev_extra_budget_bytes,
            next_extra_budget_bytes,
            prev_total_budget_bytes,
            next_total_budget_bytes,
            l2_effective_bytes: min_usize(
                max_usize(total.saturating_sub(reserved), minimum),
                max_usize(total, minimum),
            ),
        }
    }

    /// Sets the budgets of both sides.
    pub fn refresh_spad_budget_plan(&mut self, area: SpadArea, rgba_cache_max_mb: u16)
        requires
            old(self)@.wf(),
        ensures
            final(self)@ == old(self)@.budgeted(area, rgba_cache_max_mb),
            final(self)@.wf(),
    {
        let plan: SpadBudgetPlan = self.build_spad_budget_plan(area, rgba_cache_max_mb);
        if let Some(prev) = &mut self.prev {
            prev.guaranteed_bytes = plan.prev_guaranteed_bytes;
            prev.extra_budget_bytes = plan.prev_extra_budget_bytes;
            prev.max_bytes = plan.prev_total_budget_bytes;
        }
        if let Some(next) = &mut self.next {
            next.guaranteed_bytes = plan.next_guaranteed_bytes;
            next.extra_budget_bytes = plan.next_extra_budget_bytes;
            next.max_bytes = plan.next_total_budget_bytes;
        }
        assert(old(self)@.side_wf(SpadSide::Prev) && old(self)@.side_wf(SpadSide::Next));
        assert(self@.side_wf(SpadSide::Prev));
        assert(self@.side_wf(SpadSide::Next));
    }

    /// The budget in mebibytes that the pages of the current book may use.
    pub fn effective_l2_rgba_cache_max_mb(&self, area: SpadArea, rgba_cache_max_mb: u16) -> (mib:
        u16)
        ensures
            mib == l2_mebibytes(self@.budget(area, rgba_cache_max_mb)),
    {
        mebibytes_rounded_up(
            self.build_spad_budget_plan(area, rgba_cache_max_mb).l2_effective_bytes,
        )
    }

    /// Asks for the next page of one side, unless a request is under way or nothing is left.
    /// What is to be decoded is returned, with the path of the book.
    pub fn dispatch_spad_request(
        &mut self,
        side: SpadSide,
        quality: ViewerQuality,
        area: SpadArea,
        max_tex_side: u32,
        request_id: u64,
    ) -> (request: Option<SpadInflightRequest>)
        requires
            old(self)@.wf(),
        ensures
            final(self)@ == old(self)@.dispatched(side, quality, area, max_tex_side, request_id),
            inflight_view(request) == old(self)@.request_for(
                side,
                quality,
                area,
                max_tex_side,
                request_id,
            ),
            final(self)@.wf(),
    {
        let ghost given = self@;
        assert(given.side_wf(SpadSide::Prev) && given.side_wf(SpadSide::Next));
        let under_way: bool = match side {
            SpadSide::Next => self.next_inflight.is_some(),
            SpadSide::Prev => self.prev_inflight.is_some(),
        };
        if under_way {
            return None;
        }
        let session: u64 = self.session;
        let generation: u64 = self.generation;
        let found: Option<(u32, String, Option<SpadTargetLayoutHint>)> = match side {
            SpadSide::Next => match &mut self.next {
                Some(target) => match target.seek_next_page() {
                    Some(page) => Some((page, target.path.clone(), target.layout_hint)),
                    None => None,
                },
                None => None,
            },
            SpadSide::Prev => match &mut self.prev {
                Some(target) => match target.seek_next_page() {
                    Some(page) => Some((page, target.path.clone(), target.layout_hint)),
                    None => None,
                },
                None => None,
            },
        };
        let request: Option<SpadInflightRequest> = match found {
            Some((page, path, hint)) => {
                let target: SpadResolvedDecodeTarget = resolve_spad_decode_target(hint, area);
                let render_signature = RenderSignature::from_decode_request(
                    quality,
                    target.decode_w,
                    target.decode_h,
                    max_tex_side,
                );
                let kept = SpadInflightRequest {
                    request_id,
                    session,
                    generation,
                    side,
                    path: path.clone(),
                    page,
                    render_signature,
                };
                match side {
                    SpadSide::Next => {
                        self.next_inflight = Some(kept);
                    },
                    SpadSide::Prev => {
                        self.prev_inflight = Some(kept);
                    },
                }
                Some(
                    SpadInflightRequest {
                        request_id,
                        session,
                        generation,
                        side,
                        path,
                        page,
                        render_signature,
                    },
                )
            },
            None => None,
        };
        assert(self@.side_wf(SpadSide::Prev));
        assert(self@.side_wf(SpadSide::Next));
        request
    }

    /// Takes the answer to the request under way on one side; any other answer is passed over.
    pub fn handle_spad_result(&mut self, expected_side: SpadSide, result: SpadResult)
        requires
            old(self)@.wf(),
        ensures
            final(self)@ == old(self)@.answered(expected_side, result),
            final(self)@.wf(),
    {
        let ghost given = self@;
        assert(given.side_wf(SpadSide::Prev) && given.side_wf(SpadSide::Next));
        let inflight: Option<(u32, RenderSignature)> = match expected_side {
            SpadSide::Next => match &self.next_inflight {
                Some(inflight) => if inflight.request_id == result.request_id {
                    Some((inflight.page, inflight.render_signature))
                } else {
                    None
                },
                None => None,
            },
            SpadSide::Prev => match &self.prev_inflight {
                Some(inflight) => if inflight.request_id == result.request_id {
                    Some((inflight.page, inflight.render_signature))
                } else {
                    None
                },
                None => None,
            },
        };
        let (page, render_signature): (u32, RenderSignature) = match inflight {
            Some(found) => found,
            None => {
                return;
            },
        };
        match expected_side {
            SpadSide::Next => {
                self.next_inflight = None;
                if let Some(target) = &mut self.next {
                    target.take_result(page, render_signature, result);
                }
            },
            SpadSide::Prev => {
                self.prev_inflight = None;
                if let Some(target) = &mut self.prev {
                    target.take_result(page, render_signature, result);
                }
            },
        }
        assert(self@.side_wf(SpadSide::Prev));
        assert(self@.side_wf(SpadSide::Next));
    }

    /// Sets up both orders of decoding and looks at both budgets; tells whether there is
    /// anything to ask for.
    pub fn prepare_targets(&mut self) -> (dispatchable: bool)
        requires
            old(self)@.wf(),
        ensures
            final(self)@ == old(self)@.prepared(),
            final(self)@.wf(),
            dispatchable == final(self)@.any_dispatchable(),
    {
        let ghost given = self@;
        assert(given.side_wf(SpadSide::Prev) && given.side_wf(SpadSide::Next));
        let mut dispatchable: bool = false;
        if let Some(target) = &mut self.next {
            target.ensure_spad_scheduled_pages();
            if target.current_bytes >= target.max_bytes {
                target.exhausted = true;
            }
            dispatchable = target.is_dispatchable();
        }
        if let Some(target) = &mut self.prev {
            target.ensure_spad_scheduled_pages();
            if target.current_bytes >= target.max_bytes {
                target.exhausted = true;
            }
            dispatchable = target.is_dispatchable() || dispatchable;
        }
        assert(self@.side_wf(SpadSide::Prev));
        assert(self@.side_wf(SpadSide::Next));
        dispatchable
    }
}

/// A page handed over, as values.
pub struct SpadPromotion {
    pub page: u32,
    pub frames: FrameSet,
    pub render_signature: RenderSignature,
    pub target_path: Seq<char>,
    pub session: u64,
    pub generation: u64,
    pub target_page_count: Option<u32>,
}

impl View for SpadPromotionPage {
    type V = SpadPromotion;

    open spec fn view(&self) -> SpadPromotion {
        SpadPromotion {
            page: self.page,
            frames: self.frames,
            render_signature: self.render_signature,
            target_path: self.target_path@,
            session: self.session,
            generation: self.generation,
            target_page_count: self.target_page_count,
        }
    }
}

pub open spec fn promotions_view(pages: Seq<SpadPromotionPage>) -> Seq<SpadPromotion> {
    pages.map_values(|page: SpadPromotionPage| page@)
}

impl SpadState {
    /// The decoded pages of a target, in page order.
    pub open spec fn promotions_of(self, target: SpadTarget) -> Seq<SpadPromotion> {
        target.ready.map_values(
            |ready: SpadReadyPage|
                SpadPromotion {
                    page: ready.page,
                    frames: ready.frames,
                    render_signature: ready.render_signature,
                    target_path: target.path,
                    session: self.session,
                    generation: self.generation,
                    target_page_count: target.page_count,
                },
        )
    }

    /// The decoded pages of one side, if it is the book at `path`.
    pub open spec fn side_promotions(self, target: Option<SpadTarget>, path: Seq<char>, windows: bool) ->
        Seq<SpadPromotion> {
        match target {
            Some(target) => if selection_form(target.path, windows) == selection_form(
                path,
                windows,
            ) {
                self.promotions_of(target)
            } else {
                Seq::empty()
            },
            None => Seq::empty(),
        }
    }
}

impl ViewerSpadState {
    fn append_promotions(
        &self,
        target: &SpadTargetState,
        target_path: &str,
        windows: bool,
        out: &mut Vec<SpadPromotionPage>,
    )
        ensures
            promotions_view(final(out)@) == promotions_view(old(out)@) + self@.side_promotions(
                Some(target@),
                target_path@,
                windows,
            ),
    {
        let ghost before = promotions_view(out@);
        let ghost all = self@.promotions_of(target@);
        if !paths_equivalent_for_selection(target.path.as_str(), target_path, windows) {
            assert(before + Seq::<SpadPromotion>::empty() =~= before);
            return;
        }
        let mut i: usize = 0;
        assert(before + all.take(0) =~= before);
        while i < target.ready_pages.len()
            invariant
                i <= target.ready_pages@.len(),
                all == self@.promotions_of(target@),
                promotions_view(out@) == before + all.take(i as int),
            decreases target.ready_pages@.len() - i,
        {
            let ready: SpadReadyPage = target.ready_pages[i];
            let ghost so_far = out@;
            out.push(
                SpadPromotionPage {
                    page: ready.page,
                    frames: ready.frames,
                    render_signature: ready.render_signature,
                    target_path: target.path.clone(),
                    session: self.session,
                    generation: self.generation,
                    target_page_count: target.page_count,
                },
            );
            assert(promotions_view(out@) =~= promotions_view(so_far).push(all[i as int]));
            i = i + 1;
            assert(before + all.take(i as int) =~= (before + all.take(i - 1)).push(all[i - 1]));
        }
        assert(all.take(i as int) =~= all);
    }

    /// The decoded pages of the neighbour at a path, for the viewer that opens it. They stay
    /// here too.
    pub fn take_spad_ready_pages_for_target(&self, target_path: &str, windows: bool) -> (out: Vec<
        SpadPromotionPage,
    >)
        ensures
            promotions_view(out@) == self@.side_promotions(self@.prev, target_path@, windows)
                + self@.side_promotions(self@.next, target_path@, windows),
    {
        let mut out: Vec<SpadPromotionPage> = Vec::new();
        assert(promotions_view(out@) =~= Seq::empty());
        match &self.prev {
            Some(target) => {
                self.append_promotions(target, target_path, windows, &mut out);
            },
            None => {},
        }
        assert(promotions_view(out@) =~= self@.side_promotions(self@.prev, target_path@, windows));
        match &self.next {
            Some(target) => {
                self.append_promotions(target, target_path, windows, &mut out);
            },
            None => {},
        }
        assert(promotions_view(out@) =~= self@.side_promotions(self@.prev, target_path@, windows)
            + self@.side_promotions(self@.next, target_path@, windows));
        out
    }
}

/// A decode is kept only within the budget.
pub proof fn law_decodes_stay_within_the_budget(
    target: SpadTarget,
    page: u32,
    render_signature: RenderSignature,
    result: SpadResult,
)
    ensures
        target.with_result(page, render_signature, result).bytes <= greatest(
            target.bytes as int,
            target.max as int,
        ),
        target.bytes <= target.max ==> target.with_result(page, render_signature, result).bytes
            <= target.max,
{
}

/// The schedule names pages of the book, none twice, and every page from the entry page on.
pub proof fn law_schedule_names_each_page_once(count: u32, entry_page: u32)
    requires
        count > 0,
    ensures
        schedule(Some(count), entry_page).no_duplicates(),
        forall|i: int|
            0 <= i < schedule(Some(count), entry_page).len() ==> #[trigger] schedule(
                Some(count),
                entry_page,
            )[i] < count,
        schedule(Some(count), entry_page)[0] == entry_in(count, entry_page),
        forall|page: u32|
            entry_in(count, entry_page) <= page < count ==> #[trigger] schedule(
                Some(count),
                entry_page,
            ).contains(page),
{
    let pages = schedule(Some(count), entry_page);
    let entry = entry_in(count, entry_page);
    assert forall|page: u32| entry <= page < count implies #[trigger] pages.contains(page) by {
        assert(pages[page - entry] == page);
    }
}

/// An answer to a request that was cancelled, or that was made for other neighbours, changes
/// nothing.
pub proof fn law_late_answers_are_void(
    state: SpadState,
    prev: Option<SpadTarget>,
    next: Option<SpadTarget>,
    side: SpadSide,
    result: SpadResult,
)
    ensures
        state.cancelled().answered(side, result) == state.cancelled(),
        state.retargeted(prev, next).answered(side, result) == state.retargeted(prev, next),
{
}

/// A request is answered once: the same answer again changes nothing.
pub proof fn law_answers_count_once(state: SpadState, side: SpadSide, result: SpadResult)
    ensures
        state.answered(side, result).answered(side, result) == state.answered(side, result),
{
}

/// A neighbour is decoded from its entry page on, page after page; at the last page the one before
/// it comes too. A page beyond the book stands for the first one.
pub proof fn law_neighbours_are_decoded_from_their_entry(count: u32, entry: u32, i: int)
    requires
        count > 0,
    ensures
        entry < count && 0 <= i < count - entry ==> schedule(Some(count), entry)[i] == entry + i,
        entry >= count && 0 <= i < count ==> schedule(Some(count), entry)[i] == i,
        entry + 1 < count ==> schedule(Some(count), entry).len() == count - entry,
        entry > 0 && entry + 1 == count ==> schedule(Some(count), entry) == seq![
            entry,
            (entry - 1) as u32,
        ],
        entry < u32::MAX ==> schedule(None, entry) == seq![entry, (entry + 1) as u32],
{
    if entry > 0 && entry + 1 == count {
        assert(schedule(Some(count), entry) =~= seq![entry, (entry - 1) as u32]);
    }
}

proof fn lemma_first_open(target: SpadTarget, i: nat, k: int)
    requires
        i <= target.scheduled.len(),
    ensures
        i <= target.first_open(i) <= target.scheduled.len(),
        target.first_open(i) < target.scheduled.len() ==> target.is_open(
            target.scheduled[target.first_open(i) as int],
        ),
        i <= k < target.first_open(i) ==> !target.is_open(target.scheduled[k]),
    decreases target.scheduled.len() - i,
{
    if i < target.scheduled.len() && !target.is_open(target.scheduled[i as int]) {
        lemma_first_open(target, i + 1, k);
    }
}

/// The page that is decoded next is neither decoded nor given up, and no such page stands before it
/// in the schedule. There is none once the budget is used up.
pub proof fn law_next_page_is_the_first_open_one(target: SpadTarget, k: int)
    requires
        target.scheduled.len() > 0,
        target.next <= target.scheduled.len(),
    ensures
        target.next_page() matches Some(page) ==> {
            &&& !is_ready(target.ready, page)
            &&& !target.failed.contains(page)
            &&& target.bytes < target.max
            &&& exists|at: int|
                target.next <= at < target.scheduled.len() && #[trigger] target.scheduled[at]
                    == page && (target.next <= k < at ==> is_ready(
                    target.ready,
                    target.scheduled[k],
                ) || target.failed.contains(target.scheduled[k]))
        },
        target.bytes >= target.max || target.exhausted ==> target.next_page() is None,
        target.bytes < target.max && !target.exhausted && target.next_page() is None
            && target.next <= k < target.scheduled.len() ==> is_ready(
            target.ready,
            target.scheduled[k],
        ) || target.failed.contains(target.scheduled[k]),
{
    lemma_first_open(target, target.next, k);
    if target.next_page() is Some {
        let at = target.first_open(target.next) as int;
        assert(target.scheduled[at] == target.next_page()->0);
    }
}

/// A still page that fits the budget is ready afterwards, with the conditions that it was asked for
/// under; an animation, a failed decode or a page beyond the book is given up. A page that does not
/// fit is given up and ends the work on the book.
pub proof fn law_decodes_are_kept_or_given_up(
    target: SpadTarget,
    page: u32,
    signature: RenderSignature,
    result: SpadResult,
)
    requires
        target.wf(),
        target.is_open(page),
        target.page_count == Some(result.page_count),
    ensures
        ({
            let done = target.with_result(page, signature, result);
            let still = (result.frames matches Some(frames) && frames.frame_count == 1)
                && !result.is_animation_stream;
            let fits = still && target.bytes + result.frames->0.first_frame_bytes <= target.max
                && target.max <= usize::MAX;
            &&& page >= result.page_count || !still ==> done.failed.contains(page) && done.ready
                == target.ready && done.bytes == target.bytes
            &&& page < result.page_count && fits ==> {
                &&& is_ready(done.ready, page)
                &&& done.ready.contains(
                    SpadReadyPage { page, frames: result.frames->0, render_signature: signature },
                )
                &&& done.ready.len() == target.ready.len() + 1
                &&& done.bytes == target.bytes + result.frames->0.first_frame_bytes
                &&& done.failed == target.failed
                &&& done.exhausted == target.exhausted
            }
            &&& page < result.page_count && still && target.bytes
                + result.frames->0.first_frame_bytes > target.max && target.max < usize::MAX ==> {
                &&& done.exhausted
                &&& done.failed.contains(page)
                &&& done.ready == target.ready
            }
        }),
{
    lemma_ready_position(target.ready, page);
    if result.frames is Some {
        let entry = SpadReadyPage { page, frames: result.frames->0, render_signature: signature };
        let at = ready_position(target.ready, page);
        assert(target.ready.insert(at, entry)[at] == entry);
    }
}

proof fn lemma_ready_position(ready: Seq<SpadReadyPage>, page: u32)
    ensures
        0 <= ready_position(ready, page) <= ready.len(),
    decreases ready.len(),
{
    if ready.len() > 0 && ready.last().page >= page {
        lemma_ready_position(ready.drop_last(), page);
    }
}

/// The page count that a decode tells sets up the order of decoding anew; a count that is known
/// already, or none, changes nothing.
pub proof fn law_told_counts_reschedule(target: SpadTarget, count: u32)
    ensures
        target.page_count == Some(count) || count == 0 ==> target.with_page_count(count) == target,
        target.page_count != Some(count) && count > 0 ==> {
            let done = target.with_page_count(count);
            &&& done.page_count == Some(count)
            &&& done.next == 0
            &&& done.ready == target.ready && done.failed == target.failed
            &&& target.entry_page < count ==> done.scheduled[0] == target.entry_page
            &&& target.entry_page >= count ==> done.scheduled[0] == 0 && done.entry_page == 0
        },
{
}

/// Each neighbour has room for two pages for certain and for a twentieth of the whole budget, where
/// there is such a neighbour; the present book keeps what is left, a mebibyte at least.
pub proof fn law_neighbours_have_their_share(
    prev: Option<Option<SpadTargetLayoutHint>>,
    next: Option<Option<SpadTargetLayoutHint>>,
    area: SpadArea,
    total: nat,
)
    requires
        total <= usize::MAX / 4,
        prev matches Some(hint) ==> decode_target(hint, area).two_page_rgba_bytes <= usize::MAX / 4,
        next matches Some(hint) ==> decode_target(hint, area).two_page_rgba_bytes <= usize::MAX / 4,
    ensures
        ({
            let plan = budget_plan(prev, next, area, total);
            &&& prev is None ==> plan.prev_total_budget_bytes == 0
            &&& next is None ==> plan.next_total_budget_bytes == 0
            &&& prev matches Some(hint) ==> plan.prev_guaranteed_bytes == decode_target(
                hint,
                area,
            ).two_page_rgba_bytes && 20 * plan.prev_extra_budget_bytes <= total < 20 * (
            plan.prev_extra_budget_bytes + 1)
            &&& next matches Some(hint) ==> plan.next_guaranteed_bytes == decode_target(
                hint,
                area,
            ).two_page_rgba_bytes && 20 * plan.next_extra_budget_bytes <= total < 20 * (
            plan.next_extra_budget_bytes + 1)
            &&& plan.prev_total_budget_bytes == plan.prev_guaranteed_bytes
                + plan.prev_extra_budget_bytes
            &&& plan.next_total_budget_bytes == plan.next_guaranteed_bytes
                + plan.next_extra_budget_bytes
            &&& plan.l2_effective_bytes >= 1_048_576
            &&& plan.prev_total_budget_bytes + plan.next_total_budget_bytes + 1_048_576 <= total
                ==> plan.prev_total_budget_bytes + plan.next_total_budget_bytes
                + plan.l2_effective_bytes == total
            &&& plan.prev_total_budget_bytes + plan.next_total_budget_bytes + 1_048_576 > total
                ==> plan.l2_effective_bytes == 1_048_576
        }),
{
}

/// What is left for the present book in mebibytes is rounded up.
pub proof fn law_mebibytes_are_rounded_up(plan: SpadBudgetPlan)
    requires
        plan.l2_effective_bytes <= 65_535 * 1_048_576,
        plan.l2_effective_bytes + 1_048_576 <= usize::MAX,
    ensures
        plan.l2_effective_bytes <= l2_mebibytes(plan) * 1_048_576,
        l2_mebibytes(plan) * 1_048_576 < plan.l2_effective_bytes + 1_048_576,
{
}

/// The decode size of a neighbour follows its own pairing where that is known: half the width,
/// rounded up, for a spread, and all of it else. Where it is not, it is decoded as the present view
/// is.
pub proof fn law_neighbours_are_decoded_for_their_screen(
    hint: SpadTargetLayoutHint,
    area: SpadArea,
)
    requires
        area.full_equivalent_w > 0,
    ensures
        ({
            let own = decode_target(Some(hint), area);
            let as_here = decode_target(None, area);
            &&& own.decode_h == area.full_equivalent_h
            &&& own.effective_spread == hint.effective_spread
            &&& !hint.effective_spread ==> own.decode_w == area.full_equivalent_w
            &&& hint.effective_spread ==> area.full_equivalent_w <= 2 * own.decode_w
                <= area.full_equivalent_w + 1
            &&& as_here.decode_w == area.current_decode_w && as_here.decode_h
                == area.current_decode_h
            &&& as_here.effective_spread == area.current_effective_spread
        }),
{
}

/// A request for a neighbour is made where none is under way on that side and a page is left, for
/// the next page of that book and under the present session.
pub proof fn law_one_request_for_a_side(
    state: SpadState,
    side: SpadSide,
    quality: ViewerQuality,
    area: SpadArea,
    max_tex_side: u32,
    request_id: u64,
)
    ensures
        ({
            let request = state.request_for(side, quality, area, max_tex_side, request_id);
            let done = state.dispatched(side, quality, area, max_tex_side, request_id);
            &&& state.inflight(side) is Some ==> request is None && done == state
            &&& state.target(side) is None ==> request is None && done == state
            &&& request matches Some(request) ==> {
                &&& state.target(side) matches Some(target) && target.next_page() == Some(
                    request.page,
                ) && request.path == target.path
                &&& request.request_id == request_id
                &&& request.side == side
                &&& request.session == state.session && request.generation == state.generation
                &&& request.render_signature.quality == quality
                &&& request.render_signature.max_tex_side == max_tex_side
                &&& done.inflight(side) == Some(request)
            }
            &&& side == SpadSide::Prev ==> done.next == state.next && done.next_inflight
                == state.next_inflight
            &&& side == SpadSide::Next ==> done.prev == state.prev && done.prev_inflight
                == state.prev_inflight
        }),
{
}

/// Other neighbours void what is under way, and nothing of them is decoded yet.
pub proof fn law_other_neighbours_start_over(
    state: SpadState,
    book: AdjacentBook,
    settings: Option<SpadTargetLayoutSettings>,
    next: Option<SpadTarget>,
)
    requires
        state.generation < u64::MAX,
    ensures
        ({
            let target = target_for(book, settings);
            let done = state.retargeted(Some(target), next);
            &&& done.generation == state.generation + 1 && done.session == state.session
            &&& done.prev_inflight is None && done.next_inflight is None
            &&& done.prev == Some(target) && done.next == next
            &&& target.ready.len() == 0 && target.failed == Set::<u32>::empty() && target.bytes == 0
            &&& target.path == book.path@
            &&& book.page_count is Some ==> target.page_count == book.page_count
            &&& book.page_map is None ==> target.layout_hint is None && target.entry_page
                == match book.start_page {
                Some(page) => page as u32,
                None => 0u32,
            }
        }),
{
}

/// The layout of a neighbour at its entry page: single pages stand alone, forced spreads show two
/// but for the cover with a blank page and the last page, and nothing is known outside its map.
pub proof fn law_neighbours_follow_their_settings(
    page_map: BookPageMap,
    entry: u32,
    cover_blank: bool,
)
    requires
        page_map.pages@.len() <= u32::MAX,
    ensures
        entry >= page_map.pages@.len() ==> layout_hint_for(
            Some(page_map),
            entry,
            Some(
                SpadTargetLayoutSettings { spread_setting: SpreadMode::Spread, cover_blank },
            ),
        ) is None,
        entry < page_map.pages@.len() ==> {
            &&& layout_hint_for(
                Some(page_map),
                entry,
                Some(
                    SpadTargetLayoutSettings { spread_setting: SpreadMode::Single, cover_blank },
                ),
            ) matches Some(hint) && !hint.effective_spread && hint.resolved_entry_page == entry
                && hint.page_count == page_map.pages@.len()
            &&& layout_hint_for(
                Some(page_map),
                entry,
                Some(
                    SpadTargetLayoutSettings { spread_setting: SpreadMode::Spread, cover_blank },
                ),
            ) matches Some(hint) && hint.resolved_entry_page == entry && (hint.effective_spread
                <==> entry + 1 < page_map.pages@.len() && !(cover_blank && entry == 0))
        },
        layout_hint_for(Some(page_map), entry, None) is None,
{
}

/// The pages of a neighbour are handed over as they were decoded, in page order, and stay.
pub proof fn law_decoded_pages_are_handed_over(state: SpadState, target: SpadTarget, i: int)
    requires
        0 <= i < target.ready.len(),
    ensures
        ({
            let pages = state.promotions_of(target);
            &&& pages.len() == target.ready.len()
            &&& pages[i].page == target.ready[i].page
            &&& pages[i].frames == target.ready[i].frames
            &&& pages[i].render_signature == target.ready[i].render_signature
            &&& pages[i].target_path == target.path
            &&& pages[i].target_page_count == target.page_count
            &&& pages[i].session == state.session && pages[i].generation == state.generation
        }),
        state.side_promotions(Some(target), target.path, true) == state.promotions_of(target),
        state.side_promotions(Some(target), target.path, false) == state.promotions_of(target),
        state.side_promotions(None, target.path, true).len() == 0,
{
}

/// The answer to the request under way is taken and the request is done; any other answer changes
/// nothing. The other side is not touched.
pub proof fn law_awaited_answers_are_taken(
    state: SpadState,
    side: SpadSide,
    inflight: SpadInflight,
    target: SpadTarget,
    result: SpadResult,
)
    requires
        state.inflight(side) == Some(inflight),
        state.target(side) == Some(target),
    ensures
        ({
            let done = state.answered(side, result);
            &&& inflight.request_id == result.request_id ==> done.inflight(side) is None
                && done.target(side) == Some(
                target.with_result(inflight.page, inflight.render_signature, result),
            )
            &&& inflight.request_id != result.request_id ==> done == state
            &&& side == SpadSide::Next ==> done.prev == state.prev && done.prev_inflight
                == state.prev_inflight
            &&& side == SpadSide::Prev ==> done.next == state.next && done.next_inflight
                == state.next_inflight
        }),
{
}

/// A neighbour is worked on while its budget is not used up, it was not given up, and a page is
/// left.
pub proof fn law_used_up_budgets_end_the_work(target: SpadTarget)
    ensures
        target.bytes >= target.max ==> !target.dispatchable() && target.checked().exhausted,
        target.exhausted ==> !target.dispatchable() && target.checked().exhausted,
        target.bytes < target.max && !target.exhausted ==> !target.checked().exhausted,
        target.bytes < target.max && !target.exhausted && target.scheduled.len() == 0
            ==> target.dispatchable(),
        target.bytes < target.max && !target.exhausted && target.next < target.scheduled.len()
            && !is_ready(target.ready, target.scheduled[target.next as int])
            && !target.failed.contains(target.scheduled[target.next as int])
            ==> target.dispatchable(),
        target.scheduled.len() > 0 && target.next >= target.scheduled.len()
            ==> !target.dispatchable(),
{
}

/// Something is left to ask for where it is so on either side.
pub proof fn law_either_side_may_have_work(state: SpadState)
    ensures
        state.next matches Some(target) && target.dispatchable() ==> state.any_dispatchable(),
        state.prev matches Some(target) && target.dispatchable() ==> state.any_dispatchable(),
        state.next is None && state.prev is None ==> !state.any_dispatchable(),
        state.any_dispatchable() ==> (state.next matches Some(target) && target.dispatchable()) || (
        state.prev matches Some(target) && target.dispatchable()),
{
}

/// A page that is given up is not asked for again, and the work goes on with the page behind it.
pub proof fn law_given_up_pages_are_passed_over(target: SpadTarget, page: u32)
    requires
        target.scheduled.len() <= usize::MAX,
    ensures
        target.with_failed(page).failed.contains(page),
        !target.with_failed(page).is_open(page),
        target.next < target.scheduled.len() && target.scheduled[target.next as int] == page
            ==> target.with_failed(page).next == target.next + 1,
        target.next >= target.scheduled.len() || target.scheduled[target.next as int] != page
            ==> target.with_failed(page).next == target.next,
        target.with_failed(page).ready == target.ready,
{
}

/// A neighbour starts with all its work before it.
pub proof fn law_neighbours_start_fresh(
    book: AdjacentBook,
    settings: Option<SpadTargetLayoutSettings>,
)
    ensures
        !target_for(book, settings).exhausted,
        target_for(book, settings).next == 0,
        target_for(book, settings).scheduled.len() == 0,
        target_for(book, settings).max == 0,
        target_for(book, settings).layout_hint matches Some(hint) ==> target_for(
            book,
            settings,
        ).entry_page == hint.resolved_entry_page && (book.page_count is None ==> target_for(
            book,
            settings,
        ).page_count == Some(hint.page_count)),
{
}

/// The budgets are set on both sides, each to its own share, and nothing else changes.
pub proof fn law_budgets_are_set_side_by_side(state: SpadState, area: SpadArea, mib: u16)
    ensures
        ({
            let plan = state.budget(area, mib);
            let done = state.budgeted(area, mib);
            &&& done.prev matches Some(target) ==> target.max == plan.prev_total_budget_bytes
                && target.guaranteed == plan.prev_guaranteed_bytes && target.extra
                == plan.prev_extra_budget_bytes
            &&& done.next matches Some(target) ==> target.max == plan.next_total_budget_bytes
                && target.guaranteed == plan.next_guaranteed_bytes && target.extra
                == plan.next_extra_budget_bytes
            &&& done.prev is Some <==> state.prev is Some
            &&& done.next is Some <==> state.next is Some
            &&& state.prev matches Some(target) ==> done.prev->0.ready == target.ready
                && done.prev->0.bytes == target.bytes
            &&& done.next_inflight == state.next_inflight && done.prev_inflight
                == state.prev_inflight
        }),
        mib * 1_048_576 <= usize::MAX ==> budget_bytes(mib) == mib * 1_048_576,
{
}

} // verus!
