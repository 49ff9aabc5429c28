//! The progress bar: which page stands where on it, and what its use leads to.
use vstd::prelude::*;
use vstd::string::*;

use super::display_model::slideshow_stopped;
use super::state::{
    PendingVisualState, ViewerDeleteRangeSelection, ViewerModel, ViewerState, ViewerUiRuntimeState,
};
use crate::domain::{ReadingDirection, SpreadMode};
use crate::num::{greatest, least, max_u32, min_u32, monus};
use crate::text::{decimal, decimal_text};
use crate::util::path_text::text_of;

verus! {

/// Where a page stands on the bar, counted from the left; and the page that stands there.
pub open spec fn mirrored(page: u32, max_page: u32, direction: ReadingDirection) -> u32 {
    match direction {
        ReadingDirection::RightToLeft => monus(max_page as nat, page as nat) as u32,
        ReadingDirection::LeftToRight => page,
    }
}

pub fn visual_page_from_physical(
    physical_page: u32,
    max_page: u32,
    reading_direction: ReadingDirection,
) -> (visual_page: u32)
    ensures
        visual_page == mirrored(physical_page, max_page, reading_direction),
{
    match reading_direction {
        ReadingDirection::RightToLeft => max_page.saturating_sub(physical_page),
        ReadingDirection::LeftToRight => physical_page,
    }
}

pub fn physical_page_from_visual(
    visual_page: u32,
    max_page: u32,
    reading_direction: ReadingDirection,
) -> (physical_page: u32)
    ensures
        physical_page == mirrored(visual_page, max_page, reading_direction),
{
    match reading_direction {
        ReadingDirection::RightToLeft => max_page.saturating_sub(visual_page),
        ReadingDirection::LeftToRight => visual_page,
    }
}

/// The page that stands where a page of the book stands is that page, and both lie on the bar.
pub proof fn law_places_and_pages_match(page: u32, max_page: u32, direction: ReadingDirection)
    requires
        page <= max_page,
    ensures
        mirrored(mirrored(page, max_page, direction), max_page, direction) == page,
        mirrored(page, max_page, direction) <= max_page,
{
}

/// Read from right to left, a later page stands further left; else further right.
pub proof fn law_places_follow_the_reading_direction(a: u32, b: u32, max_page: u32)
    requires
        a < b <= max_page,
    ensures
        mirrored(a, max_page, ReadingDirection::RightToLeft) > mirrored(
            b,
            max_page,
            ReadingDirection::RightToLeft,
        ),
        mirrored(a, max_page, ReadingDirection::LeftToRight) < mirrored(
            b,
            max_page,
            ReadingDirection::LeftToRight,
        ),
{
}

/// How far along the bar a page is, in thousandths.
pub open spec fn fraction_milli(page: u32, max_page: u32) -> u16 {
    if max_page > 0 {
        least(page * 1000 / max_page as int, 1000) as u16
    } else {
        1000
    }
}

pub fn drag_fraction_milli(page: u32, max_page: u32) -> (milli: u16)
    ensures
        milli == fraction_milli(page, max_page),
        milli <= 1000,
{
    if max_page == 0 {
        return 1000;
    }
    let milli: u64 = page as u64 * 1000 / max_page as u64;
    if milli > 1000 {
        1000
    } else {
        milli as u16
    }
}

/// The bar of a book of more than one page, before it is used.
#[derive(Clone, Copy, Debug, PartialEq, Eq, Structural)]
pub struct ProgressBar {
    pub max_page: u32,
    pub selected_page: u32,
    pub selected_visual_page: u32,
    pub last_page_visible: bool,
}

/// How the bar was used in a frame: where its handle stands now, and what the pointer did.
#[derive(Clone, Copy, Debug, PartialEq, Eq, Structural)]
pub struct ProgressInput {
    pub visual_page: u32,
    pub hovered: bool,
    pub dragged: bool,
    pub committed: bool,
}

/// What is marked for deletion on the bar, by places.
#[derive(Clone, Copy, Debug, PartialEq, Eq, Structural)]
pub enum ProgressMark {
    Nothing,
    Start { visual_page: u32 },
    Range { left: u32, right: u32 },
}

/// What the bar shows and leads to.
pub struct ProgressOutcome {
    /// The page up to which the bar is filled.
    pub filled_page: u32,
    /// The pages to name beside the bar; none while the page count is not known.
    pub label: Option<String>,
    /// The page that was picked.
    pub new_view: Option<u32>,
}

/// The marks of a selection on the bar.
pub open spec fn mark_of(
    selection: ViewerDeleteRangeSelection,
    max_page: u32,
    direction: ReadingDirection,
) -> ProgressMark {
    match (selection.start, selection.end) {
        (Some(start), None) => ProgressMark::Start {
            visual_page: mirrored(start, max_page, direction),
        },
        (Some(start), Some(end)) => {
            let a = mirrored(start, max_page, direction) as int;
            let b = mirrored(end, max_page, direction) as int;
            ProgressMark::Range { left: least(a, b) as u32, right: greatest(a, b) as u32 }
        },
        (None, _) => ProgressMark::Nothing,
    }
}

pub fn progress_mark(
    selection: ViewerDeleteRangeSelection,
    max_page: u32,
    direction: ReadingDirection,
) -> (mark: ProgressMark)
    ensures
        mark == mark_of(selection, max_page, direction),
{
    match (selection.start, selection.end) {
        (Some(start), None) => ProgressMark::Start {
            visual_page: visual_page_from_physical(start, max_page, direction),
        },
        (Some(start), Some(end)) => {
            let a: u32 = visual_page_from_physical(start, max_page, direction);
            let b: u32 = visual_page_from_physical(end, max_page, direction);
            ProgressMark::Range { left: min_u32(a, b), right: max_u32(a, b) }
        },
        (None, _) => ProgressMark::Nothing,
    }
}

/// The number that a page is named by.
pub open spec fn page_number_text(page: u32) -> Seq<char> {
    decimal((page + 1) as nat)
}

fn page_number(page: u32) -> (text: String)
    ensures
        text@ == page_number_text(page),
{
    decimal_text(page as u128 + 1)
}

impl ViewerModel {
    /// The pages that a screen is named by. The blank page opposite the cover counts.
    pub open spec fn pages_text(self, view: u32) -> Option<Seq<char>> {
        if self.persistent.page_count == 0 {
            None
        } else if self.leading_blank(view) && self.persistent.page_count > 1 {
            Some("1-2"@)
        } else {
            Some(
                match self.display_pages(view) {
                    (None, Some(right)) => page_number_text(right),
                    (Some(left), None) => page_number_text(left),
                    (Some(left), Some(right)) => page_number_text(left) + "-"@ + page_number_text(
                        right,
                    ),
                    (None, None) => "…"@,
                },
            )
        }
    }

    /// The bar, where the book has more than one page.
    pub open spec fn progress_bar(self) -> Option<ProgressBar> {
        if self.persistent.page_count <= 1 {
            None
        } else {
            let max = (self.persistent.page_count - 1) as u32;
            let selected = least(self.persistent.target_page as int, max as int) as u32;
            let shown = self.display_pages(self.persistent.displayed_page);
            Some(
                ProgressBar {
                    max_page: max,
                    selected_page: selected,
                    selected_visual_page: mirrored(selected, max, self.reading_direction()),
                    last_page_visible: shown.0 == Some(max) || shown.1 == Some(max),
                },
            )
        }
    }

    /// The page that the handle stands at.
    pub open spec fn handle_page(self, bar: ProgressBar, input: ProgressInput) -> u32 {
        mirrored(input.visual_page, bar.max_page, self.reading_direction())
    }

    /// The page up to which the bar is filled: where it is dragged to, else the end where the
    /// last page is on screen, else the page that input leads to.
    pub open spec fn filled_page(self, bar: ProgressBar, input: ProgressInput) -> u32 {
        if input.dragged || input.committed {
            self.handle_page(bar, input)
        } else if bar.last_page_visible {
            bar.max_page
        } else {
            bar.selected_page
        }
    }

    /// The page that was picked, unless input leads there already.
    pub open spec fn picked_page(self, bar: ProgressBar, input: ProgressInput) -> Option<u32> {
        if input.committed && self.handle_page(bar, input) != self.persistent.target_page {
            Some(self.handle_page(bar, input))
        } else {
            None
        }
    }

    /// What stands beside the bar: the page of the handle while another page is on its way, else
    /// the pages on screen or those that input leads to.
    pub open spec fn progress_label(
        self,
        bar: ProgressBar,
        input: ProgressInput,
        show_pending: bool,
    ) -> Option<Seq<char>> {
        if show_pending {
            Some(page_number_text(self.handle_page(bar, input)))
        } else if self.has_pending_target() {
            self.pages_text(self.persistent.target_page)
        } else {
            self.pages_text(self.persistent.displayed_page)
        }
    }

    pub open spec fn progress_visual(
        self,
        bar: ProgressBar,
        input: ProgressInput,
        show_pending: bool,
    ) -> PendingVisualState {
        PendingVisualState {
            target_page: self.persistent.target_page,
            displayed_page: self.persistent.displayed_page,
            requested_page: self.persistent.requested_page,
            show_pending,
            progress_hover: input.hovered,
            progress_drag: input.dragged,
            drag_fraction_milli: if input.dragged {
                Some(
                    fraction_milli(
                        match self.reading_direction() {
                            ReadingDirection::RightToLeft => self.handle_page(bar, input),
                            ReadingDirection::LeftToRight => input.visual_page,
                        },
                        bar.max_page,
                    ),
                )
            } else {
                None
            },
        }
    }

    /// The state after the bar was used: picking a page ends the slideshow.
    pub open spec fn progress_used(
        self,
        bar: ProgressBar,
        input: ProgressInput,
        show_pending: bool,
    ) -> ViewerModel {
        ViewerModel {
            ui: ViewerUiRuntimeState {
                last_pending_visual_state: self.progress_visual(bar, input, show_pending),
                ..self.ui
            },
            playback: if self.picked_page(bar, input) is Some {
                slideshow_stopped(self.playback)
            } else {
                self.playback
            },
            ..self
        }
    }
}

impl ViewerState {
    /// The pages that a screen is named by; none while the page count is not known.
    pub fn build_page_label_at(&self, view: u32) -> (label: Option<String>)
        requires
            self.wf(),
        ensures
            text_of(label) == self@.pages_text(view),
    {
        if self.persistent.page_count == 0 {
            return None;
        }
        if self.is_leading_cover_blank_spread(view) && self.persistent.page_count > 1 {
            return Some("1-2".to_owned());
        }
        let label: String = match self.current_view_pages(view) {
            (None, Some(right)) => page_number(right),
            (Some(left), None) => page_number(left),
            (Some(left), Some(right)) => {
                let mut label: String = page_number(left);
                label.append("-");
                label.append(page_number(right).as_str());
                label
            },
            (None, None) => "…".to_owned(),
        };
        Some(label)
    }

    pub fn build_page_label(&self) -> (label: Option<String>)
        requires
            self.wf(),
        ensures
            text_of(label) == self@.pages_text(self@.persistent.displayed_page),
    {
        self.build_page_label_at(self.persistent.displayed_page)
    }

    pub fn build_page_label_ui(&self) -> (label: Option<String>)
        requires
            self.wf(),
        ensures
            text_of(label) == self@.pages_text(
                if self@.has_pending_target() {
                    self@.persistent.target_page
                } else {
                    self@.persistent.displayed_page
                },
            ),
    {
        if self.has_pending_target() {
            self.build_page_label_at(self.nav_target())
        } else {
            self.build_page_label()
        }
    }

    /// The bar before it is used; none where the book has a single page or none is known.
    pub fn page_progress_bar(&self) -> (bar: Option<ProgressBar>)
        requires
            self.wf(),
        ensures
            bar == self@.progress_bar(),
    {
        if self.persistent.page_count <= 1 {
            return None;
        }
        let max_page: u32 = self.persistent.page_count - 1;
        let selected_page: u32 = min_u32(self.nav_target(), max_page);
        let (left, right): (Option<u32>, Option<u32>) = self.current_view_pages(
            self.persistent.displayed_page,
        );
        Some(
            ProgressBar {
                max_page,
                selected_page,
                selected_visual_page: visual_page_from_physical(
                    selected_page,
                    max_page,
                    self.effective_reading_direction(),
                ),
                last_page_visible: left == Some(max_page) || right == Some(max_page),
            },
        )
    }

    /// Acts on the use of the bar.
    pub fn use_page_progress_bar(
        &mut self,
        bar: ProgressBar,
        input: ProgressInput,
        show_pending: bool,
    ) -> (outcome: ProgressOutcome)
        requires
            old(self).wf(),
        ensures
            final(self).wf(),
            final(self)@ == old(self)@.progress_used(bar, input, show_pending),
            outcome.filled_page == old(self)@.filled_page(bar, input),
            text_of(outcome.label) == old(self)@.progress_label(bar, input, show_pending),
            outcome.new_view == old(self)@.picked_page(bar, input),
    {
        let direction: ReadingDirection = self.effective_reading_direction();
        let page: u32 = physical_page_from_visual(input.visual_page, bar.max_page, direction);
        let filled_page: u32 = if input.dragged || input.committed {
            page
        } else if bar.last_page_visible {
            bar.max_page
        } else {
            bar.selected_page
        };
        let fraction_page: u32 = match direction {
            ReadingDirection::RightToLeft => page,
            ReadingDirection::LeftToRight => input.visual_page,
        };
        let fraction: Option<u16> = if input.dragged {
            Some(drag_fraction_milli(fraction_page, bar.max_page))
        } else {
            None
        };
        let label: Option<String> = if show_pending {
            Some(page_number(page))
        } else {
            self.build_page_label_ui()
        };
        let visual: PendingVisualState = self.pending_visual_state_for_progress(
            show_pending,
            input.hovered,
            input.dragged,
            fraction,
        );
        let _ = self.update_pending_visual_state(visual);
        let new_view: Option<u32> = if input.committed && page != self.nav_target() {
            self.stop_slideshow();
            Some(page)
        } else {
            None
        };
        ProgressOutcome { filled_page, label, new_view }
    }
}

/// The bar runs from the first page to the last: a thousandth is counted for each thousandth of the
/// way, rounded down, none at the first page and all at the last.
pub proof fn law_fractions_run_along_the_bar(page: u32, later: u32, max_page: u32)
    requires
        page <= later <= max_page,
        max_page > 0,
    ensures
        fraction_milli(page, max_page) <= fraction_milli(later, max_page),
        fraction_milli(0, max_page) == 0,
        fraction_milli(max_page, max_page) == 1000,
        fraction_milli(page, max_page) * max_page <= page * 1000,
        page * 1000 < (fraction_milli(page, max_page) + 1) * max_page,
{
    let m = max_page as int;
    assert(m * 1000 / m == 1000) by (nonlinear_arith)
        requires
            m > 0,
    ;
    assert(page * 1000 / m <= later * 1000 / m) by (nonlinear_arith)
        requires
            page <= later,
            m > 0,
    ;
    assert(later * 1000 / m <= 1000) by (nonlinear_arith)
        requires
            later <= m,
            m > 0,
    ;
    let q = page * 1000 / m;
    assert(q * m <= page * 1000 < (q + 1) * m) by (nonlinear_arith)
        requires
            q == page * 1000 / m,
            m > 0,
    ;
    assert(0int * 1000 / m == 0) by (nonlinear_arith)
        requires
            m > 0,
    ;
}

/// There is a bar for books of two pages or more. It ends at the last page, and its handle stands at
/// the page that input led to; whether the last page is on screen is told too.
pub proof fn law_bars_are_for_books_of_several_pages(model: ViewerModel)
    ensures
        model.progress_bar() is None <==> model.persistent.page_count <= 1,
        model.progress_bar() matches Some(bar) ==> {
            &&& bar.max_page + 1 == model.persistent.page_count
            &&& model.persistent.target_page <= bar.max_page ==> bar.selected_page
                == model.persistent.target_page
            &&& bar.selected_page <= bar.max_page
            &&& model.reading_direction() == ReadingDirection::LeftToRight
                ==> bar.selected_visual_page == bar.selected_page
            &&& model.reading_direction() == ReadingDirection::RightToLeft
                ==> bar.selected_visual_page + bar.selected_page == bar.max_page
            &&& model.persistent.spread_setting == SpreadMode::Single
                && model.persistent.displayed_page <= bar.max_page ==> (bar.last_page_visible
                <==> model.persistent.displayed_page == bar.max_page)
        },
{
}

/// A page is picked when the handle is let go on a page that input does not lead to already; until
/// then the bar is filled up to the handle while it is dragged.
pub proof fn law_pages_are_picked_once(model: ViewerModel, bar: ProgressBar, input: ProgressInput)
    requires
        input.visual_page <= bar.max_page,
    ensures
        ({
            let page = if model.reading_direction() == ReadingDirection::RightToLeft {
                bar.max_page - input.visual_page
            } else {
                input.visual_page as int
            };
            &&& model.picked_page(bar, input) matches Some(picked) ==> picked == page
                && input.committed && picked != model.persistent.target_page
            &&& input.committed && page != model.persistent.target_page ==> model.picked_page(
                bar,
                input,
            ) == Some(page as u32)
            &&& input.dragged || input.committed ==> model.filled_page(bar, input) == page
            &&& !input.dragged && !input.committed && bar.last_page_visible ==> model.filled_page(
                bar,
                input,
            ) == bar.max_page
            &&& !input.dragged && !input.committed && !bar.last_page_visible
                ==> model.filled_page(bar, input) == bar.selected_page
        }),
        model.picked_page(bar, input) is Some ==> !model.progress_used(
            bar,
            input,
            false,
        ).playback.slideshow_active,
        model.picked_page(bar, input) is None ==> model.progress_used(bar, input, false).playback
            == model.playback,
        model.progress_used(bar, input, false).persistent == model.persistent,
{
}

/// Pages are named by their numbers from one on; two pages by both, and the cover with a blank page
/// by the two places it takes.
pub proof fn law_screens_are_named_by_their_pages(model: ViewerModel, view: u32)
    requires
        view < model.persistent.page_count,
    ensures
        model.display_pages(view) matches (Some(left), None) && !(model.persistent.cover_blank
            && view == 0) ==> model.pages_text(view) == Some(
            decimal((model.display_pages(view).0->0 + 1) as nat),
        ),
        model.display_pages(view) matches (Some(left), Some(right)) ==> model.pages_text(view)
            == Some(
            decimal((model.display_pages(view).0->0 + 1) as nat) + "-"@ + decimal(
                (model.display_pages(view).1->0 + 1) as nat,
            ),
        ),
        model.persistent.cover_blank && view == 0 && model.persistent.page_count > 1
            && model.persistent.spread_setting != SpreadMode::Single ==> model.pages_text(view)
            == Some("1-2"@),
{
}

/// Nothing is named while the page count is not known.
pub proof fn law_nothing_is_named_without_a_count(model: ViewerModel, view: u32)
    requires
        model.persistent.page_count == 0,
    ensures
        model.pages_text(view) is None,
{
}

/// What stands beside the bar is the screen that input leads to while it is not shown yet, the page
/// of the handle under a placeholder, and else the screen that is shown.
pub proof fn law_labels_name_where_reading_goes(
    model: ViewerModel,
    bar: ProgressBar,
    input: ProgressInput,
)
    ensures
        model.persistent.target_page != model.persistent.displayed_page ==> model.progress_label(
            bar,
            input,
            false,
        ) == model.pages_text(model.persistent.target_page),
        model.persistent.target_page == model.persistent.displayed_page ==> model.progress_label(
            bar,
            input,
            false,
        ) == model.pages_text(model.persistent.displayed_page),
        model.reading_direction() == ReadingDirection::LeftToRight ==> model.progress_label(
            bar,
            input,
            true,
        ) == Some(decimal((input.visual_page + 1) as nat)),
{
}

/// A range is marked on the bar between the places of its ends, a start alone at its own place.
pub proof fn law_ranges_are_marked_by_places(start: u32, end: u32, max_page: u32)
    requires
        start <= end <= max_page,
    ensures
        ({
            let range = ViewerDeleteRangeSelection { start: Some(start), end: Some(end) };
            let open = ViewerDeleteRangeSelection { start: Some(start), end: None };
            &&& mark_of(range, max_page, ReadingDirection::LeftToRight) == (ProgressMark::Range {
                left: start,
                right: end,
            })
            &&& mark_of(range, max_page, ReadingDirection::RightToLeft) == (ProgressMark::Range {
                left: (max_page - end) as u32,
                right: (max_page - start) as u32,
            })
            &&& mark_of(open, max_page, ReadingDirection::LeftToRight) == (ProgressMark::Start {
                visual_page: start,
            })
            &&& mark_of(open, max_page, ReadingDirection::RightToLeft) == (ProgressMark::Start {
                visual_page: (max_page - start) as u32,
            })
            &&& mark_of(
                ViewerDeleteRangeSelection { start: None, end: None },
                max_page,
                ReadingDirection::LeftToRight,
            ) == ProgressMark::Nothing
        }),
{
}

} // verus!
