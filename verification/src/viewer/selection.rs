//! The range of pages that is marked for deletion, and the title of the screen.
use vstd::prelude::*;
use vstd::string::*;

use super::state::{
    no_pages_selected, ViewerDeleteRangeSelection, ViewerModel, ViewerState, ViewerUiRuntimeState,
};
use crate::domain::ReadingDirection;
use crate::num::{greatest, least, max_u32, min_u32};
use crate::text::texts;
use crate::util::path_text::text_of;

verus! {

impl Default for ViewerDeleteRangeSelection {
    fn default() -> (selection: Self)
        ensures
            selection == no_pages_selected(),
    {
        ViewerDeleteRangeSelection { start: None, end: None }
    }
}

impl ViewerDeleteRangeSelection {
    /// The same pages, the first of them first.
    pub open spec fn in_order(self) -> ViewerDeleteRangeSelection {
        match (self.start, self.end) {
            (Some(a), Some(b)) => ViewerDeleteRangeSelection {
                start: Some(least(a as int, b as int) as u32),
                end: Some(greatest(a as int, b as int) as u32),
            },
            _ => self,
        }
    }

    pub open spec fn complete(self) -> bool {
        self.start is Some && self.end is Some
    }

    /// Whether a page is marked.
    pub open spec fn covers(self, page: u32) -> bool {
        self.complete() && self.in_order().start->0 <= page <= self.in_order().end->0
    }

    /// The range from its start, or from `page` where it has none, to `page`.
    pub open spec fn ended_at(self, page: u32) -> ViewerDeleteRangeSelection {
        ViewerDeleteRangeSelection {
            start: Some(
                match self.start {
                    Some(start) => start,
                    None => page,
                },
            ),
            end: Some(page),
        }.in_order()
    }

    /// A mark at `page`: the end of a range that has a start only, else the start of another.
    pub open spec fn marked(self, page: u32) -> ViewerDeleteRangeSelection {
        if self.start is Some && self.end is None {
            self.ended_at(page)
        } else {
            ViewerDeleteRangeSelection { start: Some(page), end: None }
        }
    }

    pub fn normalized(self) -> (selection: Self)
        ensures
            selection == self.in_order(),
    {
        match (self.start, self.end) {
            (Some(a), Some(b)) => ViewerDeleteRangeSelection {
                start: Some(min_u32(a, b)),
                end: Some(max_u32(a, b)),
            },
            _ => self,
        }
    }

    pub fn has_any(self) -> (any: bool)
        ensures
            any == (self.start is Some || self.end is Some),
    {
        self.start.is_some() || self.end.is_some()
    }

    pub fn is_complete(self) -> (complete: bool)
        ensures
            complete == self.complete(),
    {
        self.start.is_some() && self.end.is_some()
    }
}

/// Putting a range in order a second time changes nothing, and its start is no later than its
/// end.
pub proof fn law_ranges_are_in_order(selection: ViewerDeleteRangeSelection)
    ensures
        selection.in_order().in_order() == selection.in_order(),
        selection.complete() ==> selection.in_order().start->0 <= selection.in_order().end->0,
        selection.in_order().complete() == selection.complete(),
{
}

/// Two marks make a range that holds both pages, whichever comes first, and the next mark starts
/// over.
pub proof fn law_two_marks_make_a_range(a: u32, b: u32, c: u32)
    ensures
        ({
            let range = no_pages_selected().marked(a).marked(b);
            &&& range.covers(a) && range.covers(b)
            &&& range == no_pages_selected().marked(b).marked(a)
            &&& range.marked(c) == no_pages_selected().marked(c)
        }),
{
}

impl ViewerModel {
    pub open spec fn with_delete_range(self, delete_range: ViewerDeleteRangeSelection) ->
        ViewerModel {
        ViewerModel { delete_range, ..self }
    }

    /// The label of a page, where the book has one.
    pub open spec fn page_label(self, page: Option<u32>) -> Option<Seq<char>> {
        match page {
            Some(page) => if page < self.book.page_display_labels@.len() {
                Some(self.book.page_display_labels@[page as int]@)
            } else {
                None
            },
            None => None,
        }
    }

    /// The label of one side of a spread.
    pub open spec fn slot_label(self, page: Option<u32>, is_blank: bool, blank: Seq<char>) -> Option<
        Seq<char>,
    > {
        match self.page_label(page) {
            Some(label) => Some(label),
            None => if is_blank {
                Some(blank)
            } else {
                None
            },
        }
    }

    /// The title of the screen: the label of its page, or those of both sides as they stand on
    /// screen. None where a label is missing.
    pub open spec fn title(self, blank: Seq<char>) -> Option<Seq<char>> {
        let page = self.persistent.displayed_page;
        let (left, right) = self.display_pages(page);
        let blank_side = self.leading_blank(page);
        if left is None && right is None {
            None
        } else if !self.persistent.spread_mode && !(left is Some && right is Some) && !blank_side {
            self.page_label(
                if left is Some {
                    left
                } else {
                    right
                },
            )
        } else {
            let rtl = self.reading_direction() == ReadingDirection::RightToLeft;
            let screen_left = if rtl {
                right
            } else {
                left
            };
            let screen_right = if rtl {
                left
            } else {
                right
            };
            match (
                self.slot_label(screen_left, blank_side && rtl, blank),
                self.slot_label(screen_right, blank_side && !rtl, blank),
            ) {
                (Some(first), Some(second)) => Some(first + " / "@ + second),
                _ => None,
            }
        }
    }

    /// The names of the marked pages; none where the range is not complete or leaves the book.
    pub open spec fn marked_names(self) -> Option<Seq<Seq<char>>> {
        let range = self.delete_range.in_order();
        match (range.start, range.end) {
            (Some(start), Some(end)) => if end < self.book.page_entry_names@.len() {
                Some(texts(self.book.page_entry_names@).subrange(start as int, end + 1))
            } else {
                None
            },
            _ => None,
        }
    }

    /// Whether no page would be left.
    pub open spec fn marks_all_pages(self) -> bool {
        let range = self.delete_range.in_order();
        let total = if self.book.page_entry_names@.len() == 0 {
            self.persistent.page_count as int
        } else {
            self.book.page_entry_names@.len() as int
        };
        range.complete() && total > 0 && least(
            range.end->0 - range.start->0 + 1,
            u32::MAX as int,
        ) >= total
    }
}

impl ViewerState {
    pub fn delete_range_selection(&self) -> (selection: ViewerDeleteRangeSelection)
        ensures
            selection == self@.delete_range.in_order(),
    {
        self.delete_range_selection.normalized()
    }

    pub fn set_delete_range_context_menu_target_page(&mut self, page: Option<u32>)
        requires
            old(self).wf(),
        ensures
            final(self).wf(),
            final(self)@ == (ViewerModel {
                ui: ViewerUiRuntimeState {
                    delete_range_context_menu_target_page: page,
                    ..old(self)@.ui
                },
                ..old(self)@
            }),
    {
        reveal(ViewerState::wf);
        self.ui_runtime.delete_range_context_menu_target_page = page;
    }

    pub fn delete_range_context_menu_target_page(&self) -> (page: Option<u32>)
        ensures
            page == self@.ui.delete_range_context_menu_target_page,
    {
        self.ui_runtime.delete_range_context_menu_target_page
    }

    pub fn delete_range_clear(&mut self)
        requires
            old(self).wf(),
        ensures
            final(self).wf(),
            final(self)@ == old(self)@.with_delete_range(no_pages_selected()),
    {
        reveal(ViewerState::wf);
        self.delete_range_selection = ViewerDeleteRangeSelection::default();
    }

    pub fn delete_range_set_start(&mut self, page: u32)
        requires
            old(self).wf(),
        ensures
            final(self).wf(),
            final(self)@ == old(self)@.with_delete_range(
                ViewerDeleteRangeSelection { start: Some(page), end: None },
            ),
    {
        reveal(ViewerState::wf);
        self.delete_range_selection = ViewerDeleteRangeSelection { start: Some(page), end: None };
    }

    pub fn delete_range_set_end(&mut self, page: u32)
        requires
            old(self).wf(),
        ensures
            final(self).wf(),
            final(self)@ == old(self)@.with_delete_range(old(self)@.delete_range.ended_at(page)),
    {
        reveal(ViewerState::wf);
        let start: u32 = match self.delete_range_selection.start {
            Some(start) => start,
            None => page,
        };
        self.delete_range_selection = ViewerDeleteRangeSelection {
            start: Some(min_u32(start, page)),
            end: Some(max_u32(start, page)),
        };
    }

    pub fn delete_range_restart_from_current(&mut self, page: u32)
        requires
            old(self).wf(),
        ensures
            final(self).wf(),
            final(self)@ == old(self)@.with_delete_range(
                ViewerDeleteRangeSelection { start: Some(page), end: None },
            ),
    {
        self.delete_range_set_start(page);
    }

    /// Marks a page: a second mark completes the range, a third starts over.
    pub fn delete_range_mark_current(&mut self, page: u32)
        requires
            old(self).wf(),
        ensures
            final(self).wf(),
            final(self)@ == old(self)@.with_delete_range(old(self)@.delete_range.marked(page)),
    {
        let selection: ViewerDeleteRangeSelection = self.delete_range_selection();
        match (selection.start, selection.end) {
            (Some(_), None) => self.delete_range_set_end(page),
            (Some(_), Some(_)) => self.delete_range_restart_from_current(page),
            _ => self.delete_range_set_start(page),
        }
    }

    pub fn delete_range_entry_names(&self) -> (names: Option<Vec<String>>)
        ensures
            names is Some <==> self@.marked_names() is Some,
            names matches Some(names) ==> texts(names@) == self@.marked_names()->0,
    {
        let selection: ViewerDeleteRangeSelection = self.delete_range_selection();
        let (start, end): (u32, u32) = match (selection.start, selection.end) {
            (Some(start), Some(end)) => (start, end),
            _ => {
                return None;
            },
        };
        if end as usize >= self.book.page_entry_names.len() {
            return None;
        }
        let ghost all = texts(self.book.page_entry_names@);
        let mut names: Vec<String> = Vec::new();
        let mut page: usize = start as usize;
        let count: usize = self.book.page_entry_names.len();
        assert(texts(names@) =~= all.subrange(start as int, start as int));
        while page <= end as usize
            invariant
                start <= page <= end + 1,
                end < count == self.book.page_entry_names@.len(),
                all == texts(self.book.page_entry_names@),
                texts(names@) == all.subrange(start as int, page as int),
            decreases end + 1 - page,
        {
            let ghost before = names@;
            names.push(self.book.page_entry_names[page].clone());
            assert(all[page as int] == self.book.page_entry_names@[page as int]@);
            assert(texts(names@) =~= texts(before).push(all[page as int]));
            page = page + 1;
            assert(all.subrange(start as int, page as int) =~= all.subrange(
                start as int,
                page - 1,
            ).push(all[page - 1]));
        }
        Some(names)
    }

    pub fn delete_range_would_remove_all_pages(&self) -> (all: bool)
        ensures
            all == self@.marks_all_pages(),
    {
        let selection: ViewerDeleteRangeSelection = self.delete_range_selection();
        let (start, end): (u32, u32) = match (selection.start, selection.end) {
            (Some(start), Some(end)) => (start, end),
            _ => {
                return false;
            },
        };
        let selected: usize = end.saturating_sub(start).saturating_add(1) as usize;
        let total: usize = if self.book.page_entry_names.len() == 0 {
            self.persistent.page_count as usize
        } else {
            self.book.page_entry_names.len()
        };
        total > 0 && selected >= total
    }

    fn page_display_label(&self, page: Option<u32>) -> (label: Option<String>)
        ensures
            text_of(label) == self@.page_label(page),
    {
        match page {
            Some(page) => if (page as usize) < self.book.page_display_labels.len() {
                Some(self.book.page_display_labels[page as usize].clone())
            } else {
                None
            },
            None => None,
        }
    }

    fn toolbar_spread_slot_label(&self, page: Option<u32>, is_blank_slot: bool, blank_label: &str) -> (label:
        Option<String>)
        ensures
            text_of(label) == self@.slot_label(page, is_blank_slot, blank_label@),
    {
        match self.page_display_label(page) {
            Some(label) => Some(label),
            None => if is_blank_slot {
                Some(blank_label.to_owned())
            } else {
                None
            },
        }
    }

    /// The title of the screen.
    pub fn current_toolbar_title(&self, blank_label: &str) -> (title: Option<String>)
        requires
            self.wf(),
        ensures
            text_of(title) == self@.title(blank_label@),
    {
        let page: u32 = self.persistent.displayed_page;
        let (page_left, page_right): (Option<u32>, Option<u32>) = self.current_view_pages(page);
        if page_left.is_none() && page_right.is_none() {
            return None;
        }
        let blank: bool = self.is_leading_cover_blank_spread(page);
        let both: bool = page_left.is_some() && page_right.is_some();
        if !(self.persistent.spread_mode || both || blank) {
            return self.page_display_label(
                if page_left.is_some() {
                    page_left
                } else {
                    page_right
                },
            );
        }
        let rtl: bool = match self.effective_reading_direction() {
            ReadingDirection::RightToLeft => true,
            ReadingDirection::LeftToRight => false,
        };
        let (screen_left, screen_right): (Option<u32>, Option<u32>) = if rtl {
            (page_right, page_left)
        } else {
            (page_left, page_right)
        };
        let left_label: Option<String> = self.toolbar_spread_slot_label(
            screen_left,
            blank && rtl,
            blank_label,
        );
        let right_label: Option<String> = self.toolbar_spread_slot_label(
            screen_right,
            blank && !rtl,
            blank_label,
        );
        match (left_label, right_label) {
            (Some(first), Some(second)) => {
                let mut title: String = first;
                title.append(" / ");
                title.append(second.as_str());
                Some(title)
            },
            _ => None,
        }
    }
}

/// How many pages the book has: those that are named, or as many as it was told.
pub open spec fn book_length(model: ViewerModel) -> int {
    if model.book.page_entry_names@.len() > 0 {
        model.book.page_entry_names@.len() as int
    } else {
        model.persistent.page_count as int
    }
}

/// A page is in a range where it lies between the two marks, both included.
pub proof fn law_ranges_hold_what_lies_between(start: u32, end: u32, page: u32)
    ensures
        (ViewerDeleteRangeSelection { start: Some(start), end: Some(end) }).covers(page) <==> (start
            <= page <= end || end <= page <= start),
{
}

/// A marked range would remove the whole book where every page of the book is in it. A range
/// within the book that leaves a page out would not, and of any range it is told by the number of
/// pages between the marks.
pub proof fn law_whole_book_is_marked(model: ViewerModel, start: u32, end: u32)
    requires
        model.delete_range == (ViewerDeleteRangeSelection { start: Some(start), end: Some(end) }),
        book_length(model) <= u32::MAX,
    ensures
        book_length(model) > 0 && (forall|page: u32|
            page < book_length(model) ==> #[trigger] model.delete_range.covers(page))
            ==> model.marks_all_pages(),
        start < book_length(model) && end < book_length(model) && model.marks_all_pages()
            ==> forall|page: u32|
            page < book_length(model) ==> #[trigger] model.delete_range.covers(page),
        book_length(model) > 0 && start <= end ==> (model.marks_all_pages() <==> end - start + 1
            >= book_length(model)),
        book_length(model) > 0 && end <= start ==> (model.marks_all_pages() <==> start - end + 1
            >= book_length(model)),
        book_length(model) == 0 ==> !model.marks_all_pages(),
{
    let total = book_length(model);
    if total > 0 && (forall|page: u32|
        page < total ==> #[trigger] model.delete_range.covers(page)) {
        assert(model.delete_range.covers(0));
        assert(model.delete_range.covers((total - 1) as u32));
    }
}

/// A range that is not complete removes nothing.
pub proof fn law_open_ranges_remove_nothing(model: ViewerModel)
    requires
        model.delete_range.start is None || model.delete_range.end is None,
    ensures
        !model.marks_all_pages(),
        model.marked_names() is None,
{
}

/// The pages to remove are those between the two marks, both included, by their names and in their
/// order; there are none to name where a mark lies outside the book.
pub proof fn law_marked_pages_are_named(model: ViewerModel, start: u32, end: u32, page: int)
    requires
        model.delete_range == (ViewerDeleteRangeSelection { start: Some(start), end: Some(end) }),
        start <= end,
    ensures
        model.marked_names() is Some <==> end < model.book.page_entry_names@.len(),
        model.marked_names() matches Some(names) ==> names.len() == end - start + 1 && (start
            <= page <= end ==> names[page - start]
            == model.book.page_entry_names@[page]@),
        model.with_delete_range(
            ViewerDeleteRangeSelection { start: Some(end), end: Some(start) },
        ).marked_names() == model.marked_names(),
        model.with_delete_range(
            ViewerDeleteRangeSelection { start: Some(end), end: Some(start) },
        ).marks_all_pages() == model.marks_all_pages(),
{
}

/// A mark starts a range at its page, and the next one ends it: the range runs between the two.
pub proof fn law_marks_bound_the_range(a: u32, b: u32)
    ensures
        ({
            let one = no_pages_selected().marked(a);
            let two = one.marked(b);
            &&& one.start == Some(a) && one.end is None
            &&& a <= b ==> two.start == Some(a) && two.end == Some(b)
            &&& b <= a ==> two.start == Some(b) && two.end == Some(a)
        }),
{
}

/// An end that is set keeps the start, or makes a range of one page where there is none.
pub proof fn law_set_ends_bound_the_range(selection: ViewerDeleteRangeSelection, page: u32)
    ensures
        selection.start is None ==> selection.ended_at(page).start == Some(page)
            && selection.ended_at(page).end == Some(page),
        selection.start matches Some(start) ==> {
            let range = selection.ended_at(page);
            &&& start <= page ==> range.start == Some(start) && range.end == Some(page)
            &&& page <= start ==> range.start == Some(page) && range.end == Some(start)
        },
{
}

/// The title of a single page is its label, and that of a spread names both sides as they stand on
/// screen: read from right to left the second page first.
pub proof fn law_titles_name_the_pages_on_screen(model: ViewerModel, blank: Seq<char>)
    requires
        model.display_pages(model.persistent.displayed_page) matches (Some(left), Some(right))
            && left < model.book.page_display_labels@.len() && right
            < model.book.page_display_labels@.len(),
    ensures
        ({
            let (left, right) = model.display_pages(model.persistent.displayed_page);
            let first = model.book.page_display_labels@[left->0 as int]@;
            let second = model.book.page_display_labels@[right->0 as int]@;
            &&& model.reading_direction() == ReadingDirection::LeftToRight ==> model.title(blank)
                == Some(first + " / "@ + second)
            &&& model.reading_direction() == ReadingDirection::RightToLeft ==> model.title(blank)
                == Some(second + " / "@ + first)
        }),
{
}

/// A page without a label leaves the title out.
pub proof fn law_single_pages_are_titled_by_their_label(model: ViewerModel, blank: Seq<char>)
    requires
        model.persistent.spread_setting == crate::domain::SpreadMode::Single,
        !model.persistent.spread_mode,
        model.persistent.displayed_page < model.persistent.page_count,
    ensures
        model.persistent.displayed_page < model.book.page_display_labels@.len() ==> model.title(
            blank,
        ) == Some(model.book.page_display_labels@[model.persistent.displayed_page as int]@),
        model.persistent.displayed_page >= model.book.page_display_labels@.len() ==> model.title(
            blank,
        ) is None,
{
}

} // verus!
