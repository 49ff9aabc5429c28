//! What is drawn over and beside the pages: which page stands on which side, the marks of a range
//! to delete, and the help for keys.
use vstd::prelude::*;
use vstd::string::*;

use super::frame::ViewerUiCapabilities;
use super::gpu_texture_history::{count_events, counted};
use super::page_content::{PageContent, StreamFrame, Tick, STILL_WAIT};
use super::state::{
    BoundaryPreviewDirection, ViewerDeleteRangeSelection, ViewerEffect, ViewerModel, ViewerState,
};
use super::texture_entries::TextureRef;
use crate::domain::{ReadingDirection, SpreadMode};
use crate::num::{greatest, least, max_u32, min_u32};
use crate::text::{decimal, decimal_text, join, joined, texts};
use crate::util::path_text::text_of;

verus! {

/// What stands on one side of the screen.
#[derive(Clone, Copy, Debug, PartialEq, Eq, Structural)]
pub enum SlotSource {
    Empty,
    /// The blank page opposite the cover.
    Blank,
    /// The content of the first page.
    First,
    /// The content of the second page.
    Second,
}

/// How a page is marked while a range to delete is chosen.
#[derive(Clone, Copy, Debug, PartialEq, Eq, Structural)]
pub enum DeleteRangeImageOverlayKind {
    Start,
    Selecting,
    Complete,
}

/// One side of the screen, as it is drawn.
#[derive(Clone, Copy, Debug, PartialEq, Eq, Structural)]
pub struct DrawSlot {
    pub source: SlotSource,
    pub mark: Option<DeleteRangeImageOverlayKind>,
}

/// A screen, as it is drawn: a single page stands on the left alone.
#[derive(Clone, Copy, Debug, PartialEq, Eq)]
pub struct DrawPlan {
    pub left: DrawSlot,
    pub right: DrawSlot,
    /// The sizes that the two sides are laid out by.
    pub left_size: Option<(usize, usize)>,
    pub right_size: Option<(usize, usize)>,
    /// Which of the two contents come on screen.
    pub ticks_first: bool,
    pub ticks_second: bool,
}

pub open spec fn page_bounds(pages: (Option<u32>, Option<u32>)) -> Option<(u32, u32)> {
    match pages {
        (Some(left), Some(right)) => Some(
            (
                least(left as int, right as int) as u32,
                greatest(left as int, right as int) as u32,
            ),
        ),
        (Some(page), None) => Some((page, page)),
        (None, Some(page)) => Some((page, page)),
        (None, None) => None,
    }
}

pub fn visible_page_bounds(visible_pages: (Option<u32>, Option<u32>)) -> (bounds: Option<
    (u32, u32),
>)
    ensures
        bounds == page_bounds(visible_pages),
{
    match visible_pages {
        (Some(left), Some(right)) => Some((min_u32(left, right), max_u32(left, right))),
        (Some(page), None) => Some((page, page)),
        (None, Some(page)) => Some((page, page)),
        (None, None) => None,
    }
}

pub open spec fn screen_pages(
    pages: (Option<u32>, Option<u32>),
    direction: ReadingDirection,
) -> (Option<u32>, Option<u32>) {
    match direction {
        ReadingDirection::RightToLeft => (pages.1, pages.0),
        ReadingDirection::LeftToRight => pages,
    }
}

pub fn spread_screen_pages(
    visible_pages: (Option<u32>, Option<u32>),
    reading_direction: ReadingDirection,
) -> (pages: (Option<u32>, Option<u32>))
    ensures
        pages == screen_pages(visible_pages, reading_direction),
{
    match reading_direction {
        ReadingDirection::RightToLeft => (visible_pages.1, visible_pages.0),
        ReadingDirection::LeftToRight => visible_pages,
    }
}

/// The mark of a page: within a complete range, or between its start and the screen while the
/// end is still to be chosen.
pub open spec fn overlay_for(
    selection: ViewerDeleteRangeSelection,
    bounds: Option<(u32, u32)>,
    page: u32,
    is_blank_slot: bool,
) -> Option<DeleteRangeImageOverlayKind> {
    if is_blank_slot {
        None
    } else {
        match (selection.start, selection.end) {
            (Some(start), Some(end)) => if least(start as int, end as int) <= page && page
                <= greatest(start as int, end as int) {
                Some(DeleteRangeImageOverlayKind::Complete)
            } else {
                None
            },
            (Some(start), None) => match bounds {
                Some((first, last)) => if least(start as int, first as int) <= page && page
                    <= greatest(start as int, last as int) {
                    Some(
                        if page == start {
                            DeleteRangeImageOverlayKind::Start
                        } else {
                            DeleteRangeImageOverlayKind::Selecting
                        },
                    )
                } else {
                    None
                },
                None => None,
            },
            _ => None,
        }
    }
}

pub fn delete_range_overlay_for_page(
    selection: ViewerDeleteRangeSelection,
    visible_page_bounds: Option<(u32, u32)>,
    page: u32,
    is_blank_slot: bool,
) -> (overlay: Option<DeleteRangeImageOverlayKind>)
    ensures
        overlay == overlay_for(selection, visible_page_bounds, page, is_blank_slot),
{
    if is_blank_slot {
        return None;
    }
    match (selection.start, selection.end) {
        (Some(start), Some(end)) => if min_u32(start, end) <= page && page <= max_u32(start, end) {
            Some(DeleteRangeImageOverlayKind::Complete)
        } else {
            None
        },
        (Some(start), None) => match visible_page_bounds {
            Some((first, last)) => if min_u32(start, first) <= page && page <= max_u32(
                start,
                last,
            ) {
                if page == start {
                    Some(DeleteRangeImageOverlayKind::Start)
                } else {
                    Some(DeleteRangeImageOverlayKind::Selecting)
                }
            } else {
                None
            },
            None => None,
        },
        _ => None,
    }
}

/// A page number in a mark, such as `12p`.
pub open spec fn marked_page_text(page: u32) -> Seq<char> {
    decimal(least(page + 1, u32::MAX as int) as nat) + "p"@
}

pub fn format_delete_range_page_number(page: u32) -> (text: String)
    ensures
        text@ == marked_page_text(page),
{
    let mut text: String = decimal_text(page.saturating_add(1) as u128);
    text.append("p");
    text
}

/// What a mark says.
pub open spec fn overlay_text(
    selection: ViewerDeleteRangeSelection,
    overlay: DeleteRangeImageOverlayKind,
) -> Seq<char> {
    match (overlay, selection.start, selection.end) {
        (DeleteRangeImageOverlayKind::Start, Some(start), _) => "Delete Range: Start "@
            + marked_page_text(start),
        (DeleteRangeImageOverlayKind::Selecting, Some(start), _) => "Delete Range: Start "@
            + marked_page_text(start) + " …"@,
        (DeleteRangeImageOverlayKind::Complete, Some(start), Some(end)) => "Delete Range: "@
            + marked_page_text(start) + " - "@ + marked_page_text(end),
        _ => Seq::empty(),
    }
}

pub fn delete_range_overlay_text(
    selection: ViewerDeleteRangeSelection,
    overlay: DeleteRangeImageOverlayKind,
) -> (text: String)
    ensures
        text@ == overlay_text(selection, overlay),
{
    match (overlay, selection.start, selection.end) {
        (DeleteRangeImageOverlayKind::Start, Some(start), _) => {
            let mut text: String = "Delete Range: Start ".to_owned();
            text.append(format_delete_range_page_number(start).as_str());
            text
        },
        (DeleteRangeImageOverlayKind::Selecting, Some(start), _) => {
            let mut text: String = "Delete Range: Start ".to_owned();
            text.append(format_delete_range_page_number(start).as_str());
            text.append(" …");
            text
        },
        (DeleteRangeImageOverlayKind::Complete, Some(start), Some(end)) => {
            let mut text: String = "Delete Range: ".to_owned();
            text.append(format_delete_range_page_number(start).as_str());
            text.append(" - ");
            text.append(format_delete_range_page_number(end).as_str());
            text
        },
        _ => String::new(),
    }
}

/// Every page of a complete range is marked, and no other.
pub proof fn law_complete_ranges_are_marked(
    selection: ViewerDeleteRangeSelection,
    bounds: Option<(u32, u32)>,
    page: u32,
)
    requires
        selection.complete(),
    ensures
        overlay_for(selection, bounds, page, false) is Some <==> selection.covers(page),
{
}

impl ViewerModel {
    pub open spec fn first_size(self) -> Option<(usize, usize)> {
        match self.content_left {
            Some(content) => Some((content.shown_texture().width, content.shown_texture().height)),
            None => None,
        }
    }

    pub open spec fn second_size(self) -> Option<(usize, usize)> {
        match self.content_right {
            Some(content) => Some((content.shown_texture().width, content.shown_texture().height)),
            None => None,
        }
    }

    /// The mark of the page on one side.
    pub open spec fn mark_for(self, page: Option<u32>) -> Option<DeleteRangeImageOverlayKind> {
        let pages = self.display_pages(self.persistent.displayed_page);
        match page {
            Some(page) => overlay_for(
                self.delete_range.in_order(),
                page_bounds(pages),
                page,
                false,
            ),
            None => None,
        }
    }

    /// The side that shows the first page: its content, or the blank page where a cover is not
    /// there yet.
    pub open spec fn first_slot(self, page: Option<u32>) -> DrawSlot {
        let blank = self.leading_blank(self.persistent.displayed_page);
        if self.content_left is Some {
            DrawSlot { source: SlotSource::First, mark: self.mark_for(page) }
        } else if blank {
            DrawSlot { source: SlotSource::Blank, mark: None }
        } else {
            DrawSlot { source: SlotSource::Empty, mark: None }
        }
    }

    /// The side that shows the second page: the blank page opposite a cover.
    pub open spec fn second_slot(self, page: Option<u32>) -> DrawSlot {
        let blank = self.leading_blank(self.persistent.displayed_page);
        if blank {
            DrawSlot { source: SlotSource::Blank, mark: None }
        } else if self.content_right is Some {
            DrawSlot { source: SlotSource::Second, mark: self.mark_for(page) }
        } else {
            DrawSlot { source: SlotSource::Empty, mark: None }
        }
    }

    /// The size that both sides are laid out by when a blank page stands opposite the cover.
    pub open spec fn cover_size(self) -> Option<(usize, usize)> {
        match self.first_size() {
            Some(size) => Some(size),
            None => self.second_size(),
        }
    }

    /// The screen as it is drawn.
    pub open spec fn draw_plan(self, effective_spread: bool) -> DrawPlan {
        let pages = self.display_pages(self.persistent.displayed_page);
        let blank = self.leading_blank(self.persistent.displayed_page);
        if effective_spread {
            let first = self.first_slot(pages.0);
            let second = self.second_slot(pages.1);
            let rtl = self.reading_direction() == ReadingDirection::RightToLeft;
            DrawPlan {
                left: if rtl {
                    second
                } else {
                    first
                },
                right: if rtl {
                    first
                } else {
                    second
                },
                left_size: if blank {
                    self.cover_size()
                } else if rtl {
                    self.second_size()
                } else {
                    self.first_size()
                },
                right_size: if blank {
                    self.cover_size()
                } else if rtl {
                    self.first_size()
                } else {
                    self.second_size()
                },
                ticks_first: self.content_left is Some,
                ticks_second: !blank && self.content_right is Some,
            }
        } else {
            DrawPlan {
                left: DrawSlot {
                    source: if self.content_left is Some {
                        SlotSource::First
                    } else {
                        SlotSource::Empty
                    },
                    mark: if self.content_left is Some {
                        self.mark_for(
                            if pages.0 is Some {
                                pages.0
                            } else {
                                pages.1
                            },
                        )
                    } else {
                        None
                    },
                },
                right: DrawSlot { source: SlotSource::Empty, mark: None },
                left_size: self.first_size(),
                right_size: None,
                ticks_first: self.content_left is Some,
                ticks_second: false,
            }
        }
    }

    /// The first content moved on with the clock.
    pub open spec fn first_ticked(self, next: StreamFrame, now: u64) -> ViewerModel {
        match self.content_left {
            Some(content) => {
                let moved = content.ticked(
                    next,
                    self.playback.min_frame_delay_ms,
                    self.next_texture_id,
                    now,
                );
                let ticked = ViewerModel { content_left: Some(moved), ..self };
                if content.turns(now) {
                    ViewerModel {
                        next_texture_id: counted(self.next_texture_id, 1),
                        ..ticked.with_effect(
                            ViewerEffect::UploadFrame {
                                texture: moved.shown_texture(),
                                frame: content.due(),
                                is_left: true,
                            },
                        )
                    }
                } else {
                    ticked
                }
            },
            None => self,
        }
    }

    pub open spec fn second_ticked(self, next: StreamFrame, now: u64) -> ViewerModel {
        match self.content_right {
            Some(content) => {
                let moved = content.ticked(
                    next,
                    self.playback.min_frame_delay_ms,
                    self.next_texture_id,
                    now,
                );
                let ticked = ViewerModel { content_right: Some(moved), ..self };
                if content.turns(now) {
                    ViewerModel {
                        next_texture_id: counted(self.next_texture_id, 1),
                        ..ticked.with_effect(
                            ViewerEffect::UploadFrame {
                                texture: moved.shown_texture(),
                                frame: content.due(),
                                is_left: false,
                            },
                        )
                    }
                } else {
                    ticked
                }
            },
            None => self,
        }
    }
}

fn size_of_content(content: &Option<PageContent>) -> (size: Option<(usize, usize)>)
    ensures
        size == match super::page_content::content_view(*content) {
            Some(content) => Some((content.shown_texture().width, content.shown_texture().height)),
            None => None,
        },
{
    match content {
        Some(content) => {
            let texture: TextureRef = content.texture();
            Some((texture.width, texture.height))
        },
        None => None,
    }
}

impl ViewerState {
    fn mark_for_page(&self, page: Option<u32>) -> (mark: Option<DeleteRangeImageOverlayKind>)
        requires
            self.wf(),
        ensures
            mark == self@.mark_for(page),
    {
        let bounds: Option<(u32, u32)> = visible_page_bounds(
            self.current_view_pages(self.persistent.displayed_page),
        );
        match page {
            Some(page) => delete_range_overlay_for_page(
                self.delete_range_selection(),
                bounds,
                page,
                false,
            ),
            None => None,
        }
    }

    /// Decides how the screen is drawn.
    pub fn plan_pages(&self, effective_spread: bool) -> (plan: DrawPlan)
        requires
            self.wf(),
        ensures
            plan == self@.draw_plan(effective_spread),
    {
        let page: u32 = self.persistent.displayed_page;
        let pages: (Option<u32>, Option<u32>) = self.current_view_pages(page);
        let first_size: Option<(usize, usize)> = size_of_content(
            &self.display_assets.content_left,
        );
        let second_size: Option<(usize, usize)> = size_of_content(
            &self.display_assets.content_right,
        );
        let has_first: bool = self.display_assets.content_left.is_some();
        let has_second: bool = self.display_assets.content_right.is_some();
        if !effective_spread {
            let shown: Option<u32> = if pages.0.is_some() {
                pages.0
            } else {
                pages.1
            };
            let left = if has_first {
                DrawSlot { source: SlotSource::First, mark: self.mark_for_page(shown) }
            } else {
                DrawSlot { source: SlotSource::Empty, mark: None }
            };
            return DrawPlan {
                left,
                right: DrawSlot { source: SlotSource::Empty, mark: None },
                left_size: first_size,
                right_size: None,
                ticks_first: has_first,
                ticks_second: false,
            };
        }
        let blank: bool = self.is_leading_cover_blank_spread(page);
        let first = if has_first {
            DrawSlot { source: SlotSource::First, mark: self.mark_for_page(pages.0) }
        } else if blank {
            DrawSlot { source: SlotSource::Blank, mark: None }
        } else {
            DrawSlot { source: SlotSource::Empty, mark: None }
        };
        let second = if blank {
            DrawSlot { source: SlotSource::Blank, mark: None }
        } else if has_second {
            DrawSlot { source: SlotSource::Second, mark: self.mark_for_page(pages.1) }
        } else {
            DrawSlot { source: SlotSource::Empty, mark: None }
        };
        let cover_size: Option<(usize, usize)> = if has_first {
            first_size
        } else {
            second_size
        };
        let ticks_second: bool = !blank && has_second;
        match self.effective_reading_direction() {
            ReadingDirection::RightToLeft => DrawPlan {
                left: second,
                right: first,
                left_size: if blank {
                    cover_size
                } else {
                    second_size
                },
                right_size: if blank {
                    cover_size
                } else {
                    first_size
                },
                ticks_first: has_first,
                ticks_second,
            },
            ReadingDirection::LeftToRight => DrawPlan {
                left: first,
                right: second,
                left_size: if blank {
                    cover_size
                } else {
                    first_size
                },
                right_size: if blank {
                    cover_size
                } else {
                    second_size
                },
                ticks_first: has_first,
                ticks_second,
            },
        }
    }

    /// Moves the first content on with the clock; tells how long it stays as it is. Of a whole
    /// animation the caller tells the frame behind the present one.
    pub fn tick_first_page(&mut self, next: StreamFrame, now: u64) -> (wait: u64)
        requires
            old(self).wf(),
        ensures
            final(self).wf(),
            final(self)@ == old(self)@.first_ticked(next, now),
            wait == match old(self)@.content_left {
                Some(content) => if content.turns(now) {
                    (final(self)@.content_left->0.next_turn() - now) as u64
                } else {
                    content.wait(now)
                },
                None => STILL_WAIT,
            },
    {
        reveal(ViewerState::wf);
        let id: u64 = self.next_texture_id;
        let min: u32 = self.playback.min_frame_delay_ms;
        let (tick, texture): (Tick, TextureRef) = match &mut self.display_assets.content_left {
            Some(content) => {
                let tick: Tick = content.tick(now, next, min, id);
                (tick, content.texture())
            },
            None => {
                return STILL_WAIT;
            },
        };
        if let Some(frame) = tick.due {
            self.next_texture_id = count_events(id, 1);
            self.outbox.push(ViewerEffect::UploadFrame { texture, frame, is_left: true });
        }
        tick.wait
    }

    pub fn tick_second_page(&mut self, next: StreamFrame, now: u64) -> (wait: u64)
        requires
            old(self).wf(),
        ensures
            final(self).wf(),
            final(self)@ == old(self)@.second_ticked(next, now),
            wait == match old(self)@.content_right {
                Some(content) => if content.turns(now) {
                    (final(self)@.content_right->0.next_turn() - now) as u64
                } else {
                    content.wait(now)
                },
                None => STILL_WAIT,
            },
    {
        reveal(ViewerState::wf);
        let id: u64 = self.next_texture_id;
        let min: u32 = self.playback.min_frame_delay_ms;
        let (tick, texture): (Tick, TextureRef) = match &mut self.display_assets.content_right {
            Some(content) => {
                let tick: Tick = content.tick(now, next, min, id);
                (tick, content.texture())
            },
            None => {
                return STILL_WAIT;
            },
        };
        if let Some(frame) = tick.due {
            self.next_texture_id = count_events(id, 1);
            self.outbox.push(ViewerEffect::UploadFrame { texture, frame, is_left: false });
        }
        tick.wait
    }
}

/// A key padded to its column.
pub open spec fn padded(key: Seq<char>, width: nat) -> Seq<char> {
    if key.len() >= width {
        key
    } else {
        key + Seq::new((width - key.len()) as nat, |i: int| ' ')
    }
}

/// A line of the help: the key in a column of ten, and what it does.
pub open spec fn help_line(key: Seq<char>, action: Seq<char>) -> Seq<char> {
    padded(key, 10) + ": "@ + action
}

pub fn help_row(key: &str, action: &str) -> (row: String)
    ensures
        row@ == help_line(key@, action@),
{
    let mut row: String = key.to_owned();
    let mut n: usize = key.unicode_len();
    let ghost start = key@.len();
    while n < 10
        invariant
            n >= start,
            n == start || n <= 10,
            row@ == key@ + Seq::new((n - start) as nat, |i: int| ' '),
            start == key@.len(),
        decreases 10 - n,
    {
        row.push(' ');
        n = n + 1;
        assert(row@ =~= key@ + Seq::new((n - start) as nat, |i: int| ' '));
    }
    assert(row@ =~= padded(key@, 10));
    row.append(": ");
    row.append(action);
    row
}

/// What the help says of a range to delete.
pub open spec fn range_text(selection: ViewerDeleteRangeSelection) -> Option<Seq<char>> {
    match (selection.start, selection.end) {
        (Some(start), Some(end)) => Some(
            "S="@ + decimal((start + 1) as nat) + " E="@ + decimal((end + 1) as nat),
        ),
        (Some(start), None) => Some("S="@ + decimal((start + 1) as nat)),
        (None, _) => None,
    }
}

pub fn delete_range_text(selection: ViewerDeleteRangeSelection) -> (text: Option<String>)
    ensures
        text_of(text) == range_text(selection),
{
    match (selection.start, selection.end) {
        (Some(start), Some(end)) => {
            let mut text: String = "S=".to_owned();
            text.append(decimal_text(start as u128 + 1).as_str());
            text.append(" E=");
            text.append(decimal_text(end as u128 + 1).as_str());
            Some(text)
        },
        (Some(start), None) => {
            let mut text: String = "S=".to_owned();
            text.append(decimal_text(start as u128 + 1).as_str());
            Some(text)
        },
        (None, _) => None,
    }
}

/// A line, where there is one.
pub open spec fn line_if(shown: bool, line: Seq<char>) -> Seq<Seq<char>> {
    if shown {
        seq![line]
    } else {
        Seq::empty()
    }
}

/// The lines on deletion.
pub open spec fn delete_lines(allowed: bool, range: ViewerDeleteRangeSelection) -> Seq<Seq<char>> {
    if !allowed {
        Seq::empty()
    } else {
        match (range.start, range.end) {
            (None, None) => seq![
                help_line("M"@, "Mark Start"@),
                help_line("Del"@, "Del Book"@),
            ],
            (Some(_), None) => seq![
                help_line("M"@, "Mark End"@),
                help_line("Del"@, "Del Book"@),
            ],
            (Some(_), Some(_)) => seq![
                help_line("M"@, "Restart Range"@),
                help_line("Del"@, "Del Range"@),
            ],
            (None, Some(_)) => Seq::empty(),
        }
    }
}

impl ViewerModel {
    /// The line on the preview of a neighbour.
    pub open spec fn preview_line(self, capabilities: ViewerUiCapabilities) -> Seq<Seq<char>> {
        if self.previews_allowed(capabilities.allow_book_navigation, false)
            && self.preview.complete() {
            seq![
                help_line(
                    "Enter"@,
                    match self.preview.probe()->0.direction {
                        BoundaryPreviewDirection::Previous => "Prev Book"@,
                        BoundaryPreviewDirection::Next => "Next Book"@,
                    },
                ),
            ]
        } else {
            Seq::empty()
        }
    }

    /// The help for keys, line by line.
    pub open spec fn help_lines(self, capabilities: ViewerUiCapabilities) -> Seq<Seq<char>> {
        let range = self.delete_range.in_order();
        seq![help_line("←→ / Wheel"@, "Page"@)] + self.preview_line(capabilities) + line_if(
            capabilities.allow_book_navigation,
            help_line("↑↓"@, "Book"@),
        ) + seq![
            help_line("Home / End"@, "First / Last"@),
            help_line("Space"@, "Slideshow"@),
            help_line("F11"@, "Fullscreen"@),
        ] + delete_lines(capabilities.allow_delete, range) + seq![
            help_line(
                "Esc"@,
                if range.start is Some || range.end is Some {
                    "Clear Range"@
                } else if capabilities.allow_book_navigation {
                    "Library"@
                } else {
                    "Close"@
                },
            ),
        ] + match range_text(range) {
            Some(text) => seq![help_line("Range"@, text)],
            None => Seq::empty(),
        }
    }
}

/// Adds a line to the help.
fn push_row(lines: &mut Vec<String>, key: &str, action: &str)
    ensures
        texts(final(lines)@) == texts(old(lines)@) + seq![help_line(key@, action@)],
{
    let ghost before = lines@;
    lines.push(help_row(key, action));
    assert(texts(lines@) =~= texts(before) + seq![help_line(key@, action@)]);
}

impl ViewerState {
    fn push_preview_row(&self, capabilities: ViewerUiCapabilities, lines: &mut Vec<String>)
        ensures
            texts(final(lines)@) == texts(old(lines)@) + self@.preview_line(capabilities),
    {
        let ghost before = texts(lines@);
        if self.boundary_preview_visible(capabilities.allow_book_navigation, false) {
            if let Some(view) = self.boundary_preview_ready_view() {
                match view.direction {
                    BoundaryPreviewDirection::Previous => push_row(lines, "Enter", "Prev Book"),
                    BoundaryPreviewDirection::Next => push_row(lines, "Enter", "Next Book"),
                }
                return;
            }
        }
        assert(before + Seq::<Seq<char>>::empty() =~= before);
    }

    fn push_delete_rows(
        range: ViewerDeleteRangeSelection,
        allowed: bool,
        lines: &mut Vec<String>,
    )
        ensures
            texts(final(lines)@) == texts(old(lines)@) + delete_lines(allowed, range),
    {
        let ghost before = texts(lines@);
        if allowed {
            match (range.start, range.end) {
                (None, None) => {
                    push_row(lines, "M", "Mark Start");
                    push_row(lines, "Del", "Del Book");
                },
                (Some(_), None) => {
                    push_row(lines, "M", "Mark End");
                    push_row(lines, "Del", "Del Book");
                },
                (Some(_), Some(_)) => {
                    push_row(lines, "M", "Restart Range");
                    push_row(lines, "Del", "Del Range");
                },
                (None, Some(_)) => {},
            }
        }
        assert(texts(lines@) =~= before + delete_lines(allowed, range));
    }

    /// The help for keys.
    pub fn operation_help_text(&self, capabilities: ViewerUiCapabilities) -> (text: String)
        ensures
            text@ == joined(self@.help_lines(capabilities), "\n"@),
    {
        let range: ViewerDeleteRangeSelection = self.delete_range_selection();
        let mut lines: Vec<String> = Vec::new();
        assert(texts(lines@) =~= Seq::empty());
        push_row(&mut lines, "←→ / Wheel", "Page");
        assert(texts(lines@) =~= seq![help_line("←→ / Wheel"@, "Page"@)]);
        self.push_preview_row(capabilities, &mut lines);
        let ghost so_far = texts(lines@);
        if capabilities.allow_book_navigation {
            push_row(&mut lines, "↑↓", "Book");
        }
        assert(texts(lines@) =~= so_far + line_if(
            capabilities.allow_book_navigation,
            help_line("↑↓"@, "Book"@),
        ));
        let ghost so_far = texts(lines@);
        push_row(&mut lines, "Home / End", "First / Last");
        push_row(&mut lines, "Space", "Slideshow");
        push_row(&mut lines, "F11", "Fullscreen");
        assert(texts(lines@) =~= so_far + seq![
            help_line("Home / End"@, "First / Last"@),
            help_line("Space"@, "Slideshow"@),
            help_line("F11"@, "Fullscreen"@),
        ]);
        Self::push_delete_rows(range, capabilities.allow_delete, &mut lines);
        if range.has_any() {
            push_row(&mut lines, "Esc", "Clear Range");
        } else if capabilities.allow_book_navigation {
            push_row(&mut lines, "Esc", "Library");
        } else {
            push_row(&mut lines, "Esc", "Close");
        }
        let ghost so_far = texts(lines@);
        match delete_range_text(range) {
            Some(text) => push_row(&mut lines, "Range", text.as_str()),
            None => {
                assert(so_far + Seq::<Seq<char>>::empty() =~= so_far);
            },
        }
        assert(texts(lines@) =~= self@.help_lines(capabilities));
        join(&lines, "\n")
    }
}

/// What is done on the card of a neighbour.
#[derive(Clone, Copy, Debug, PartialEq, Eq, Structural)]
pub enum BoundaryPreviewCardAction {
    Close,
    PreviousBook,
    NextBook,
}

/// What a click on the card means: the close button goes before the card.
pub fn boundary_preview_card_action(
    direction: BoundaryPreviewDirection,
    close_clicked: bool,
    card_clicked: bool,
) -> (action: Option<BoundaryPreviewCardAction>)
    ensures
        action == if close_clicked {
            Some(BoundaryPreviewCardAction::Close)
        } else if card_clicked {
            Some(
                match direction {
                    BoundaryPreviewDirection::Previous => BoundaryPreviewCardAction::PreviousBook,
                    BoundaryPreviewDirection::Next => BoundaryPreviewCardAction::NextBook,
                },
            )
        } else {
            None
        },
{
    if close_clicked {
        return Some(BoundaryPreviewCardAction::Close);
    }
    if card_clicked {
        return match direction {
            BoundaryPreviewDirection::Previous => Some(BoundaryPreviewCardAction::PreviousBook),
            BoundaryPreviewDirection::Next => Some(BoundaryPreviewCardAction::NextBook),
        };
    }
    None
}

/// Whether the card stands on the right: on the side where the neighbour lies.
pub fn boundary_preview_card_on_the_right(
    reading_direction: ReadingDirection,
    direction: BoundaryPreviewDirection,
) -> (right: bool)
    ensures
        right == ((reading_direction == ReadingDirection::RightToLeft) == (direction
            == BoundaryPreviewDirection::Previous)),
{
    match (reading_direction, direction) {
        (ReadingDirection::RightToLeft, BoundaryPreviewDirection::Previous) => true,
        (ReadingDirection::LeftToRight, BoundaryPreviewDirection::Next) => true,
        _ => false,
    }
}

/// Read from right to left, the first page stands on the right and the second on the left; else the
/// other way round.
pub proof fn law_first_pages_stand_where_reading_starts(model: ViewerModel)
    requires
        model.content_left is Some,
        model.content_right is Some,
        !(model.persistent.cover_blank && model.persistent.displayed_page == 0),
    ensures
        ({
            let plan = model.draw_plan(true);
            let rtl = model.reading_direction() == ReadingDirection::RightToLeft;
            &&& rtl ==> plan.right.source == SlotSource::First && plan.left.source
                == SlotSource::Second
            &&& !rtl ==> plan.left.source == SlotSource::First && plan.right.source
                == SlotSource::Second
            &&& plan.ticks_first && plan.ticks_second
            &&& rtl ==> plan.right_size == Some(
                (
                    model.content_left->0.shown_texture().width,
                    model.content_left->0.shown_texture().height,
                ),
            )
            &&& !rtl ==> plan.left_size == Some(
                (
                    model.content_left->0.shown_texture().width,
                    model.content_left->0.shown_texture().height,
                ),
            )
        }),
        model.draw_plan(false).left.source == SlotSource::First,
        model.draw_plan(false).right.source == SlotSource::Empty,
        !model.draw_plan(false).ticks_second,
{
}

/// The blank page stands opposite the cover: on the left of a book that is read from right to left,
/// else on the right. Both halves are as large as the cover, and a blank page bears no mark.
pub proof fn law_blank_pages_stand_opposite_the_cover(model: ViewerModel)
    requires
        model.content_left is Some,
        model.persistent.cover_blank,
        model.persistent.displayed_page == 0,
        model.persistent.page_count > 0,
        model.persistent.spread_setting != SpreadMode::Single,
    ensures
        ({
            let plan = model.draw_plan(true);
            let rtl = model.reading_direction() == ReadingDirection::RightToLeft;
            &&& rtl ==> plan.left.source == SlotSource::Blank && plan.left.mark is None
                && plan.right.source == SlotSource::First
            &&& !rtl ==> plan.right.source == SlotSource::Blank && plan.right.mark is None
                && plan.left.source == SlotSource::First
            &&& plan.left_size == plan.right_size && plan.left_size is Some
            &&& !plan.ticks_second
        }),
{
}

/// Pages swap sides with the direction of reading.
pub proof fn law_sides_swap_with_the_direction(left: Option<u32>, right: Option<u32>)
    ensures
        screen_pages((left, right), ReadingDirection::LeftToRight) == (left, right),
        screen_pages((left, right), ReadingDirection::RightToLeft) == (right, left),
{
}

/// While a range is chosen, the pages between its start and the screen are marked, the start by a
/// mark of its own; nothing is marked before it has a start, and never a blank page.
pub proof fn law_pages_up_to_the_screen_are_marked(start: u32, first: u32, last: u32, page: u32)
    requires
        first <= last,
    ensures
        ({
            let selection = ViewerDeleteRangeSelection { start: Some(start), end: None };
            let mark = overlay_for(selection, Some((first, last)), page, false);
            &&& page == start ==> mark == Some(DeleteRangeImageOverlayKind::Start)
            &&& page != start && (start <= page <= last || first <= page <= start) ==> mark == Some(
                DeleteRangeImageOverlayKind::Selecting,
            )
            &&& page < start && page < first ==> mark is None
            &&& page > start && page > last ==> mark is None
            &&& overlay_for(selection, Some((first, last)), page, true) is None
            &&& overlay_for(selection, None, page, false) is None
        }),
        overlay_for(
            ViewerDeleteRangeSelection { start: None, end: None },
            Some((first, last)),
            page,
            false,
        ) is None,
{
}

/// The pages of a complete range are marked between its ends, whichever comes first.
pub proof fn law_complete_ranges_are_marked_between_their_ends(
    start: u32,
    end: u32,
    bounds: Option<(u32, u32)>,
    page: u32,
)
    ensures
        ({
            let selection = ViewerDeleteRangeSelection { start: Some(start), end: Some(end) };
            let mark = overlay_for(selection, bounds, page, false);
            &&& start <= page <= end || end <= page <= start ==> mark == Some(
                DeleteRangeImageOverlayKind::Complete,
            )
            &&& !(start <= page <= end || end <= page <= start) ==> mark is None
        }),
{
}

/// The bounds of a screen are its smaller and its larger page.
pub proof fn law_bounds_hold_the_pages(a: u32, b: u32)
    ensures
        page_bounds((Some(a), Some(b))) matches Some((low, high)) && low <= high && ((low == a
            && high == b) || (low == b && high == a)),
        page_bounds((Some(a), None)) == Some((a, a)),
        page_bounds((None, Some(b))) == Some((b, b)),
        page_bounds((None, None)) is None,
{
}

/// Only content whose time has come moves on, and with it one frame is put into a new texture.
pub proof fn law_due_frames_are_uploaded(model: ViewerModel, next: StreamFrame, now: u64)
    requires
        model.next_texture_id < u64::MAX,
    ensures
        ({
            let ticked = model.first_ticked(next, now);
            &&& model.content_left is None || !model.content_left->0.turns(now) ==> ticked.outbox
                == model.outbox && ticked.next_texture_id == model.next_texture_id
                && ticked.content_left == model.content_left
            &&& (model.content_left matches Some(content) && content.turns(now)) ==> {
                &&& ticked.outbox.len() == model.outbox.len() + 1
                &&& ticked.outbox.last() matches ViewerEffect::UploadFrame { is_left, frame, .. }
                    && is_left && frame == model.content_left->0.due()
                &&& ticked.next_texture_id == model.next_texture_id + 1
            }
            &&& ticked.content_right == model.content_right
        }),
        ({
            let ticked = model.second_ticked(next, now);
            &&& model.content_right is None || !model.content_right->0.turns(now) ==> ticked.outbox
                == model.outbox && ticked.content_right == model.content_right
            &&& (model.content_right matches Some(content) && content.turns(now)) ==> {
                &&& ticked.outbox.len() == model.outbox.len() + 1
                &&& ticked.outbox.last() matches ViewerEffect::UploadFrame { is_left, frame, .. }
                    && !is_left && frame == model.content_right->0.due()
            }
            &&& ticked.content_left == model.content_left
        }),
{
}

/// A key is padded to its column with blanks behind it; one that fills the column stays.
pub proof fn law_keys_fill_their_column(key: Seq<char>, width: nat, i: int)
    ensures
        padded(key, width).len() >= width,
        key.len() >= width ==> padded(key, width) == key,
        key.len() < width ==> padded(key, width).len() == width,
        0 <= i < key.len() ==> padded(key, width)[i] == key[i],
        key.len() <= i < width ==> padded(key, width)[i] == ' ',
{
}

/// Pages are named in marks by their numbers from one on.
pub proof fn law_marks_name_pages_from_one_on(start: u32, end: u32)
    requires
        start < u32::MAX,
        end < u32::MAX,
    ensures
        ({
            let open = ViewerDeleteRangeSelection { start: Some(start), end: None };
            let range = ViewerDeleteRangeSelection { start: Some(start), end: Some(end) };
            let first = decimal((start + 1) as nat);
            let last = decimal((end + 1) as nat);
            &&& marked_page_text(start) == first + "p"@
            &&& overlay_text(open, DeleteRangeImageOverlayKind::Start) == "Delete Range: Start "@ + (
            first + "p"@)
            &&& overlay_text(open, DeleteRangeImageOverlayKind::Selecting)
                == "Delete Range: Start "@ + (first + "p"@) + " …"@
            &&& overlay_text(range, DeleteRangeImageOverlayKind::Complete) == "Delete Range: "@ + (
            first + "p"@) + " - "@ + (last + "p"@)
            &&& range_text(open) == Some("S="@ + first)
            &&& range_text(range) == Some("S="@ + first + " E="@ + last)
            &&& range_text(ViewerDeleteRangeSelection { start: None, end: None }) is None
        }),
{
}

/// The help names the keys that do something: for deletion and for other books only where they are
/// allowed, and for a range what the next mark does.
pub proof fn law_help_names_the_keys_that_count(
    model: ViewerModel,
    capabilities: ViewerUiCapabilities,
)
    ensures
        ({
            let lines = model.help_lines(capabilities);
            &&& lines.len() > 0 && lines[0] == help_line("←→ / Wheel"@, "Page"@)
            &&& capabilities.allow_delete && model.delete_range.start is None
                && model.delete_range.end is None ==> lines.contains(
                help_line("M"@, "Mark Start"@),
            ) && lines.contains(help_line("Del"@, "Del Book"@))
            &&& capabilities.allow_delete && model.delete_range.start is Some
                && model.delete_range.end is None ==> lines.contains(help_line("M"@, "Mark End"@))
                && lines.contains(help_line("Del"@, "Del Book"@))
            &&& capabilities.allow_delete && model.delete_range.start is Some
                && model.delete_range.end is Some ==> lines.contains(
                help_line("M"@, "Restart Range"@),
            ) && lines.contains(help_line("Del"@, "Del Range"@))
            &&& model.delete_range.start is Some ==> lines.contains(
                help_line("Esc"@, "Clear Range"@),
            )
            &&& capabilities.allow_book_navigation ==> lines.contains(help_line("↑↓"@, "Book"@))
        }),
        delete_lines(false, model.delete_range).len() == 0,
{
    let range = model.delete_range.in_order();
    let page = seq![help_line("←→ / Wheel"@, "Page"@)];
    let preview = model.preview_line(capabilities);
    let book = line_if(capabilities.allow_book_navigation, help_line("↑↓"@, "Book"@));
    let fixed = seq![
        help_line("Home / End"@, "First / Last"@),
        help_line("Space"@, "Slideshow"@),
        help_line("F11"@, "Fullscreen"@),
    ];
    let delete = delete_lines(capabilities.allow_delete, range);
    let escape = seq![
        help_line(
            "Esc"@,
            if range.start is Some || range.end is Some {
                "Clear Range"@
            } else if capabilities.allow_book_navigation {
                "Library"@
            } else {
                "Close"@
            },
        ),
    ];
    let told = match range_text(range) {
        Some(text) => seq![help_line("Range"@, text)],
        None => Seq::empty(),
    };
    let lines = model.help_lines(capabilities);
    let one = page + preview;
    let two = one + book;
    let three = two + fixed;
    let four = three + delete;
    let five = four + escape;
    assert(lines == five + told);
    assert(lines[0] == page[0]);
    if capabilities.allow_book_navigation {
        assert(lines[one.len() as int] == book[0]);
    }
    if delete.len() == 2 {
        assert(lines[three.len() as int] == delete[0]);
        assert(lines[three.len() as int + 1] == delete[1]);
    }
    assert(lines[four.len() as int] == escape[0]);
}

} // verus!
