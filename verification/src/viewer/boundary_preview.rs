//! The preview of the neighbouring book that comes up at either end of this one.
use vstd::prelude::*;

use super::state::{
    BoundaryPreviewDirection, BoundaryPreviewProbe, BoundaryPreviewState, ViewerModel, ViewerState,
};
use super::texture_entries::TextureRef;
use crate::domain::{BookMeta, SpreadMode};

verus! {

pub open spec fn loading(direction: BoundaryPreviewDirection) -> BoundaryPreviewState {
    BoundaryPreviewState::Loading(
        BoundaryPreviewProbe { direction, in_flight: false, request_id: None },
    )
}

impl BoundaryPreviewState {
    pub open spec fn probe(self) -> Option<BoundaryPreviewProbe> {
        match self {
            BoundaryPreviewState::Hidden => None,
            BoundaryPreviewState::Loading(probe) => Some(probe),
            BoundaryPreviewState::Ready { probe, .. } => Some(probe),
        }
    }

    /// The preview of one side begun; one of that side that is there already stays.
    pub open spec fn begun(self, direction: BoundaryPreviewDirection) -> BoundaryPreviewState {
        if self.probe() matches Some(probe) && probe.direction == direction {
            self
        } else {
            loading(direction)
        }
    }

    /// Whether it belongs to a request.
    pub open spec fn belongs_to(self, request_id: u64) -> bool {
        self.probe() matches Some(probe) && probe.request_id == Some(request_id)
    }

    /// Whether the neighbour has to be asked for.
    pub open spec fn wants_request(self) -> bool {
        self matches BoundaryPreviewState::Loading(probe) && !probe.in_flight
            && probe.request_id is None
    }

    /// Whether a request may be noted.
    pub open spec fn takes_request(self) -> bool {
        self matches BoundaryPreviewState::Loading(probe) && probe.request_id is None
    }

    /// Whether it waits for the answer to a request.
    pub open spec fn waits_for(self, request_id: u64) -> bool {
        self matches BoundaryPreviewState::Loading(probe) && probe.request_id == Some(request_id)
    }

    /// The preview with the request for the neighbour noted.
    pub open spec fn asked(self, request_id: u64) -> BoundaryPreviewState {
        match self {
            BoundaryPreviewState::Loading(probe) => BoundaryPreviewState::Loading(
                BoundaryPreviewProbe { in_flight: true, request_id: Some(request_id), ..probe },
            ),
            other => other,
        }
    }

    /// The preview with the neighbour known.
    pub open spec fn answered(self, request_id: u64, book: BookMeta) -> BoundaryPreviewState {
        if self.waits_for(request_id) {
            BoundaryPreviewState::Ready {
                probe: BoundaryPreviewProbe {
                    direction: self.probe()->0.direction,
                    in_flight: false,
                    request_id: Some(request_id),
                },
                book,
                thumbnail: None,
            }
        } else {
            self
        }
    }

    /// The preview with its picture.
    pub open spec fn with_thumbnail(self, request_id: u64, thumbnail: TextureRef) ->
        BoundaryPreviewState {
        match self {
            BoundaryPreviewState::Ready { probe, book, .. } if probe.request_id == Some(
                request_id,
            ) => BoundaryPreviewState::Ready { probe, book, thumbnail: Some(thumbnail) },
            other => other,
        }
    }

    /// Whether there is a book and a picture to show.
    pub open spec fn complete(self) -> bool {
        self matches BoundaryPreviewState::Ready { thumbnail, .. } && thumbnail is Some
    }
}

/// What is shown of a neighbour.
pub struct BoundaryPreviewReadyView<'a> {
    pub direction: BoundaryPreviewDirection,
    pub book: &'a BookMeta,
    pub thumbnail: TextureRef,
}

/// What a move through the pages does to the preview.
#[derive(Clone, Copy, Debug, PartialEq, Eq, Structural)]
pub enum BoundaryPreviewPageMoveEffect {
    Close,
    Replace(BoundaryPreviewDirection),
    Keep,
}

impl ViewerModel {
    pub open spec fn with_preview(self, preview: BoundaryPreviewState) -> ViewerModel {
        ViewerModel { preview, ..self }
    }

    pub open spec fn previews_allowed(self, allow_book_navigation: bool, is_fullscreen: bool) -> bool {
        allow_book_navigation && !is_fullscreen && !self.playback.slideshow_active
    }

    /// Whether navigation stands at the end of the book on that side.
    pub open spec fn at_boundary(self, direction: BoundaryPreviewDirection) -> bool {
        let (left, right) = self.display_pages(self.base_page());
        &&& self.persistent.page_count > 0
        &&& match direction {
            BoundaryPreviewDirection::Previous => (if left is Some {
                left
            } else {
                right
            }) == Some(0u32),
            BoundaryPreviewDirection::Next => (if right is Some {
                right
            } else {
                left
            }) == Some((self.persistent.page_count - 1) as u32),
        }
    }

    pub open spec fn page_move_effect(
        self,
        enabled: bool,
        moved: bool,
        direction: BoundaryPreviewDirection,
    ) -> BoundaryPreviewPageMoveEffect {
        if moved {
            BoundaryPreviewPageMoveEffect::Close
        } else if enabled && self.at_boundary(direction) {
            BoundaryPreviewPageMoveEffect::Replace(direction)
        } else {
            BoundaryPreviewPageMoveEffect::Keep
        }
    }

    /// The preview after a step: closed by a move, brought up where the book ends.
    pub open spec fn preview_after_step(
        self,
        enabled: bool,
        moved: bool,
        direction: BoundaryPreviewDirection,
    ) -> ViewerModel {
        match self.page_move_effect(enabled, moved, direction) {
            BoundaryPreviewPageMoveEffect::Close => self.with_preview(BoundaryPreviewState::Hidden),
            BoundaryPreviewPageMoveEffect::Replace(direction) => self.with_preview(
                self.preview.begun(direction),
            ),
            BoundaryPreviewPageMoveEffect::Keep => self,
        }
    }
}

impl ViewerState {
    pub fn boundary_preview_enabled(&self, allow_book_navigation: bool, is_fullscreen: bool) -> (enabled:
        bool)
        ensures
            enabled == self@.previews_allowed(allow_book_navigation, is_fullscreen),
    {
        allow_book_navigation && !is_fullscreen && !self.playback.slideshow_active
    }

    pub fn boundary_preview_visible(&self, allow_book_navigation: bool, is_fullscreen: bool) -> (visible:
        bool)
        ensures
            visible == (self@.previews_allowed(allow_book_navigation, is_fullscreen)
                && self@.preview.complete()),
    {
        self.boundary_preview_enabled(allow_book_navigation, is_fullscreen)
            && self.boundary_preview_ready_view().is_some()
    }

    pub fn boundary_preview_can_trigger(&self, direction: BoundaryPreviewDirection) -> (can: bool)
        requires
            self.wf(),
        ensures
            can == self@.at_boundary(direction),
    {
        if self.persistent.page_count == 0 {
            return false;
        }
        let base: u32 = self.navigation_base_page();
        let (left, right): (Option<u32>, Option<u32>) = self.current_view_pages(base);
        match direction {
            BoundaryPreviewDirection::Previous => {
                let first: Option<u32> = if left.is_some() {
                    left
                } else {
                    right
                };
                first == Some(0)
            },
            BoundaryPreviewDirection::Next => {
                let last: Option<u32> = if right.is_some() {
                    right
                } else {
                    left
                };
                last == Some(self.persistent.page_count - 1)
            },
        }
    }

    pub fn begin_boundary_preview(&mut self, direction: BoundaryPreviewDirection)
        requires
            old(self).wf(),
        ensures
            final(self).wf(),
            final(self)@ == old(self)@.with_preview(old(self)@.preview.begun(direction)),
    {
        reveal(ViewerState::wf);
        let there: bool = match &self.boundary_preview {
            BoundaryPreviewState::Hidden => false,
            BoundaryPreviewState::Loading(probe) => probe.direction == direction,
            BoundaryPreviewState::Ready { probe, .. } => probe.direction == direction,
        };
        if !there {
            self.boundary_preview =
            BoundaryPreviewState::Loading(
                BoundaryPreviewProbe { direction, in_flight: false, request_id: None },
            );
        }
    }

    pub fn boundary_preview_needs_request(&self) -> (needs: bool)
        ensures
            needs == self@.preview.wants_request(),
    {
        match &self.boundary_preview {
            BoundaryPreviewState::Loading(probe) => !probe.in_flight && probe.request_id.is_none(),
            _ => false,
        }
    }

    pub fn boundary_preview_mark_request_sent(&mut self, request_id: u64) -> (marked: bool)
        requires
            old(self).wf(),
        ensures
            final(self).wf(),
            marked == old(self)@.preview.takes_request(),
            final(self)@ == if marked {
                old(self)@.with_preview(old(self)@.preview.asked(request_id))
            } else {
                old(self)@
            },
    {
        reveal(ViewerState::wf);
        let probe: BoundaryPreviewProbe = match &self.boundary_preview {
            BoundaryPreviewState::Loading(probe) => *probe,
            _ => {
                return false;
            },
        };
        if probe.request_id.is_some() {
            return false;
        }
        self.boundary_preview =
        BoundaryPreviewState::Loading(
            BoundaryPreviewProbe {
                direction: probe.direction,
                in_flight: true,
                request_id: Some(request_id),
            },
        );
        true
    }

    pub fn boundary_preview_direction_for_request(&self, request_id: u64) -> (direction: Option<
        BoundaryPreviewDirection,
    >)
        ensures
            direction == if self@.preview.waits_for(request_id) {
                Some(self@.preview.probe()->0.direction)
            } else {
                None
            },
    {
        match &self.boundary_preview {
            BoundaryPreviewState::Loading(probe) => if probe.request_id == Some(request_id) {
                Some(probe.direction)
            } else {
                None
            },
            _ => None,
        }
    }

    pub fn boundary_preview_mark_ready(&mut self, request_id: u64, book: BookMeta) -> (marked: bool)
        requires
            old(self).wf(),
        ensures
            final(self).wf(),
            marked == old(self)@.preview.waits_for(request_id),
            final(self)@ == old(self)@.with_preview(
                old(self)@.preview.answered(request_id, book),
            ),
    {
        reveal(ViewerState::wf);
        let direction: BoundaryPreviewDirection = match self.boundary_preview_direction_for_request(
            request_id,
        ) {
            Some(direction) => direction,
            None => {
                return false;
            },
        };
        self.boundary_preview =
        BoundaryPreviewState::Ready {
            probe: BoundaryPreviewProbe {
                direction,
                in_flight: false,
                request_id: Some(request_id),
            },
            book,
            thumbnail: None,
        };
        true
    }

    pub fn boundary_preview_set_thumbnail(&mut self, request_id: u64, thumbnail: TextureRef) -> (set:
        bool)
        requires
            old(self).wf(),
        ensures
            final(self).wf(),
            set == (old(self)@.preview is Ready && old(self)@.preview.belongs_to(request_id)),
            final(self)@ == old(self)@.with_preview(
                old(self)@.preview.with_thumbnail(request_id, thumbnail),
            ),
    {
        reveal(ViewerState::wf);
        match &mut self.boundary_preview {
            BoundaryPreviewState::Ready { probe, thumbnail: slot, .. } => {
                if probe.request_id == Some(request_id) {
                    *slot = Some(thumbnail);
                    true
                } else {
                    false
                }
            },
            _ => false,
        }
    }

    pub fn boundary_preview_clear_if_matches(&mut self, request_id: u64) -> (cleared: bool)
        requires
            old(self).wf(),
        ensures
            final(self).wf(),
            cleared == old(self)@.preview.belongs_to(request_id),
            final(self)@ == if cleared {
                old(self)@.with_preview(BoundaryPreviewState::Hidden)
            } else {
                old(self)@
            },
    {
        let belongs: bool = match &self.boundary_preview {
            BoundaryPreviewState::Loading(probe) => probe.request_id == Some(request_id),
            BoundaryPreviewState::Ready { probe, .. } => probe.request_id == Some(request_id),
            BoundaryPreviewState::Hidden => false,
        };
        if belongs {
            self.boundary_preview_clear();
        }
        belongs
    }

    pub fn boundary_preview_ready_book(&self) -> (book: Option<&BookMeta>)
        ensures
            book is Some <==> self@.preview is Ready,
            book matches Some(book) ==> (self@.preview matches BoundaryPreviewState::Ready {
                book: held,
                ..
            } && *book == held),
    {
        match &self.boundary_preview {
            BoundaryPreviewState::Ready { book, .. } => Some(book),
            _ => None,
        }
    }

    pub fn boundary_preview_ready_view(&self) -> (view: Option<BoundaryPreviewReadyView<'_>>)
        ensures
            view is Some <==> self@.preview.complete(),
            view matches Some(view) ==> (self@.preview matches BoundaryPreviewState::Ready {
                probe,
                book,
                thumbnail,
            } && view.direction == probe.direction && *view.book == book && Some(view.thumbnail)
                == thumbnail),
    {
        match &self.boundary_preview {
            BoundaryPreviewState::Ready { probe, book, thumbnail: Some(thumbnail) } => Some(
                BoundaryPreviewReadyView {
                    direction: probe.direction,
                    book,
                    thumbnail: *thumbnail,
                },
            ),
            _ => None,
        }
    }

    pub fn boundary_preview_clear(&mut self)
        requires
            old(self).wf(),
        ensures
            final(self).wf(),
            final(self)@ == old(self)@.with_preview(BoundaryPreviewState::Hidden),
    {
        reveal(ViewerState::wf);
        self.boundary_preview = BoundaryPreviewState::Hidden;
    }

    pub fn close_boundary_preview(&mut self)
        requires
            old(self).wf(),
        ensures
            final(self).wf(),
            final(self)@ == old(self)@.with_preview(BoundaryPreviewState::Hidden),
    {
        self.boundary_preview_clear();
    }

    pub fn close_boundary_preview_on_successful_page_move(&mut self, moved: bool)
        requires
            old(self).wf(),
        ensures
            final(self).wf(),
            final(self)@ == if moved {
                old(self)@.with_preview(BoundaryPreviewState::Hidden)
            } else {
                old(self)@
            },
    {
        if moved {
            self.boundary_preview_clear();
        }
    }

    pub fn boundary_preview_page_move_effect(
        &self,
        enabled: bool,
        moved: bool,
        direction: BoundaryPreviewDirection,
    ) -> (effect: BoundaryPreviewPageMoveEffect)
        requires
            self.wf(),
        ensures
            effect == self@.page_move_effect(enabled, moved, direction),
    {
        if moved {
            return BoundaryPreviewPageMoveEffect::Close;
        }
        if enabled && self.boundary_preview_can_trigger(direction) {
            return BoundaryPreviewPageMoveEffect::Replace(direction);
        }
        BoundaryPreviewPageMoveEffect::Keep
    }

    pub fn apply_boundary_preview_after_page_move(
        &mut self,
        enabled: bool,
        moved: bool,
        direction: BoundaryPreviewDirection,
    )
        requires
            old(self).wf(),
        ensures
            final(self).wf(),
            final(self)@ == old(self)@.preview_after_step(enabled, moved, direction),
    {
        match self.boundary_preview_page_move_effect(enabled, moved, direction) {
            BoundaryPreviewPageMoveEffect::Close => {
                self.close_boundary_preview_on_successful_page_move(true);
            },
            BoundaryPreviewPageMoveEffect::Replace(direction) => {
                self.begin_boundary_preview(direction);
            },
            BoundaryPreviewPageMoveEffect::Keep => {},
        }
    }
}

/// A preview is asked for once, and only the answer to that request makes it ready.
pub proof fn law_preview_follows_its_request(
    direction: BoundaryPreviewDirection,
    request_id: u64,
    other: u64,
    book: BookMeta,
)
    requires
        other != request_id,
    ensures
        ({
            let asked = loading(direction).asked(request_id);
            &&& loading(direction).wants_request()
            &&& !asked.wants_request() && !asked.takes_request()
            &&& asked.answered(other, book) == asked
            &&& asked.answered(request_id, book) is Ready
            &&& asked.answered(request_id, book).belongs_to(request_id)
            &&& asked.answered(request_id, book).begun(direction) == asked.answered(
                request_id,
                book,
            )
        }),
{
}

/// A preview comes up where the first or the last page is on screen: backward at the first page,
/// forward at the last one, and nowhere between.
pub proof fn law_previews_come_up_at_the_ends(model: ViewerModel)
    requires
        model.persistent.spread_setting != SpreadMode::Auto,
        model.base_page() < model.persistent.page_count,
    ensures
        ({
            let base = model.base_page() as int;
            let count = model.persistent.page_count as int;
            let two = model.persistent.spread_setting == SpreadMode::Spread && base + 1 < count
                && !(model.persistent.cover_blank && base == 0);
            &&& model.at_boundary(BoundaryPreviewDirection::Previous) <==> base == 0
            &&& model.at_boundary(BoundaryPreviewDirection::Next) <==> base + (if two {
                2int
            } else {
                1int
            }) == count
        }),
{
}

/// A preview comes up only where a step found no page to go to: a step that moved closes it, and a
/// book without pages has none.
pub proof fn law_moves_close_the_preview(
    model: ViewerModel,
    enabled: bool,
    direction: BoundaryPreviewDirection,
)
    ensures
        model.preview_after_step(enabled, true, direction).preview is Hidden,
        model.preview_after_step(false, false, direction) == model,
        !model.at_boundary(direction) ==> model.preview_after_step(enabled, false, direction)
            == model,
        model.at_boundary(direction) ==> (model.preview_after_step(
            true,
            false,
            direction,
        ).preview.probe() matches Some(probe) && probe.direction == direction),
        model.persistent.page_count == 0 ==> !model.at_boundary(direction),
{
}

/// The preview of the other side takes the place of the one that is there, and starts over.
pub proof fn law_the_other_side_starts_over(
    preview: BoundaryPreviewState,
    direction: BoundaryPreviewDirection,
)
    requires
        preview.probe() matches Some(probe) ==> probe.direction != direction,
    ensures
        preview.begun(direction) is Loading,
        preview.begun(direction).wants_request(),
        preview.begun(direction).probe() matches Some(probe) && probe.direction == direction
            && probe.request_id is None,
{
}

/// Previews are for windows in which books can be changed, and not for a slideshow.
pub proof fn law_previews_need_a_window(model: ViewerModel, allowed: bool, fullscreen: bool)
    ensures
        model.previews_allowed(allowed, fullscreen) ==> allowed && !fullscreen
            && !model.playback.slideshow_active,
        !model.playback.slideshow_active ==> model.previews_allowed(true, false),
{
}

/// The picture belongs to the request of its book, and only with it is a preview shown.
pub proof fn law_pictures_belong_to_their_book(
    preview: BoundaryPreviewState,
    request_id: u64,
    other: u64,
    book: BookMeta,
    thumbnail: TextureRef,
)
    requires
        preview.waits_for(request_id),
        other != request_id,
    ensures
        ({
            let answered = preview.answered(request_id, book);
            &&& !answered.complete()
            &&& answered.with_thumbnail(other, thumbnail) == answered
            &&& answered.with_thumbnail(request_id, thumbnail).complete()
            &&& answered.with_thumbnail(request_id, thumbnail) matches BoundaryPreviewState::Ready {
                book: shown,
                thumbnail: picture,
                probe,
            } && shown == book && picture == Some(thumbnail) && probe.direction
                == preview.probe()->0.direction
        }),
        preview.with_thumbnail(request_id, thumbnail) == preview,
        preview.answered(other, book) == preview,
{
}

} // verus!
