//! What holds of the way from a request for a page to pages on screen, taken as a whole.
use vstd::prelude::*;

use super::display_model::{
    armed, better_hit, first_of_parity, lemma_last_view, resolve, texture_bytes, still_frames, texture_content, waiting, DisplayArea, Screen, Slot,
};
use super::gpu_texture_history::{
    counted, law_stored_textures_are_newest, law_used_textures_go_last,
};
use super::page_content::{Content, StreamFrame};
use super::rgba_page_cache::{CacheState, FrameSet};
use super::state::{NavMode, ViewerEffect, ViewerModel, ViewerResult};
use super::texture_entries::{
    distinct_keys, holds_key, key_index, lemma_without_key, total_bytes, CachedGpuTexture,
    GpuTextureHit, GpuTextureKey, TextureRef,
};
use super::worker_manager::ViewerWorkerManagerSnapshot;
use super::working_set::{DisplayRequirement, RenderSignature};
use crate::domain::SpreadMode;
use crate::num::distance;

verus! {

/// The page on screen is the page that was asked for, and nothing is waited for.
pub open spec fn at_rest_on(model: ViewerModel, page: u32) -> bool {
    &&& model.persistent.displayed_page == page
    &&& model.persistent.requested_page == page
    &&& !model.ui.loading
}

proof fn lemma_settling_keeps_the_page(
    model: ViewerModel,
    page: Option<u32>,
    hit: Option<GpuTextureHit>,
    register: bool,
    content: Option<super::page_content::Content>,
    signature: RenderSignature,
)
    ensures
        model.slot_settled(page, hit, register, content, signature).persistent == model.persistent,
        model.slot_settled(page, hit, register, content, signature).request == model.request,
        model.slot_settled(page, hit, register, content, signature).ui == model.ui,
        model.slot_settled(page, hit, register, content, signature).outbox == model.outbox,
        model.slot_settled(page, hit, register, content, signature).content_left
            == model.content_left,
        model.slot_settled(page, hit, register, content, signature).content_right
            == model.content_right,
        model.slot_settled(page, hit, register, content, signature).reading_session
            == model.reading_session,
        model.slot_settled(page, hit, register, content, signature).playback == model.playback,
{
    reveal(ViewerModel::slot_settled);
}

proof fn lemma_prefetch_keeps_the_page(model: ViewerModel, area: DisplayArea, now: u64)
    ensures
        model.prefetch_triggered(area, now).persistent == model.persistent,
        model.prefetch_triggered(area, now).ui == model.ui,
        model.prefetch_triggered(area, now).request.queued_nav == model.request.queued_nav,
        model.prefetch_triggered(area, now).content_left == model.content_left,
        model.prefetch_triggered(area, now).content_right == model.content_right,
        model.prefetch_triggered(area, now).reading_session == model.reading_session,
        model.prefetch_triggered(area, now).playback == model.playback,
{
    reveal(ViewerModel::prefetch_triggered);
}

/// A screen that is committed while none waits is the screen that was asked for: it is on screen,
/// with the contents given, and loading is over. Reading resumes at its first page.
pub proof fn law_committed_screens_are_shown(
    screen: Screen,
    left: Slot,
    right: Slot,
    signature: RenderSignature,
    is_stream: bool,
    area: DisplayArea,
    now: u64,
)
    requires
        screen.model.request.queued_nav is None,
    ensures
        ({
            let done = screen.committed(
                left,
                right,
                signature,
                is_stream,
                area,
                now,
                waiting(area, now),
            ).model;
            &&& at_rest_on(done, screen.model.persistent.requested_page)
            &&& done.content_left == left.content
            &&& done.content_right == right.content
            &&& done.request.queued_nav is None
            &&& left.page matches Some(page) ==> done.reading_session.resume_page == Some(
                page as usize,
            )
            &&& left.page is None ==> (right.page matches Some(page)
                ==> done.reading_session.resume_page == Some(page as usize))
            &&& screen.model.playback.slideshow_active
                && screen.model.playback.slideshow_arm_on_display && now
                + screen.model.playback.slideshow_interval <= u64::MAX
                ==> done.playback.slideshow_next_slide_at == Some(
                (now + screen.model.playback.slideshow_interval) as u64,
            )
        }),
{
    reveal(Screen::committed);
    reveal(Screen::waiting_started);
    let shown = Screen { model: screen.model.shown(left, right, is_stream, now), ..screen };
    assert(shown.model.request.queued_nav is None && shown.model.reading_session
        == screen.model.reading_session.recorded(
        left.page,
        right.page,
        screen.model.persistent.page_count as usize,
    ) && shown.model.playback == if screen.model.playback.slideshow_active
        && screen.model.playback.slideshow_arm_on_display {
        armed(screen.model.playback, now)
    } else {
        screen.model.playback
    } && at_rest_on(shown.model, screen.model.persistent.requested_page) && shown.model.content_left == left.content && shown.model.content_right == right.content)
        by {
        reveal(ViewerModel::shown);
    }
    assert(waiting(area, now)(shown) == shown);
    let going = shown.model.prefetch_triggered(area, now);
    lemma_prefetch_keeps_the_page(shown.model, area, now);
    let one = going.slot_settled(
        left.page,
        left.hit,
        left.register,
        going.content_left,
        signature,
    );
    lemma_settling_keeps_the_page(
        going,
        left.page,
        left.hit,
        left.register,
        going.content_left,
        signature,
    );
    lemma_settling_keeps_the_page(
        one,
        right.page,
        right.hit,
        right.register,
        one.content_right,
        signature,
    );
}

/// A page whose textures are all held comes on screen at once, without a request.
pub proof fn law_held_textures_show_at_once(
    screen: Screen,
    nav_id: u64,
    page: u32,
    area: DisplayArea,
    now: u64,
)
    requires
        screen.model.request.queued_nav is None,
        ({
            let begun = screen.model.view_begun(page, now);
            let layout = begun.layout(page, area.display_w, area.display_h);
            let model = begun.laid_out(page, false).budget_set();
            let requirement = model.requirement(
                layout.page_decode_w,
                layout.page_decode_h,
                area.max_tex_side,
            );
            let left = model.best_texture(layout.page_left, requirement);
            let right = model.best_texture(layout.page_right, requirement);
            &&& left is Some || right is Some
            &&& layout.page_left is None || left is Some
            &&& layout.page_right is None || right is Some
        }),
    ensures
        at_rest_on(
            screen.view_started(nav_id, page, area, now, waiting(area, now)).model,
            page,
        ),
{
    reveal(Screen::view_started);
    reveal(Screen::screen_requested);
    let begun = screen.model.view_begun(page, now);
    let layout = begun.layout(page, area.display_w, area.display_h);
    let model = begun.laid_out(page, false).budget_set();
    let requirement = model.requirement(
        layout.page_decode_w,
        layout.page_decode_h,
        area.max_tex_side,
    );
    let signature = model.signature(layout.page_decode_w, layout.page_decode_h, area.max_tex_side);
    let left = model.best_texture(layout.page_left, requirement);
    let right = model.best_texture(layout.page_right, requirement);
    assert(model.request.queued_nav is None && model.persistent.requested_page == page) by {
        reveal(ViewerModel::view_begun);
        reveal(ViewerModel::laid_out);
        reveal(ViewerModel::budget_set);
    }
    law_committed_screens_are_shown(
        Screen { model, ..screen },
        Slot {
            page: layout.page_left,
            content: texture_content(left),
            hit: left,
            register: false,
        },
        Slot {
            page: layout.page_right,
            content: texture_content(right),
            hit: right,
            register: false,
        },
        signature,
        false,
        area,
        now,
    );
}

/// A result without an error that comes in while nothing waits is on screen afterwards.
pub proof fn law_results_are_shown(
    screen: Screen,
    result: ViewerResult,
    left_chunk: Seq<StreamFrame>,
    right_chunk: Seq<StreamFrame>,
    area: DisplayArea,
    now: u64,
)
    requires
        screen.model.request.queued_nav is None,
        result.error is None,
        !screen.model.with_page_count(result.page_count).outdated(),
    ensures
        ({
            let model = screen.model.with_page_count(result.page_count);
            let done = screen.applied(
                result,
                left_chunk,
                right_chunk,
                area,
                now,
                waiting(area, now),
            ).model;
            &&& at_rest_on(done, model.persistent.requested_page)
            &&& done.content_left is Some <==> result.left is Some
            &&& done.content_right is Some <==> result.right is Some
            &&& model.display_pages(model.persistent.requested_page).0 matches Some(page)
                ==> done.reading_session.resume_page == Some(page as usize)
        }),
{
    reveal(Screen::applied);
    let model = screen.model.with_page_count(result.page_count);
    let (left_page, right_page) = model.display_pages(model.persistent.requested_page);
    let signature = super::display_model::result_signature(result);
    let cached = model.budget_set().with_decode(
        left_page,
        still_frames(result.left, result.left_is_animation_stream),
        signature,
    ).with_decode(
        right_page,
        still_frames(result.right, result.right_is_animation_stream),
        signature,
    );
    let left_content = cached.new_content(
        result.left,
        result.left_is_animation_stream,
        left_chunk,
        result.left_stream_exhausted,
        now,
    );
    let one = cached.uploaded(result.left, result.left_is_animation_stream, left_chunk);
    let right_content = one.new_content(
        result.right,
        result.right_is_animation_stream,
        right_chunk,
        result.right_stream_exhausted,
        now,
    );
    let both = one.uploaded(result.right, result.right_is_animation_stream, right_chunk);
    assert(left_content is Some <==> result.left is Some) by {
        reveal(ViewerModel::new_content);
    }
    assert(right_content is Some <==> result.right is Some) by {
        reveal(ViewerModel::new_content);
    }
    assert(both.request.queued_nav is None && both.persistent.requested_page
        == model.persistent.requested_page) by {
        reveal(ViewerModel::with_page_count);
        reveal(ViewerModel::budget_set);
        reveal(ViewerModel::with_decode);
        reveal(ViewerModel::uploaded);
    }
    law_committed_screens_are_shown(
        Screen { model: both, ..screen },
        Slot { page: left_page, content: left_content, hit: None, register: true },
        Slot { page: right_page, content: right_content, hit: None, register: true },
        signature,
        result.left_is_animation_stream || result.right_is_animation_stream,
        area,
        now,
    );
}

/// A failed load is told, ends the slideshow, and leaves the page on screen as it was.
pub proof fn law_errors_leave_the_screen(
    screen: Screen,
    result: ViewerResult,
    left_chunk: Seq<StreamFrame>,
    right_chunk: Seq<StreamFrame>,
    area: DisplayArea,
    now: u64,
)
    requires
        screen.model.request.queued_nav is None,
        screen.model.persistent.page_count > 0,
        result.error is Some,
    ensures
        ({
            let done = screen.applied(
                result,
                left_chunk,
                right_chunk,
                area,
                now,
                waiting(area, now),
            ).model;
            &&& done.ui.error == result.error
            &&& !done.ui.loading
            &&& !done.playback.slideshow_active
            &&& done.persistent == screen.model.persistent
            &&& done.content_left == screen.model.content_left
            &&& done.content_right == screen.model.content_right
        }),
{
    reveal(Screen::applied);
    reveal(Screen::waiting_started);
    reveal(ViewerModel::with_page_count);
    reveal(ViewerModel::failed);
    let failed = Screen { model: screen.model.failed(result), ..screen };
    assert(waiting(area, now)(failed) == failed);
}

/// Pages of which neither a texture nor a decode is held are asked for, each by a request of its
/// own, and loading goes on until the answers are in.
pub proof fn law_missing_pages_are_asked_for(
    screen: Screen,
    nav_id: u64,
    view: u32,
    left: u32,
    right: u32,
    signature: RenderSignature,
    requirement: DisplayRequirement,
)
    requires
        screen.model.interactive.best(left, requirement) is None,
        screen.model.interactive.best(right, requirement) is None,
        screen.bg.best(left, requirement) is None,
        screen.bg.best(right, requirement) is None,
    ensures
        ({
            let done = screen.missing_asked(
                nav_id,
                view,
                (Some(left), Some(right)),
                signature,
                requirement,
            ).model;
            &&& done.outbox.len() == screen.model.outbox.len() + 2
            &&& done.outbox[screen.model.outbox.len() as int] matches ViewerEffect::Load(first)
                && first.page_left == Some(left) && first.display_w == signature.target_w
                && first.display_h == signature.target_h && done.awaits(first.request_id)
            &&& done.outbox[screen.model.outbox.len() as int + 1] matches ViewerEffect::Load(second)
                && second.page_left == Some(right)
            &&& done.ui == screen.model.ui
            &&& done.persistent == screen.model.persistent
        }),
{
    reveal(Screen::missing_asked);
    reveal(resolve);
    reveal(ViewerModel::group_asked);
}

/// A screen that is asked for while none waits stays the one that is asked for, whether it comes
/// on screen at once or has to be loaded.
proof fn lemma_requested_page_stays(
    screen: Screen,
    nav_id: u64,
    page: u32,
    area: DisplayArea,
    now: u64,
)
    requires
        screen.model.request.queued_nav is None,
        screen.model.persistent.requested_page == screen.model.persistent.target_page,
    ensures
        screen.screen_requested(
            nav_id,
            page,
            area,
            now,
            waiting(area, now),
        ).model.persistent.requested_page == screen.model.persistent.requested_page,
{
    reveal(Screen::screen_requested);
    let layout = screen.model.layout(page, area.display_w, area.display_h);
    let pages = (layout.page_left, layout.page_right);
    let model = screen.model.laid_out(page, false).budget_set();
    let signature = model.signature(layout.page_decode_w, layout.page_decode_h, area.max_tex_side);
    let requirement = model.requirement(
        layout.page_decode_w,
        layout.page_decode_h,
        area.max_tex_side,
    );
    let left = model.best_texture(pages.0, requirement);
    let right = model.best_texture(pages.1, requirement);
    let some_found = left is Some || right is Some;
    let noted = model.lookup_noted(some_found);
    assert(model.request.queued_nav is None && noted.request.queued_nav is None
        && model.persistent.requested_page == screen.model.persistent.requested_page
        && noted.persistent.requested_page == screen.model.persistent.requested_page
        && noted.persistent.target_page == screen.model.persistent.requested_page) by {
        reveal(ViewerModel::laid_out);
        reveal(ViewerModel::budget_set);
        reveal(ViewerModel::lookup_noted);
    }
    law_committed_screens_are_shown(
        Screen { model, ..screen },
        Slot { page: pages.0, content: texture_content(left), hit: left, register: false },
        Slot { page: pages.1, content: texture_content(right), hit: right, register: false },
        signature,
        false,
        area,
        now,
    );
    let other = resolve(
        noted.interactive,
        screen.bg,
        if left is Some {
            pages.1
        } else {
            pages.0
        },
        requirement,
        noted.kept_pages().to_set(),
    );
    lemma_reusing_keeps_the_page(
        Screen { model: ViewerModel { interactive: other.interactive, ..noted }, bg: other.bg },
        pages,
        left,
        right,
        other.frames,
        signature,
        area,
        now,
    );
    lemma_decodes_keep_the_page(
        Screen { model: noted, ..screen },
        nav_id,
        page,
        pages,
        signature,
        requirement,
        area,
        now,
    );
}

proof fn lemma_reusing_keeps_the_page(
    screen: Screen,
    pages: (Option<u32>, Option<u32>),
    left: Option<GpuTextureHit>,
    right: Option<GpuTextureHit>,
    frames: Option<FrameSet>,
    signature: RenderSignature,
    area: DisplayArea,
    now: u64,
)
    requires
        screen.model.request.queued_nav is None,
    ensures
        screen.half_reused(
            pages,
            left,
            right,
            frames,
            signature,
            area,
            now,
            waiting(area, now),
        ).model.persistent.requested_page == screen.model.persistent.requested_page,
{
    reveal(Screen::half_reused);
    reveal(ViewerModel::reuse_noted);
    let made = screen.model.new_content(frames, false, Seq::empty(), false, now);
    let model = screen.model.uploaded(frames, false, Seq::empty());
    assert(model.request.queued_nav is None && model.persistent == screen.model.persistent) by {
        reveal(ViewerModel::uploaded);
    }
    law_committed_screens_are_shown(
        Screen { model, ..screen },
        Slot {
            page: pages.0,
            content: if left is Some {
                texture_content(left)
            } else {
                made
            },
            hit: left,
            register: left is None,
        },
        Slot {
            page: pages.1,
            content: if left is Some {
                made
            } else {
                texture_content(right)
            },
            hit: if left is Some {
                None
            } else {
                right
            },
            register: left is Some,
        },
        signature,
        false,
        area,
        now,
    );
}

proof fn lemma_decodes_keep_the_page(
    screen: Screen,
    nav_id: u64,
    page: u32,
    pages: (Option<u32>, Option<u32>),
    signature: RenderSignature,
    requirement: DisplayRequirement,
    area: DisplayArea,
    now: u64,
)
    requires
        screen.model.request.queued_nav is None,
        screen.model.persistent.requested_page == screen.model.persistent.target_page,
    ensures
        screen.decodes_shown_or_asked(
            nav_id,
            page,
            pages,
            signature,
            requirement,
            area,
            now,
            waiting(area, now),
        ).model.persistent.requested_page == screen.model.persistent.requested_page,
{
    reveal(Screen::decodes_shown_or_asked);
    reveal(ViewerModel::synthetic_result);
    reveal(ViewerModel::with_page_count);
    let kept = screen.model.kept_pages().to_set();
    let left = resolve(screen.model.interactive, screen.bg, pages.0, requirement, kept);
    let right = resolve(left.interactive, left.bg, pages.1, requirement, kept);
    let model = ViewerModel { interactive: right.interactive, ..screen.model };
    let result = model.synthetic_result(
        nav_id,
        page,
        pages,
        left.frames,
        right.frames,
        signature,
    );
    assert(model.with_page_count(result.page_count) == model);
    law_results_are_shown(
        Screen { model, bg: right.bg },
        result,
        Seq::empty(),
        Seq::empty(),
        area,
        now,
    );
    let shown = Screen { model, bg: right.bg }.applied(
        result,
        Seq::empty(),
        Seq::empty(),
        area,
        now,
        waiting(area, now),
    );
    lemma_prefetch_keeps_the_page(shown.model, area, now);
    assert(Screen { model, bg: right.bg }.missing_asked(
        nav_id,
        page,
        pages,
        signature,
        requirement,
    ).model.persistent == model.persistent) by {
        reveal(Screen::missing_asked);
        reveal(ViewerModel::group_asked);
    }
}

/// When a page waits, it is the page that is asked for next.
pub proof fn law_waiting_page_comes_next(screen: Screen, area: DisplayArea, now: u64)
    requires
        screen.has_waiting(),
    ensures
        screen.model.request.queued_nav matches Some((page, _))
            && screen.waiting_started(area, now).model.persistent.requested_page == page,
{
    reveal(Screen::waiting_started);
    match screen.model.request.queued_nav {
        Some((page, nav_id)) => {
            let taken = Screen { model: screen.model.dequeued(), ..screen };
            lemma_last_view(taken, nav_id, page, area, now);
            reveal(Screen::view_started);
            reveal(ViewerModel::view_begun);
            let begun = Screen { model: taken.model.view_begun(page, now), ..taken };
            lemma_requested_page_stays(begun, nav_id, page, area, now);
        },
        None => {},
    }
}

/// The background work decodes a page at the size at which the viewer asks for it, so that what
/// it has ready fits.
pub proof fn law_background_decodes_fit_the_screen(
    model: ViewerModel,
    snapshot: ViewerWorkerManagerSnapshot,
    area: DisplayArea,
    page: u32,
)
    requires
        snapshot.page_count == model.published(area).page_count,
        snapshot.spread_setting == model.published(area).spread_setting,
        snapshot.cover_blank == model.published(area).cover_blank,
        snapshot.quality == model.published(area).quality,
        snapshot.max_tex_side == model.published(area).max_tex_side,
        snapshot.full_equivalent_area_w == model.published(area).full_equivalent_area_w,
        snapshot.full_equivalent_area_h == model.published(area).full_equivalent_area_h,
        snapshot.auto_spread_plan == model.plan,
        page < model.persistent.page_count,
        !model.uses_snapshot(page),
    ensures
        snapshot.pages_at(page) == model.display_pages(page),
        ({
            let layout = model.layout(page, area.display_w, area.display_h);
            snapshot.signature_at(page) == model.signature(
                layout.page_decode_w,
                layout.page_decode_h,
                area.max_tex_side,
            )
        }),
{
    reveal(ViewerModel::published);
    reveal(ViewerModel::layout);
}

/// A page that is asked for is the one that input led to from then on; the page on screen stays
/// until it comes. What was under way for another page is void, an error is forgotten, and a
/// placeholder is due 150 milliseconds later.
pub proof fn law_asking_starts_over(model: ViewerModel, page: u32, now: u64, request_id: u64)
    requires
        now + 150_000_000 <= u64::MAX,
        request_id > 0,
    ensures
        ({
            let begun = model.view_begun(page, now);
            &&& begun.persistent.requested_page == page
            &&& begun.persistent.target_page == page
            &&& begun.persistent.displayed_page == model.persistent.displayed_page
            &&& begun.ui.loading
            &&& begun.ui.error is None
            &&& begun.ui.pending_placeholder_after == Some((now + 150_000_000) as u64)
            &&& !begun.awaits(request_id)
            &&& begun.request.pending_interactive_group is None
            &&& begun.request.active_animation_stream_view is None
            &&& begun.request.animation_stream_request_id is None
            &&& begun.request.prefetch_idle_deadline is None
            &&& begun.content_left == model.content_left
            &&& begun.content_right == model.content_right
            &&& begun.reading_session == model.reading_session
            &&& model.playback.slideshow_active ==> begun.playback.slideshow_next_slide_at is None
                && begun.playback.slideshow_arm_on_display
            &&& !model.playback.slideshow_active ==> begun.playback == model.playback
            &&& model.persistent.spread_setting == SpreadMode::Spread
                ==> begun.persistent.spread_mode
            &&& model.persistent.spread_setting == SpreadMode::Single
                ==> !begun.persistent.spread_mode
        }),
{
    reveal(ViewerModel::view_begun);
}

/// A screen that is shown ends the wait for it: the page that was asked for is the page on screen.
/// Input counts as single again once it is the page that input led to.
pub proof fn law_shown_screens_end_the_wait(
    model: ViewerModel,
    left: Slot,
    right: Slot,
    is_stream: bool,
    now: u64,
)
    ensures
        ({
            let shown = model.shown(left, right, is_stream, now);
            &&& shown.persistent.displayed_page == model.persistent.requested_page
            &&& shown.persistent.target_page == model.persistent.target_page
            &&& !shown.ui.loading
            &&& shown.ui.pending_placeholder_after is None
            &&& model.persistent.requested_page == model.persistent.target_page
                ==> shown.ui.nav_mode == NavMode::Sequential
            &&& model.persistent.requested_page != model.persistent.target_page
                ==> shown.ui.nav_mode == model.ui.nav_mode
            &&& is_stream ==> shown.request.active_animation_stream_view == Some(
                model.persistent.requested_page,
            )
            &&& !is_stream ==> shown.request.active_animation_stream_view is None
            &&& shown.content_left == left.content && shown.content_right == right.content
            &&& !model.playback.slideshow_active ==> shown.playback == model.playback
        }),
{
    reveal(ViewerModel::shown);
}

/// The page count is taken once. From then on every page that the viewer stands at is in the book,
/// and pages that were in it stay as they were.
pub proof fn law_page_count_is_taken_once(model: ViewerModel, page_count: u32, other: u32)
    ensures
        ({
            let counted = model.with_page_count(page_count);
            let here = model.persistent;
            &&& counted.with_page_count(other).persistent.page_count == if page_count > 0
                || here.page_count > 0 {
                counted.persistent.page_count
            } else {
                other
            }
            &&& here.page_count > 0 ==> counted == model
            &&& here.page_count == 0 && page_count > 0 ==> {
                &&& counted.persistent.page_count == page_count
                &&& counted.persistent.requested_page < page_count
                &&& counted.persistent.displayed_page < page_count
                &&& counted.persistent.target_page < page_count
                &&& counted.request.prefetch_anchor_view < page_count
                &&& here.target_page < page_count ==> counted.persistent.target_page
                    == here.target_page
                &&& here.requested_page < page_count ==> counted.persistent.requested_page
                    == here.requested_page
                &&& here.displayed_page < page_count ==> counted.persistent.displayed_page
                    == here.displayed_page
                &&& here.target_page >= page_count ==> counted.persistent.target_page + 1
                    == page_count
                &&& here.requested_page >= page_count ==> counted.persistent.requested_page + 1
                    == page_count
                &&& !counted.persistent.spread_snapshot.valid
            }
        }),
{
    reveal(ViewerModel::with_page_count);
}

/// Background work is set going by telling it once where reading stands, forward where the
/// direction is not known; 250 milliseconds later pages far off are due. It rests while an
/// animation plays.
pub proof fn law_background_work_is_told_once(model: ViewerModel, area: DisplayArea, now: u64)
    requires
        now + 250_000_000 <= u64::MAX,
    ensures
        ({
            let going = model.prefetch_triggered(area, now);
            let plays = model.request.active_animation_stream_view is Some
                || model.request.animation_stream_request_id is Some;
            &&& plays ==> going.outbox == model.outbox && going.request.prefetch_idle_deadline
                is None
            &&& !plays ==> {
                &&& going.request.prefetch_idle_deadline == Some((now + 250_000_000) as u64)
                &&& going.outbox.len() == model.outbox.len() + 1
                &&& going.outbox.last() == ViewerEffect::Publish(going.published(area))
                &&& model.request.prefetch_dir == 0 ==> going.request.prefetch_dir == 1
                &&& model.request.prefetch_dir != 0 ==> going.request.prefetch_dir
                    == model.request.prefetch_dir
            }
            &&& going.persistent == model.persistent
        }),
{
    reveal(ViewerModel::prefetch_triggered);
    reveal(ViewerModel::published);
}

/// A decode of the viewer's own goes before one of the background work, and is left where it is;
/// a page without either is not ready.
pub proof fn law_own_decodes_go_first(
    interactive: CacheState,
    bg: CacheState,
    page: u32,
    requirement: DisplayRequirement,
    kept: Set<u32>,
)
    ensures
        ({
            let found = resolve(interactive, bg, Some(page), requirement, kept);
            &&& interactive.best(page, requirement) matches Some(entry) ==> found.ready
                && found.frames == Some(entry.frames) && found.bg == bg
            &&& interactive.best(page, requirement) is None ==> (bg.best(
                page,
                requirement,
            ) matches Some(entry) ==> found.ready && found.frames == Some(entry.frames))
            &&& interactive.best(page, requirement) is None && bg.best(page, requirement) is None
                ==> !found.ready && found.frames is None && found.interactive == interactive
                && found.bg == bg
        }),
        resolve(interactive, bg, None, requirement, kept).ready,
        resolve(interactive, bg, None, requirement, kept).frames is None,
{
    reveal(resolve);
}

/// Of two textures the one nearer to the required size is taken, and the one that was shown before
/// where both are as near.
pub proof fn law_nearer_textures_are_taken(
    history: GpuTextureHit,
    warmup: GpuTextureHit,
    requirement: DisplayRequirement,
)
    ensures
        ({
            let (w, h) = (requirement.required_w as int, requirement.required_h as int);
            let shown = history.key.render_signature;
            let made = warmup.key.render_signature;
            let off_shown = distance(shown.target_w as int, w) + distance(shown.target_h as int, h);
            let off_made = distance(made.target_w as int, w) + distance(made.target_h as int, h);
            &&& off_shown <= off_made ==> better_hit(Some(history), Some(warmup), requirement)
                == Some(history)
            &&& off_made < off_shown ==> better_hit(Some(history), Some(warmup), requirement)
                == Some(warmup)
            &&& better_hit(Some(history), None, requirement) == Some(history)
            &&& better_hit(None, Some(warmup), requirement) == Some(warmup)
            &&& better_hit(None, None, requirement) is None
        }),
{
}

/// A texture takes four bytes a pixel.
pub proof fn law_textures_take_four_bytes_a_pixel(texture: TextureRef)
    requires
        texture.width * texture.height * 4 <= usize::MAX,
    ensures
        texture_bytes(texture) == texture.width * texture.height * 4,
{
    assert(texture.width * texture.height >= 0) by (nonlinear_arith);
}

/// A screen that waits is taken out of the queue, and asked for unless it is the one that was asked
/// for last.
pub proof fn law_waiting_page_leaves_the_queue(screen: Screen, area: DisplayArea, now: u64)
    ensures
        screen.model.request.queued_nav is None ==> screen.waiting_started(area, now) == screen,
        screen.model.request.queued_nav matches Some((page, _)) && page
            == screen.model.persistent.requested_page ==> screen.waiting_started(area, now)
            == (Screen { model: screen.model.dequeued(), ..screen }),
        screen.model.dequeued().request.queued_nav is None,
        screen.model.dequeued().request.queued_view is None,
        screen.model.dequeued().persistent == screen.model.persistent,
{
    reveal(Screen::waiting_started);
}

/// A result is passed over only where fast input has led on to another page and that page waits.
pub proof fn law_results_are_passed_over_for_later_input(model: ViewerModel)
    ensures
        model.outdated() <==> model.ui.nav_mode == NavMode::FollowLatest
            && model.request.queued_view is Some && model.persistent.target_page
            != model.persistent.requested_page,
{
}

/// A texture made for a page is found for that page afterwards, and is held once.
pub proof fn law_made_textures_go_into_the_history(
    model: ViewerModel,
    page: u32,
    texture: TextureRef,
    signature: RenderSignature,
)
    requires
        distinct_keys(model.history.entries),
        distinct_keys(model.warmup.entries),
        model.history.bytes == total_bytes(model.history.entries),
        model.history.bytes <= model.history.max <= usize::MAX / 2,
        texture.width * texture.height * 4 <= model.history.max,
    ensures
        ({
            let key = GpuTextureKey { page, render_signature: signature };
            let done = model.registered(Some(page), Some(Content::Static(texture)), signature);
            &&& done.history.entries.last().key == key
            &&& done.history.entries.last().texture == texture
            &&& done.history.entries.last().estimated_bytes == texture.width * texture.height * 4
            &&& !holds_key(done.warmup.entries, key)
            &&& done.history.bytes <= done.history.max
        }),
        model.registered(None, Some(Content::Static(texture)), signature) == model,
        model.registered(Some(page), None, signature) == model,
{
    let key = GpuTextureKey { page, render_signature: signature };
    law_textures_take_four_bytes_a_pixel(texture);
    let entry = CachedGpuTexture {
        key,
        texture,
        estimated_bytes: texture_bytes(texture) as usize,
    };
    law_stored_textures_are_newest(model.history, entry);
    lemma_without_key(model.warmup.entries, key);
}

/// A texture found among those made ahead moves into the history when it comes on screen; one of
/// the history becomes its newest. Either way the hit is counted.
pub proof fn law_taken_textures_are_the_latest(model: ViewerModel, hit: GpuTextureHit)
    requires
        distinct_keys(model.history.entries),
        distinct_keys(model.warmup.entries),
        model.history.bytes == total_bytes(model.history.entries),
        model.history.bytes <= model.history.max <= usize::MAX / 2,
        model.still_holds(hit),
        hit.source is Warmup ==> model.warmup.entries[key_index(
            model.warmup.entries,
            hit.key,
        )].estimated_bytes <= model.history.max,
    ensures
        ({
            let done = model.hit_taken(hit);
            &&& done.history.entries.len() > 0 && done.history.entries.last().key == hit.key
            &&& hit.source is Warmup ==> !holds_key(done.warmup.entries, hit.key)
                && done.warmup.hit_count == counted(model.warmup.hit_count, 1)
                && done.warmup.promotion_count == counted(model.warmup.promotion_count, 1)
            &&& hit.source is History ==> done.warmup == model.warmup
                && done.history.full_hit_count == counted(model.history.full_hit_count, 1)
                && done.history.entries.len() == model.history.entries.len()
            &&& done.persistent == model.persistent
        }),
{
    if hit.source is Warmup {
        let entry = CachedGpuTexture {
            key: hit.key,
            ..model.warmup.entries[key_index(model.warmup.entries, hit.key)]
        };
        law_stored_textures_are_newest(model.history, entry);
        lemma_without_key(model.warmup.entries, hit.key);
    } else {
        law_used_textures_go_last(model.history, hit.key);
    }
}

/// A decoded page that is put on screen goes into a texture of its own, which is asked for once; the
/// content shows that texture.
pub proof fn law_decoded_pages_get_a_texture(
    model: ViewerModel,
    frames: FrameSet,
    now: u64,
)
    requires
        frames.frame_count == 1,
        model.next_texture_id < u64::MAX,
    ensures
        ({
            let made = model.uploaded(Some(frames), false, Seq::empty());
            let content = model.new_content(Some(frames), false, Seq::empty(), false, now);
            &&& content matches Some(Content::Static(texture)) && texture.id
                == model.next_texture_id && texture.width == frames.first_frame_width
                && texture.height == frames.first_frame_height
                && made.outbox.last() == (ViewerEffect::Upload { texture, frames })
            &&& made.outbox.len() == model.outbox.len() + 1
            &&& made.next_texture_id == model.next_texture_id + 1
            &&& made.persistent == model.persistent && made.request == model.request
        }),
        model.uploaded(None, false, Seq::empty()) == model,
        model.new_content(None, false, Seq::empty(), false, now) is None,
{
    reveal(ViewerModel::uploaded);
    reveal(ViewerModel::new_content);
}

/// The pages of a screen that are asked for are noted as under way, by whether their number is even
/// or odd.
pub proof fn law_pages_under_way_are_noted(left: u32, right: Option<u32>)
    requires
        right matches Some(right) ==> right == left + 1,
    ensures
        left % 2 == 0 ==> first_of_parity(Some(left), right, 0) == Some(left) && first_of_parity(
            Some(left),
            right,
            1,
        ) == right,
        left % 2 == 1 ==> first_of_parity(Some(left), right, 1) == Some(left) && first_of_parity(
            Some(left),
            right,
            0,
        ) == right,
{
}

/// Where one page of a screen is at hand, only the other one is asked for, and both belong to one
/// screen: the answer that comes completes it.
pub proof fn law_only_the_missing_page_is_asked_for(
    model: ViewerModel,
    nav_id: u64,
    view: u32,
    left: u32,
    right: u32,
    at_hand: ViewerResult,
    signature: RenderSignature,
    answer: ViewerResult,
)
    requires
        model.next_request_id < u64::MAX,
        answer.request_id == model.next_request_id,
    ensures
        ({
            let asked = model.group_asked(
                nav_id,
                view,
                (Some(left), Some(right)),
                Some(at_hand),
                None,
                signature,
                nav_id,
            );
            &&& asked.outbox.len() == model.outbox.len() + 1
            &&& asked.outbox.last() matches ViewerEffect::Load(request) && request.page_left
                == Some(right) && request.request_id == model.next_request_id && request.quality
                == signature.quality && request.display_w == signature.target_w
                && request.display_h == signature.target_h && request.max_tex_side
                == signature.max_tex_side && request.view_idx == view && request.nav_id == nav_id
            &&& asked.awaits(answer.request_id)
            &&& asked.next_request_id == model.next_request_id + 1
            &&& asked.completed(answer) matches Some(whole) && whole.left == at_hand.left
                && (at_hand.right is None ==> whole.right == answer.left) && whole.page_left
                == Some(left) && whole.page_right == Some(right)
        }),
{
    reveal(ViewerModel::group_asked);
}

/// A screen whose pages are all decoded comes on screen at once.
pub proof fn law_held_decodes_show_at_once(
    screen: Screen,
    nav_id: u64,
    page: u32,
    pages: (Option<u32>, Option<u32>),
    signature: RenderSignature,
    requirement: DisplayRequirement,
    area: DisplayArea,
    now: u64,
)
    requires
        screen.model.request.queued_nav is None,
        screen.model.request.queued_view is None,
        ({
            let kept = screen.model.kept_pages().to_set();
            let left = resolve(
                screen.model.interactive,
                screen.bg,
                pages.0,
                requirement,
                kept,
            );
            let right = resolve(left.interactive, left.bg, pages.1, requirement, kept);
            left.ready && right.ready
        }),
    ensures
        at_rest_on(
            screen.decodes_shown_or_asked(
                nav_id,
                page,
                pages,
                signature,
                requirement,
                area,
                now,
                waiting(area, now),
            ).model,
            screen.model.persistent.requested_page,
        ),
{
    reveal(Screen::decodes_shown_or_asked);
    let kept = screen.model.kept_pages().to_set();
    let left = resolve(screen.model.interactive, screen.bg, pages.0, requirement, kept);
    let right = resolve(left.interactive, left.bg, pages.1, requirement, kept);
    let model = ViewerModel { interactive: right.interactive, ..screen.model };
    let result = model.synthetic_result(
        nav_id,
        page,
        pages,
        left.frames,
        right.frames,
        signature,
    );
    assert(result.error is None && model.with_page_count(result.page_count) == model) by {
        reveal(ViewerModel::synthetic_result);
        reveal(ViewerModel::with_page_count);
    }
    let ready = Screen { model, bg: right.bg };
    law_results_are_shown(ready, result, Seq::empty(), Seq::empty(), area, now);
    let shown = ready.applied(
        result,
        Seq::empty(),
        Seq::empty(),
        area,
        now,
        waiting(area, now),
    );
    lemma_prefetch_keeps_the_page(shown.model, area, now);
}

/// A lookup that found textures for some pages counts as a part, one that found none as a miss.
pub proof fn law_lookups_are_counted(model: ViewerModel)
    requires
        model.history.miss_count < u64::MAX,
        model.history.partial_spread_hit_count < u64::MAX,
        model.history.partial_reuse_count < u64::MAX,
    ensures
        model.lookup_noted(false).history.miss_count == model.history.miss_count + 1,
        model.lookup_noted(false).history.partial_spread_hit_count
            == model.history.partial_spread_hit_count,
        model.lookup_noted(true).history.partial_spread_hit_count
            == model.history.partial_spread_hit_count + 1,
        model.lookup_noted(true).history.miss_count == model.history.miss_count,
        model.reuse_noted().history.partial_reuse_count == model.history.partial_reuse_count + 1,
        model.lookup_noted(true).history.entries == model.history.entries,
{
    reveal(ViewerModel::lookup_noted);
    reveal(ViewerModel::reuse_noted);
}

/// A slideshow that does not wait for the page goes on as it was when a page is shown.
pub proof fn law_running_waits_go_on(
    model: ViewerModel,
    left: Slot,
    right: Slot,
    is_stream: bool,
    now: u64,
)
    requires
        !model.playback.slideshow_active || !model.playback.slideshow_arm_on_display,
    ensures
        model.shown(left, right, is_stream, now).playback == model.playback,
{
    reveal(ViewerModel::shown);
}

} // verus!
