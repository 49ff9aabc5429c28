use std::collections::HashSet;

use cbz_viewer::domain::{
    BookId, BookMeta, BookPageMap, PageMapEntry, ReadingDirection, SpreadMode, ViewerQuality,
};
use cbz_viewer::viewer::display_model::DisplayArea;
use cbz_viewer::viewer::frame::{InputStep, ViewerAction, ViewerKeys, ViewerUiCapabilities};
use cbz_viewer::viewer::frame_end::FrameContent;
use cbz_viewer::viewer::frame_run::FrameInput;
use cbz_viewer::viewer::page_content::{PageContent, StreamFrame};
use cbz_viewer::viewer::rgba_page_cache::{FrameSet, RgbaCacheKey, RgbaPageCache};
use cbz_viewer::viewer::state::{
    BoundaryPreviewDirection, BoundaryPreviewState, ErrorNote, LoadKind, NavMode, IntervalBounds, ViewerBook,
    ViewerEffect, ViewerLoadRequest, ViewerResult, ViewerState, ViewerStateInit,
};
use cbz_viewer::viewer::working_set::RenderSignature;

const AREA: DisplayArea = DisplayArea {
    display_w: 800,
    display_h: 600,
    max_tex_side: 4096,
};

const MILLI: u64 = 1_000_000;

fn init(spread_setting: SpreadMode, page_map: Option<BookPageMap>) -> ViewerStateInit {
    ViewerStateInit {
        book: ViewerBook {
            entry: BookMeta {
                id: BookId(5),
                path: "/books/a.cbz".to_string(),
                title: "A".to_string(),
            },
            page_display_labels: (0..10).map(|page| format!("p{}", page)).collect(),
            page_entry_names: (0..10).map(|page| format!("{}.jpg", page)).collect(),
            page_map,
        },
        start_page: 0,
        spad_session_id: 77,
        cover_blank: false,
        quality_override: None,
        global_reading_direction: ReadingDirection::LeftToRight,
        reading_direction_override: None,
        spread_setting,
        background_worker_count: 2,
        texture_history_max_bytes: 100_000_000,
        texture_future_max_bytes: 100_000_000,
        rgba_cache_max_mb: 64,
        quality: ViewerQuality::Balanced,
        slideshow_interval: 3000 * MILLI,
        slideshow_bounds: IntervalBounds {
            shortest: 1_000_000,
            longest: 60_000_000_000,
        },
        min_frame_delay_ms: 20,
        full_equivalent_size_hint: None,
    }
}

fn portrait_book() -> Option<BookPageMap> {
    Some(BookPageMap {
        pages: (0..10)
            .map(|page| PageMapEntry {
                width: 1000,
                height: if page == 2 { 700 } else { 1500 },
                entry_name: format!("{}.jpg", page),
            })
            .collect(),
    })
}

fn still(id: u64) -> FrameSet {
    FrameSet {
        id,
        frame_count: 1,
        first_frame_bytes: 4000,
        first_frame_width: 20,
        first_frame_height: 50,
        first_delay_ms: 0,
    }
}

fn result_for(request: &ViewerLoadRequest, frames: Option<FrameSet>) -> ViewerResult {
    ViewerResult {
        request_id: request.request_id,
        left: frames,
        right: None,
        page_count: 10,
        left_orig_w: 100,
        left_orig_h: 200,
        right_orig_w: 0,
        right_orig_h: 0,
        error: None,
        left_is_animation_stream: false,
        right_is_animation_stream: false,
        left_stream_exhausted: false,
        right_stream_exhausted: false,
        queue_wait_ms: 1,
        decode_ms: 2,
        view_idx: request.view_idx,
        nav_id: request.nav_id,
        page_left: request.page_left,
        page_right: request.page_right,
        request_display_w: request.display_w,
        request_display_h: request.display_h,
        request_quality: request.quality,
        request_max_tex_side: request.max_tex_side,
    }
}

struct Viewer {
    state: ViewerState,
    bg: RgbaPageCache,
}

impl Viewer {
    fn open(init: ViewerStateInit) -> Self {
        let mut viewer = Viewer {
            state: ViewerState::new(init),
            bg: RgbaPageCache::new(),
        };
        viewer
            .bg
            .set_max_bytes_with_context(10_000_000, 0, &HashSet::new());
        viewer
            .state
            .prepare_frame(&mut viewer.bg, AREA, false, 1000 * MILLI);
        viewer
    }

    /// A viewer with its first screen shown.
    fn shown(init: ViewerStateInit) -> Self {
        let mut viewer = Viewer::open(init);
        viewer.answer_all(1100 * MILLI);
        viewer.state.take_outbox();
        viewer
    }

    fn loads(&mut self) -> Vec<ViewerLoadRequest> {
        self.state
            .take_outbox()
            .into_iter()
            .filter_map(|effect| match effect {
                ViewerEffect::Load(request) => Some(request),
                _ => None,
            })
            .collect()
    }

    fn take(&mut self, result: ViewerResult, now: u64) -> bool {
        self.state
            .handle_polled_loader_result(&mut self.bg, result, &vec![], &vec![], AREA, now)
    }

    fn answer_all(&mut self, now: u64) {
        for request in self.loads() {
            let page = request.page_left.expect("one page to a request");
            self.take(result_for(&request, Some(still(page as u64))), now);
        }
    }

    fn next(&mut self, now: u64) {
        self.state.go_next(&mut self.bg, AREA, now);
    }
}

fn texture_of(content: &Option<PageContent>) -> Option<(usize, usize)> {
    content
        .as_ref()
        .map(|content| (content.texture().width, content.texture().height))
}

#[test]
fn the_first_screen_is_asked_for_and_shown() {
    let mut viewer = Viewer::open(init(SpreadMode::Single, None));
    assert!(!viewer.state.request.initial_load_pending);
    let loads = viewer.loads();
    assert_eq!(loads.len(), 1);
    assert_eq!(loads[0].kind, LoadKind::Display);
    assert_eq!((loads[0].page_left, loads[0].page_right), (Some(0), None));
    assert_eq!((loads[0].display_w, loads[0].display_h), (800, 600));
    assert_eq!(loads[0].quality, ViewerQuality::Balanced);
    assert!(viewer.take(result_for(&loads[0], Some(still(9))), 1100 * MILLI));
    let state = &mut viewer.state;
    assert!(!state.ui_runtime.loading);
    assert_eq!(state.persistent.page_count, 10);
    assert_eq!(state.persistent.displayed_page, 0);
    assert_eq!(texture_of(&state.display_assets.content_left), Some((20, 50)));
    assert_eq!(state.display_assets.gpu_texture_history.entry_count(), 1);
    assert_eq!(state.display_assets.gpu_texture_history.current_bytes(), 20 * 50 * 4);
    let effects = state.take_outbox();
    assert!(effects.iter().any(|effect| matches!(
        effect,
        ViewerEffect::Upload { frames, .. } if frames.id == 9
    )));
    assert!(effects.iter().any(|effect| matches!(
        effect,
        ViewerEffect::Publish(published) if published.displayed_page == 0 && !published.loading
    )));
    assert!(state.take_outbox().is_empty());
}

#[test]
fn answers_that_nothing_waits_for_change_nothing() {
    let mut viewer = Viewer::open(init(SpreadMode::Single, None));
    let loads = viewer.loads();
    let mut result = result_for(&loads[0], Some(still(9)));
    result.request_id = 99;
    assert!(!viewer.take(result, 1100 * MILLI));
    assert!(viewer.state.ui_runtime.loading);
    assert!(viewer.state.display_assets.content_left.is_none());
    assert!(viewer.state.take_outbox().is_empty());
}

#[test]
fn errors_leave_the_screen() {
    let mut viewer = Viewer::shown(init(SpreadMode::Single, None));
    viewer.next(2000 * MILLI);
    let loads = viewer.loads();
    let mut result = result_for(&loads[0], None);
    result.error = Some(ErrorNote(3));
    assert!(viewer.take(result, 2100 * MILLI));
    assert_eq!(viewer.state.ui_runtime.error, Some(ErrorNote(3)));
    assert!(!viewer.state.ui_runtime.loading);
    assert_eq!(viewer.state.persistent.displayed_page, 0);
    assert_eq!(
        texture_of(&viewer.state.display_assets.content_left),
        Some((20, 50))
    );
    assert_eq!(
        viewer.state.decide_frame_content(false, false, false),
        FrameContent::Error(ErrorNote(3))
    );
}

#[test]
fn steps_stay_in_the_book() {
    let mut viewer = Viewer::shown(init(SpreadMode::Single, None));
    assert_eq!(viewer.state.previous_page_target(), None);
    assert_eq!(viewer.state.next_page_target(), Some(1));
    viewer.state.go_prev(&mut viewer.bg, AREA, 2000 * MILLI);
    assert!(viewer.loads().is_empty());
    viewer.state.go_last(&mut viewer.bg, AREA, 2000 * MILLI);
    viewer.answer_all(2100 * MILLI);
    assert_eq!(viewer.state.persistent.displayed_page, 9);
    assert_eq!(viewer.state.next_page_target(), None);
    assert!(viewer.state.reading_session.reached_end);
    viewer.state.go_first(&mut viewer.bg, AREA, 3000 * MILLI);
    // The first page is still held as a texture.
    assert!(viewer.loads().is_empty());
    assert_eq!(viewer.state.persistent.displayed_page, 0);
    assert_eq!(
        viewer.state.display_assets.gpu_texture_history.snapshot().full_hit_count,
        1
    );
}

#[test]
fn only_the_latest_input_waits() {
    let mut viewer = Viewer::shown(init(SpreadMode::Single, None));
    viewer.next(2000 * MILLI);
    let first = viewer.loads();
    assert_eq!(first[0].page_left, Some(1));
    viewer.next(2010 * MILLI);
    assert_eq!(viewer.state.request.queued_view, Some(2));
    viewer.state.request_view(&mut viewer.bg, 4, AREA, 2020 * MILLI);
    assert!(viewer.loads().is_empty());
    assert_eq!(viewer.state.persistent.requested_page, 1);
    assert_eq!(viewer.state.persistent.target_page, 4);
    assert_eq!(viewer.state.request.queued_view, Some(4));
    viewer.take(result_for(&first[0], Some(still(1))), 2100 * MILLI);
    let second = viewer.loads();
    assert_eq!(second.len(), 1);
    assert_eq!(second[0].page_left, Some(4));
    viewer.take(result_for(&second[0], Some(still(4))), 2200 * MILLI);
    assert_eq!(viewer.state.persistent.displayed_page, 4);
    assert_eq!(viewer.state.request.queued_view, None);
}

#[test]
fn background_decodes_are_shown_at_once() {
    let mut viewer = Viewer::shown(init(SpreadMode::Single, None));
    let key = RgbaCacheKey {
        page: 1,
        render_signature: RenderSignature::from_decode_request(
            ViewerQuality::Balanced,
            800,
            600,
            4096,
        ),
    };
    viewer.bg.insert(key, still(40), "bg", 0, &HashSet::new());
    viewer.next(2000 * MILLI);
    assert_eq!(viewer.state.persistent.displayed_page, 1);
    assert!(!viewer.state.ui_runtime.loading);
    let effects = viewer.state.take_outbox();
    assert!(effects.iter().any(|effect| matches!(
        effect,
        ViewerEffect::Upload { frames, .. } if frames.id == 40
    )));
    assert!(!effects.iter().any(|effect| matches!(effect, ViewerEffect::Load(_))));
}

#[test]
fn both_halves_of_a_spread_are_awaited_in_any_order() {
    for swapped in [false, true] {
        let mut viewer = Viewer::shown(init(SpreadMode::Spread, None));
        assert_eq!(viewer.state.persistent.displayed_page, 0);
        assert!(viewer.state.display_assets.content_right.is_some());
        viewer.next(2000 * MILLI);
        let mut loads = viewer.loads();
        assert_eq!(loads.len(), 2);
        assert_eq!((loads[0].page_left, loads[1].page_left), (Some(2), Some(3)));
        assert_eq!(loads[0].display_w, 400);
        if swapped {
            loads.reverse();
        }
        let page = |request: &ViewerLoadRequest| request.page_left.expect("one page") as u64;
        viewer.take(result_for(&loads[0], Some(still(page(&loads[0])))), 2100 * MILLI);
        assert!(viewer.state.ui_runtime.loading);
        viewer.take(result_for(&loads[1], Some(still(page(&loads[1])))), 2200 * MILLI);
        assert!(!viewer.state.ui_runtime.loading);
        assert_eq!(viewer.state.persistent.displayed_page, 2);
        let uploads: Vec<u64> = viewer
            .state
            .take_outbox()
            .iter()
            .filter_map(|effect| match effect {
                ViewerEffect::Upload { frames, .. } => Some(frames.id),
                _ => None,
            })
            .collect();
        assert_eq!(uploads, vec![2, 3]);
    }
}

#[test]
fn pairing_goes_round() {
    let mut viewer = Viewer::shown(init(SpreadMode::Auto, portrait_book()));
    assert_eq!(viewer.state.persistent.spread_setting, SpreadMode::Auto);
    let mut seen = Vec::new();
    for i in 0..3u64 {
        viewer.state.toggle_spread(&mut viewer.bg, AREA, (2000 + i) * MILLI);
        viewer.answer_all((2500 + i) * MILLI);
        seen.push(viewer.state.persistent.spread_setting);
    }
    assert_eq!(seen, vec![SpreadMode::Single, SpreadMode::Spread, SpreadMode::Auto]);
    let mut viewer = Viewer::shown(init(SpreadMode::Auto, None));
    assert_eq!(viewer.state.persistent.spread_setting, SpreadMode::Single);
    assert!(!viewer.state.auto_mode_available());
    viewer.state.toggle_spread(&mut viewer.bg, AREA, 2000 * MILLI);
    assert_eq!(viewer.state.persistent.spread_setting, SpreadMode::Spread);
}

#[test]
fn pairs_follow_the_plan() {
    let mut viewer = Viewer::shown(init(SpreadMode::Auto, portrait_book()));
    assert_eq!(viewer.state.current_view_pages(0), (Some(0), Some(1)));
    viewer.next(2000 * MILLI);
    viewer.answer_all(2100 * MILLI);
    assert_eq!(viewer.state.persistent.displayed_page, 2);
    assert_eq!(viewer.state.current_displayed_page_min_max(), Some((2, 2)));
    viewer.next(3000 * MILLI);
    viewer.answer_all(3100 * MILLI);
    assert_eq!(viewer.state.current_displayed_page_min_max(), Some((3, 4)));
    viewer.state.toggle_cover_blank(&mut viewer.bg, AREA, 4000 * MILLI);
    viewer.answer_all(4100 * MILLI);
    assert!(viewer.state.persistent.cover_blank);
    assert_eq!(viewer.state.current_view_pages(0), (Some(0), None));
}

#[test]
fn another_quality_drops_the_textures() {
    let mut viewer = Viewer::shown(init(SpreadMode::Single, None));
    assert_eq!(viewer.state.display_assets.gpu_texture_history.entry_count(), 1);
    viewer.state.set_quality(ViewerQuality::Speed);
    assert_eq!(viewer.state.current_quality(), ViewerQuality::Speed);
    assert_eq!(viewer.state.display_assets.gpu_texture_history.entry_count(), 0);
    viewer.state.measure_frame(800, 600);
    viewer.state.reload_current_view(&mut viewer.bg, 4096, 2000 * MILLI);
    let loads = viewer.loads();
    assert_eq!(loads[0].quality, ViewerQuality::Speed);
    assert_eq!(loads[0].page_left, Some(0));
}

#[test]
fn a_start_page_counts_until_the_first_load() {
    let mut state = ViewerState::new(init(SpreadMode::Single, None));
    state.apply_start_page_before_initial_load(Some(4));
    assert_eq!(state.current_requested_page(), 4);
    let mut viewer = Viewer::shown(init(SpreadMode::Single, None));
    viewer.state.apply_start_page_before_initial_load(Some(4));
    assert_eq!(viewer.state.current_requested_page(), 0);
}

#[test]
fn fast_input_follows_the_latest() {
    let mut viewer = Viewer::shown(init(SpreadMode::Single, None));
    viewer.state.register_nav_input(2000 * MILLI);
    assert_eq!(viewer.state.ui_runtime.nav_mode, NavMode::Sequential);
    for i in 1..20u64 {
        viewer.state.register_nav_input((2000 + i * 30) * MILLI);
    }
    assert_eq!(viewer.state.ui_runtime.nav_mode, NavMode::FollowLatest);
    viewer.state.register_nav_input(9000 * MILLI);
    assert_eq!(viewer.state.ui_runtime.nav_mode, NavMode::Sequential);
}

#[test]
fn warmed_textures_are_promoted_when_shown() {
    let mut viewer = Viewer::shown(init(SpreadMode::Single, None));
    for page in 1..4u32 {
        let key = RgbaCacheKey {
            page,
            render_signature: RenderSignature::from_decode_request(
                ViewerQuality::Balanced,
                800,
                600,
                4096,
            ),
        };
        viewer
            .bg
            .insert(key, still(page as u64), "bg", 0, &HashSet::new());
    }
    // Not in the frame that brought a page on screen.
    assert!(!viewer.state.maybe_run_gpu_warmup(&viewer.bg, AREA));
    viewer.state.begin_frame(None, 1200 * MILLI);
    assert!(viewer.state.maybe_run_gpu_warmup(&viewer.bg, AREA));
    let warm = viewer.state.display_assets.gpu_warmup_cache.entry_snapshots();
    assert_eq!(warm.len(), 1);
    assert_eq!(warm[0].page, 1);
    viewer.state.take_outbox();
    viewer.next(2000 * MILLI);
    assert_eq!(viewer.state.persistent.displayed_page, 1);
    assert_eq!(
        viewer.state.display_assets.gpu_warmup_cache.snapshot().promotion_count,
        1
    );
    assert_eq!(viewer.state.display_assets.gpu_texture_history.entry_count(), 2);
    // Nothing is warmed while a page is on its way.
    viewer.state.go_last(&mut viewer.bg, AREA, 3000 * MILLI);
    assert!(viewer.state.ui_runtime.loading);
    assert!(!viewer.state.maybe_run_gpu_warmup(&viewer.bg, AREA));
}

fn frame(id: u64) -> StreamFrame {
    StreamFrame {
        id,
        width: 20,
        height: 50,
        delay_ms: 100,
    }
}

#[test]
fn an_animation_asks_for_more_frames_once() {
    let mut viewer = Viewer::open(init(SpreadMode::Single, None));
    let loads = viewer.loads();
    let mut result = result_for(
        &loads[0],
        Some(FrameSet {
            frame_count: 2,
            ..still(1)
        }),
    );
    result.left_is_animation_stream = true;
    let chunk = vec![frame(1), frame(2)];
    assert!(viewer.state.handle_polled_loader_result(
        &mut viewer.bg,
        result,
        &chunk,
        &vec![],
        AREA,
        1100 * MILLI,
    ));
    assert_eq!(viewer.state.request.active_animation_stream_view, Some(0));
    viewer.state.take_outbox();
    assert!(viewer.state.maybe_request_animation_stream_fill(AREA));
    let fill = viewer.loads();
    assert_eq!(fill.len(), 1);
    assert_eq!(fill[0].kind, LoadKind::AnimationStreamFill);
    assert!(!viewer.state.maybe_request_animation_stream_fill(AREA));
    let mut more = result_for(
        &fill[0],
        Some(FrameSet {
            frame_count: 1,
            ..still(3)
        }),
    );
    more.left_is_animation_stream = true;
    assert!(viewer.state.handle_polled_loader_result(
        &mut viewer.bg,
        more,
        &vec![frame(3)],
        &vec![],
        AREA,
        1200 * MILLI,
    ));
    match &viewer.state.display_assets.content_left {
        Some(PageContent::AnimatedStream { queue, .. }) => {
            assert_eq!(queue.iter().map(|frame| frame.id).collect::<Vec<u64>>(), vec![1, 2, 3]);
        }
        _ => panic!("the animation plays on"),
    }
}

const CAPABILITIES: ViewerUiCapabilities = ViewerUiCapabilities {
    allow_delete: true,
    allow_book_navigation: true,
    allow_favorite_toggle: true,
};

fn no_keys() -> ViewerKeys {
    ViewerKeys {
        left_side: false,
        right_side: false,
        page_down: false,
        page_up: false,
        home: false,
        end: false,
        previous_book: false,
        next_book: false,
        delete: false,
        toggle_slideshow: false,
        toggle_fullscreen: false,
    }
}

fn input(keys: ViewerKeys) -> FrameInput {
    FrameInput {
        is_fullscreen: false,
        in_viewport_transition: false,
        interaction_blocked: false,
        capabilities: CAPABILITIES,
        wheel: None,
        keys,
    }
}

#[test]
fn keys_turn_pages_by_the_reading_direction() {
    let right = ViewerKeys {
        right_side: true,
        ..no_keys()
    };
    let mut viewer = Viewer::shown(init(SpreadMode::Single, None));
    viewer.state.act_on_frame(&mut viewer.bg, &input(right), AREA, 2000 * MILLI);
    assert_eq!(viewer.loads()[0].page_left, Some(1));
    let mut manga = init(SpreadMode::Single, None);
    manga.global_reading_direction = ReadingDirection::RightToLeft;
    let mut viewer = Viewer::shown(manga);
    viewer.state.act_on_frame(&mut viewer.bg, &input(right), AREA, 2000 * MILLI);
    assert!(viewer.loads().is_empty());
    let left = ViewerKeys {
        left_side: true,
        ..no_keys()
    };
    viewer.state.act_on_frame(&mut viewer.bg, &input(left), AREA, 3000 * MILLI);
    assert_eq!(viewer.loads()[0].page_left, Some(1));
}

#[test]
fn keys_ask_the_caller() {
    let mut viewer = Viewer::shown(init(SpreadMode::Single, None));
    let mut ask = |keys: ViewerKeys| {
        viewer
            .state
            .act_on_frame(&mut viewer.bg, &input(keys), AREA, 2000 * MILLI)
            .action
    };
    assert!(matches!(ask(no_keys()), ViewerAction::Nothing));
    assert!(matches!(
        ask(ViewerKeys { delete: true, ..no_keys() }),
        ViewerAction::RequestDelete
    ));
    assert!(matches!(
        ask(ViewerKeys { toggle_fullscreen: true, ..no_keys() }),
        ViewerAction::ToggleFullscreen
    ));
    assert!(matches!(
        ask(ViewerKeys { next_book: true, ..no_keys() }),
        ViewerAction::NextBook
    ));
    assert!(matches!(
        ask(ViewerKeys { previous_book: true, ..no_keys() }),
        ViewerAction::PreviousBook
    ));
}

#[test]
fn blocked_input_asks_nothing() {
    let mut viewer = Viewer::shown(init(SpreadMode::Single, None));
    let mut blocked = input(ViewerKeys {
        delete: true,
        right_side: true,
        ..no_keys()
    });
    blocked.interaction_blocked = true;
    blocked.wheel = Some(InputStep::Next);
    let outcome = viewer.state.act_on_frame(&mut viewer.bg, &blocked, AREA, 2000 * MILLI);
    assert!(matches!(outcome.action, ViewerAction::Nothing));
    assert!(viewer.loads().is_empty());
    blocked.interaction_blocked = false;
    blocked.in_viewport_transition = true;
    viewer.state.act_on_frame(&mut viewer.bg, &blocked, AREA, 2000 * MILLI);
    assert!(viewer.loads().is_empty());
}

#[test]
fn the_wheel_rests_after_a_page() {
    let mut viewer = Viewer::shown(init(SpreadMode::Single, None));
    let mut wheel = input(no_keys());
    wheel.wheel = Some(InputStep::Next);
    viewer.state.act_on_frame(&mut viewer.bg, &wheel, AREA, 2000 * MILLI);
    assert_eq!(viewer.loads()[0].page_left, Some(1));
    assert!(!viewer.state.wheel_ready(2100 * MILLI));
    assert!(viewer.state.wheel_ready(2200 * MILLI));
}

#[test]
fn a_step_past_the_end_brings_up_the_neighbour() {
    let mut viewer = Viewer::shown(init(SpreadMode::Single, None));
    let moved = viewer.state.step_by_input(
        &mut viewer.bg,
        InputStep::Previous,
        false,
        true,
        AREA,
        2000 * MILLI,
    );
    assert!(!moved);
    assert_eq!(viewer.state.ui_runtime.last_nav_input_at, None);
    assert!(viewer.state.boundary_preview_needs_request());
    assert!(viewer.state.boundary_preview_mark_request_sent(31));
    assert_eq!(
        viewer.state.boundary_preview_direction_for_request(31),
        Some(BoundaryPreviewDirection::Previous)
    );
    let book = || BookMeta {
        id: BookId(6),
        path: "/books/b.cbz".to_string(),
        title: "B".to_string(),
    };
    assert!(!viewer.state.boundary_preview_mark_ready(30, book()));
    assert!(viewer.state.boundary_preview_mark_ready(31, book()));
    assert_eq!(
        viewer.state.boundary_preview_ready_book().map(|book| book.id),
        Some(BookId(6))
    );
    assert!(!viewer.state.boundary_preview_clear_if_matches(30));
    assert!(viewer.state.boundary_preview_clear_if_matches(31));
    assert!(matches!(viewer.state.boundary_preview, BoundaryPreviewState::Hidden));
}

#[test]
fn the_slideshow_turns_pages_and_ends_with_the_book() {
    let mut viewer = Viewer::shown(init(SpreadMode::Single, None));
    viewer.state.toggle_slideshow(2000 * MILLI);
    assert!(viewer.state.slideshow_active());
    viewer.state.run_slideshow(&mut viewer.bg, AREA, false, 4999 * MILLI);
    assert!(viewer.loads().is_empty());
    viewer.state.run_slideshow(&mut viewer.bg, AREA, true, 5000 * MILLI);
    assert!(viewer.loads().is_empty());
    viewer.state.run_slideshow(&mut viewer.bg, AREA, false, 5000 * MILLI);
    viewer.answer_all(5100 * MILLI);
    assert_eq!(viewer.state.persistent.displayed_page, 1);
    viewer.state.go_last(&mut viewer.bg, AREA, 6000 * MILLI);
    viewer.answer_all(6100 * MILLI);
    assert!(viewer.state.slideshow_active());
    viewer.state.run_slideshow(&mut viewer.bg, AREA, false, 60_000 * MILLI);
    viewer.state.run_slideshow(&mut viewer.bg, AREA, false, 90_000 * MILLI);
    assert!(!viewer.state.slideshow_active());
}

#[test]
fn a_session_is_reported_once() {
    let mut viewer = Viewer::shown(init(SpreadMode::Single, None));
    let snapshot = viewer
        .state
        .take_reading_session_snapshot()
        .expect("not reported yet");
    assert!(snapshot.displayed_any_page);
    assert_eq!(snapshot.resume_page, Some(0));
    assert_eq!(snapshot.page_count, 10);
    assert!(!snapshot.reached_end);
    assert_eq!(viewer.state.take_reading_session_snapshot(), None);
    viewer.state.complete_reading_session_notification();
    assert_eq!(viewer.state.take_reading_session_snapshot(), None);
    let mut viewer = Viewer::open(init(SpreadMode::Single, None));
    let snapshot = viewer
        .state
        .take_reading_session_snapshot()
        .expect("not reported yet");
    assert!(!snapshot.displayed_any_page);
    viewer.state.discard_reading_session_notification();
    assert_eq!(viewer.state.take_reading_session_snapshot(), None);
}

#[test]
fn a_range_is_marked_in_either_order() {
    let mut viewer = Viewer::shown(init(SpreadMode::Single, None));
    let state = &mut viewer.state;
    state.delete_range_mark_current(4);
    assert!(state.delete_range_selection().has_any());
    assert!(!state.delete_range_selection().is_complete());
    state.delete_range_mark_current(2);
    let range = state.delete_range_selection();
    assert_eq!((range.start, range.end), (Some(2), Some(4)));
    assert_eq!(
        state.delete_range_entry_names(),
        Some(vec!["2.jpg".to_string(), "3.jpg".to_string(), "4.jpg".to_string()])
    );
    assert!(!state.delete_range_would_remove_all_pages());
    state.delete_range_set_start(0);
    state.delete_range_set_end(9);
    assert!(state.delete_range_would_remove_all_pages());
    state.delete_range_clear();
    assert!(!state.delete_range_selection().has_any());
    assert_eq!(state.delete_range_entry_names(), None);
}

#[test]
fn an_area_rests_while_the_window_changes() {
    let mut viewer = Viewer::shown(init(SpreadMode::Single, None));
    let area = viewer.state.measure_frame(800, 600);
    assert_eq!((area.display_w, area.display_h), (800, 600));
    viewer.state.ui_runtime.viewport_transition_active = true;
    let area = viewer.state.measure_frame(500, 300);
    assert!(area.in_viewport_transition);
    assert_eq!((area.display_w, area.display_h), (800, 600));
    assert_eq!(viewer.state.ui_runtime.last_stable_display_w, 800);
}
