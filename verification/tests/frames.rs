use std::collections::HashSet;

use cbz_viewer::domain::{BookId, BookMeta, ReadingDirection, SpreadMode, ViewerQuality};
use cbz_viewer::viewer::display_model::DisplayArea;
use cbz_viewer::viewer::page_content::{PageContent, StreamFrame};
use cbz_viewer::viewer::rgba_page_cache::{FrameSet, RgbaCacheKey, RgbaPageCache};
use cbz_viewer::viewer::spad::{AdjacentBook, SpadResult};
use cbz_viewer::viewer::state::{
    BoundaryPreviewDirection, IntervalBounds, ViewerBook, ViewerEffect, ViewerState, ViewerStateInit,
};
use cbz_viewer::viewer::texture_entries::TextureRef;
use cbz_viewer::viewer::worker_manager::L2StreamingStatus;
use cbz_viewer::viewer::working_set::RenderSignature;

const AREA: DisplayArea = DisplayArea {
    display_w: 800,
    display_h: 600,
    max_tex_side: 4096,
};

const MILLI: u64 = 1_000_000;

fn viewer() -> ViewerState {
    let mut state = ViewerState::new(ViewerStateInit {
        book: ViewerBook {
            entry: BookMeta {
                id: BookId(5),
                path: "/books/a.cbz".to_string(),
                title: "A".to_string(),
            },
            page_display_labels: Vec::new(),
            page_entry_names: Vec::new(),
            page_map: None,
        },
        start_page: 0,
        spad_session_id: 77,
        cover_blank: false,
        quality_override: None,
        global_reading_direction: ReadingDirection::LeftToRight,
        reading_direction_override: None,
        spread_setting: SpreadMode::Single,
        background_worker_count: 2,
        texture_history_max_bytes: 100_000_000,
        texture_future_max_bytes: 100_000_000,
        rgba_cache_max_mb: 64,
        quality: ViewerQuality::Balanced,
        slideshow_interval: 3000 * MILLI,
        slideshow_bounds: IntervalBounds {
            shortest: 1_000_000,
            longest: 60_000_000_000,
        },
        min_frame_delay_ms: 20,
        full_equivalent_size_hint: None,
    });
    assert!(state.adopt_page_count_if_empty(10));
    state
}

fn frames(frame_count: usize) -> FrameSet {
    FrameSet {
        id: 1,
        frame_count,
        first_frame_bytes: 4000,
        first_frame_width: 20,
        first_frame_height: 50,
        first_delay_ms: 100,
    }
}

#[test]
fn the_toolbar_waits_for_the_transition() {
    let mut state = viewer();
    assert!(state.shows_toolbar(false));
    assert!(!state.shows_toolbar(true));
    state.ui_runtime.fullscreen_transition_frames = 2;
    assert!(!state.shows_toolbar(false));
    state.measure_frame(800, 600);
    state.measure_frame(800, 600);
    assert!(state.shows_toolbar(false));
}

#[test]
fn controls_over_a_full_screen_page_fade() {
    let mut state = viewer();
    assert!(!state.fullscreen_overlay_shows(true, false, false, 0));
    assert!(state.fullscreen_overlay_shows(true, false, true, 0));
    assert_eq!(state.note_fullscreen_overlay(true, false, true, true, false, 0), None);
    assert!(state.fullscreen_overlay_shows(true, false, false, 900 * MILLI));
    assert_eq!(
        state.note_fullscreen_overlay(true, false, false, true, false, 900 * MILLI),
        Some(100 * MILLI)
    );
    assert!(!state.fullscreen_overlay_shows(true, false, false, 1001 * MILLI));
    state.note_fullscreen_overlay(true, false, false, false, false, 1001 * MILLI);
    assert_eq!(state.ui_runtime.fullscreen_overlay_visible_until, None);
    state.note_fullscreen_overlay(true, false, true, true, false, 0);
    state.note_fullscreen_overlay(false, false, false, false, false, 1);
    assert_eq!(state.ui_runtime.fullscreen_overlay_visible_until, None);
}

#[test]
fn frames_follow_while_something_is_awaited() {
    let mut state = viewer();
    assert_eq!(state.loading_repaint(), Some(16 * MILLI));
    state.ui_runtime.loading = false;
    assert_eq!(state.loading_repaint(), None);
    assert_eq!(state.slideshow_repaint(0), None);
    // Without a page on screen the slideshow waits for one.
    state.start_slideshow(1000 * MILLI);
    assert_eq!(state.slideshow_repaint(1500 * MILLI), Some(16 * MILLI));
    state.display_assets.content_left = Some(PageContent::from_frames(frames(1), 20, 40, 0));
    state.start_slideshow(1000 * MILLI);
    assert_eq!(state.slideshow_repaint(1500 * MILLI), Some(1000 * MILLI));
    assert_eq!(state.slideshow_repaint(3900 * MILLI), Some(100 * MILLI));
    assert_eq!(state.slideshow_repaint(9000 * MILLI), Some(16 * MILLI));
}

#[test]
fn a_picked_page_closes_the_preview() {
    let mut state = viewer();
    let mut bg = RgbaPageCache::new();
    state.ui_runtime.loading = false;
    state.begin_boundary_preview(BoundaryPreviewDirection::Next);
    state.pick_page(&mut bg, 7, AREA, 1000 * MILLI);
    assert!(!state.boundary_preview_needs_request());
    assert_eq!(state.persistent.target_page, 7);
    assert!(state.take_outbox().iter().any(|effect| matches!(
        effect,
        ViewerEffect::Load(request) if request.page_left == Some(7)
    )));
}

#[test]
fn a_preview_is_ready_with_its_picture() {
    let mut state = viewer();
    state.begin_boundary_preview(BoundaryPreviewDirection::Next);
    assert!(state.boundary_preview_mark_request_sent(3));
    assert!(!state.boundary_preview_mark_request_sent(4));
    let picture = TextureRef {
        id: 9,
        width: 10,
        height: 10,
    };
    assert!(!state.boundary_preview_set_thumbnail(3, picture));
    let book = BookMeta {
        id: BookId(6),
        path: "/books/b.cbz".to_string(),
        title: "B".to_string(),
    };
    assert!(state.boundary_preview_mark_ready(3, book));
    assert!(state.boundary_preview_ready_view().is_none());
    assert!(!state.boundary_preview_set_thumbnail(4, picture));
    assert!(state.boundary_preview_set_thumbnail(3, picture));
    let view = state.boundary_preview_ready_view().expect("complete");
    assert_eq!(view.thumbnail, picture);
    assert_eq!(view.direction, BoundaryPreviewDirection::Next);
    state.close_boundary_preview();
    assert!(state.boundary_preview_ready_view().is_none());
}

#[test]
fn frames_of_an_animation_are_uploaded_when_they_are_due() {
    let mut state = viewer();
    state.display_assets.content_left =
        Some(PageContent::from_frames(frames(3), 20, 40, 1000 * MILLI));
    let next = StreamFrame {
        id: 1,
        width: 20,
        height: 50,
        delay_ms: 200,
    };
    assert_eq!(state.tick_first_page(next, 1040 * MILLI), 60 * MILLI);
    assert!(state.take_outbox().is_empty());
    assert_eq!(state.tick_first_page(next, 1100 * MILLI), 200 * MILLI);
    assert!(matches!(
        state.take_outbox()[..],
        [ViewerEffect::UploadFrame { is_left: true, .. }]
    ));
    assert_eq!(state.tick_second_page(next, 1100 * MILLI), 3_600_000 * MILLI);
}

#[test]
fn the_end_of_a_frame_asks_for_chunks() {
    let mut state = viewer();
    let bg = RgbaPageCache::new();
    assert_eq!(state.end_frame(&bg, AREA), None);
    state.ui_runtime.loading = false;
    state.request.active_animation_stream_view = Some(0);
    let chunk = StreamFrame {
        id: 1,
        width: 20,
        height: 50,
        delay_ms: 200,
    };
    state.display_assets.content_left =
        Some(PageContent::from_stream_chunk(&vec![chunk], false, 20, 40, 0));
    assert_eq!(state.end_frame(&bg, AREA), Some(16 * MILLI));
    assert!(state.request.animation_stream_request_id.is_some());
}

#[test]
fn a_placeholder_comes_late_and_stays() {
    let mut state = viewer();
    let mut bg = RgbaPageCache::new();
    state.display_assets.content_left =
        Some(PageContent::from_frames(frames(1), 20, 40, 0));
    state.ui_runtime.loading = false;
    state.load_view(&mut bg, 3, AREA, 1000 * MILLI);
    state.update_pending_progress_state(1010 * MILLI);
    assert!(!state.show_follow_placeholder());
    state.update_pending_progress_state(9000 * MILLI);
    assert!(state.show_follow_placeholder());
    state.update_pending_progress_state(9001 * MILLI);
    assert!(state.show_follow_placeholder());
}

#[test]
fn decodes_are_found_under_their_exact_size() {
    let mut cache = RgbaPageCache::new();
    let none = HashSet::new();
    cache.set_max_bytes_with_context(100_000, 0, &none);
    let key = |page: u32, side: u32| RgbaCacheKey {
        page,
        render_signature: RenderSignature::from_decode_request(
            ViewerQuality::Balanced,
            side,
            side,
            4096,
        ),
    };
    assert!(cache.insert(key(1, 100), frames(1), "bg", 0, &none));
    assert!(cache.insert(key(2, 100), frames(1), "bg", 0, &none));
    assert_eq!(
        cache.get_with_tolerance(&key(1, 100)),
        Some((frames(1), "exact", (100, 100)))
    );
    assert_eq!(cache.page_order(), vec![2, 1]);
    assert_eq!(cache.get_with_tolerance(&key(1, 101)), None);
    assert_eq!(cache.has_tolerance_match(&key(2, 100)), Some((100, 100)));
    assert_eq!(cache.has_tolerance_match(&key(2, 99)), None);
}

#[test]
fn neighbours_are_asked_for_once_the_book_is_settled() {
    let mut state = viewer();
    state.ui_runtime.loading = false;
    state.configure_spad_targets(
        None,
        Some(AdjacentBook {
            path: "/books/b.cbz".to_string(),
            start_page: None,
            page_count: Some(5),
            page_map: None,
        }),
        None,
        None,
    );
    let none: Vec<SpadResult> = Vec::new();
    let mut status = L2StreamingStatus {
        generation: state.worker_manager_generation(AREA),
        book_id: Some(BookId(5)),
        settled: false,
    };
    let poll = state.poll_spad(AREA, &none, &none, &status);
    assert!(poll.next_request.is_none() && !poll.handled);
    status.settled = true;
    let poll = state.poll_spad(AREA, &none, &none, &status);
    let request = poll.next_request.expect("a page is open");
    assert_eq!((request.page, request.path.as_str()), (0, "/books/b.cbz"));
    assert!(poll.prev_request.is_none());
    let results = vec![SpadResult {
        request_id: request.request_id,
        page_count: 5,
        frames: Some(frames(1)),
        is_animation_stream: false,
    }];
    let poll = state.poll_spad(AREA, &results, &none, &status);
    assert!(poll.handled);
    assert_eq!(state.spad_overlay_lines().2, "  N: 1p 0..0");
    let poll = state.poll_spad(AREA, &none, &none, &status);
    assert!(poll.next_request.is_none());
    assert!(state.spad.next_inflight.is_some());
    // The answer to a request that was given up is void; what is decoded stays.
    state.cancel_spad();
    assert!(state.spad.next_inflight.is_none());
    assert_eq!(state.spad_overlay_lines().2, "  N: 1p 0..0");
}
