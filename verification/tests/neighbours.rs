use cbz_viewer::domain::{
    BookId, BookMeta, BookPageMap, PageMapEntry, ReadingDirection, SpreadMode, ViewerQuality,
};
use cbz_viewer::viewer::display_model::DisplayArea;
use cbz_viewer::viewer::interactive_plan::compute_interactive_request_pages;
use cbz_viewer::viewer::rgba_page_cache::FrameSet;
use cbz_viewer::viewer::spad::{
    build_spad_target, resolve_spad_decode_target, total_l2_rgba_budget_bytes, AdjacentBook,
    SpadArea, SpadDecodeLayoutSource, SpadResult, SpadSide, SpadTargetLayoutSettings,
    ViewerSpadState,
};
use cbz_viewer::viewer::spad_run::{generation_key, is_settled_for, spad_ready_range_label};
use cbz_viewer::viewer::state::{IntervalBounds, ViewerBook, ViewerState, ViewerStateInit};
use cbz_viewer::viewer::worker_manager::L2StreamingStatus;
use cbz_viewer::viewer::working_set::Direction;

const AREA: DisplayArea = DisplayArea {
    display_w: 800,
    display_h: 600,
    max_tex_side: 4096,
};

const SPAD_AREA: SpadArea = SpadArea {
    full_equivalent_w: 800,
    full_equivalent_h: 600,
    current_decode_w: 800,
    current_decode_h: 600,
    current_effective_spread: false,
};

fn book(path: &str, page_count: Option<u32>, start_page: Option<usize>) -> AdjacentBook {
    AdjacentBook {
        path: path.to_string(),
        start_page,
        page_count,
        page_map: None,
    }
}

fn still(id: u64, bytes: usize) -> FrameSet {
    FrameSet {
        id,
        frame_count: 1,
        first_frame_bytes: bytes,
        first_frame_width: 20,
        first_frame_height: 50,
        first_delay_ms: 0,
    }
}

fn answer(request_id: u64, frames: Option<FrameSet>) -> SpadResult {
    SpadResult {
        request_id,
        page_count: 5,
        frames,
        is_animation_stream: false,
    }
}

fn working() -> ViewerSpadState {
    let mut state = ViewerSpadState::new(77);
    state.configure_spad_targets(
        None,
        Some(book("/books/b.cbz", Some(5), Some(3))),
        None,
        None,
    );
    state.refresh_spad_budget_plan(SPAD_AREA, 64);
    state
}

fn dispatch(state: &mut ViewerSpadState, id: u64) -> Option<u32> {
    state
        .dispatch_spad_request(SpadSide::Next, ViewerQuality::Balanced, SPAD_AREA, 4096, id)
        .map(|request| request.page)
}

#[test]
fn pages_are_decoded_from_the_entry_page_on() {
    let mut state = working();
    assert_eq!(dispatch(&mut state, 1), Some(3));
    // One request is under way for a side at a time.
    assert_eq!(dispatch(&mut state, 2), None);
    state.handle_spad_result(SpadSide::Next, answer(1, Some(still(1, 1000))));
    assert_eq!(dispatch(&mut state, 2), Some(4));
    state.handle_spad_result(SpadSide::Next, answer(2, Some(still(2, 1000))));
    assert_eq!(dispatch(&mut state, 3), None);
    let target = state.next.as_ref().expect("configured");
    assert_eq!(target.scheduled_pages, vec![3, 4]);
    assert_eq!(target.current_bytes, 2000);
    assert_eq!(spad_ready_range_label(target), "2p 3..4");
    let ready = state.take_spad_ready_pages_for_target("/books/b.cbz", false);
    assert_eq!(ready.iter().map(|page| page.page).collect::<Vec<u32>>(), vec![3, 4]);
    assert!(state.take_spad_ready_pages_for_target("/books/c.cbz", false).is_empty());
}

#[test]
fn answers_count_once_and_only_in_time() {
    let mut state = working();
    assert_eq!(dispatch(&mut state, 1), Some(3));
    state.handle_spad_result(SpadSide::Next, answer(9, Some(still(1, 1000))));
    state.handle_spad_result(SpadSide::Prev, answer(1, Some(still(1, 1000))));
    assert_eq!(state.next.as_ref().map(|target| target.current_bytes), Some(0));
    state.handle_spad_result(SpadSide::Next, answer(1, Some(still(1, 1000))));
    state.handle_spad_result(SpadSide::Next, answer(1, Some(still(1, 1000))));
    assert_eq!(state.next.as_ref().map(|target| target.current_bytes), Some(1000));
    assert_eq!(dispatch(&mut state, 2), Some(4));
    state.configure_spad_targets(None, Some(book("/books/b.cbz", Some(5), None)), None, None);
    state.handle_spad_result(SpadSide::Next, answer(2, Some(still(1, 1000))));
    assert_eq!(state.next.as_ref().map(|target| target.current_bytes), Some(0));
}

#[test]
fn failures_and_giants_are_given_up() {
    let mut state = working();
    assert_eq!(dispatch(&mut state, 1), Some(3));
    state.handle_spad_result(SpadSide::Next, answer(1, None));
    assert_eq!(dispatch(&mut state, 2), Some(4));
    state.handle_spad_result(SpadSide::Next, answer(2, Some(still(1, 1_000_000_000))));
    let target = state.next.as_ref().expect("configured");
    assert!(target.exhausted);
    assert_eq!(target.current_bytes, 0);
    assert!(target.failed_pages.contains(&3) && target.failed_pages.contains(&4));
    assert_eq!(spad_ready_range_label(target), "-");
}

#[test]
fn budgets_leave_the_rest_to_the_current_book() {
    let state = working();
    let plan = state.build_spad_budget_plan(SPAD_AREA, 64);
    let total = 64 * 1024 * 1024;
    assert_eq!(total_l2_rgba_budget_bytes(64), total);
    assert_eq!(plan.prev_total_budget_bytes, 0);
    assert_eq!(plan.next_guaranteed_bytes, 800 * 600 * 4 * 2);
    assert_eq!(plan.next_extra_budget_bytes, total / 20);
    assert_eq!(plan.next_total_budget_bytes, 800 * 600 * 4 * 2 + total / 20);
    assert_eq!(plan.l2_effective_bytes, total - plan.next_total_budget_bytes);
    assert_eq!(
        state.effective_l2_rgba_cache_max_mb(SPAD_AREA, 64) as usize,
        plan.l2_effective_bytes.div_ceil(1024 * 1024)
    );
    assert_eq!(state.build_spad_budget_plan(SPAD_AREA, 1).l2_effective_bytes, 1024 * 1024);
}

#[test]
fn the_layout_of_a_neighbour_is_its_own() {
    let mut paired = book("/books/b.cbz", None, Some(1));
    paired.page_map = Some(BookPageMap {
        pages: (0..4)
            .map(|page| PageMapEntry {
                width: 1000,
                height: 1500,
                entry_name: format!("{}", page),
            })
            .collect(),
    });
    let target = build_spad_target(
        paired,
        Some(SpadTargetLayoutSettings {
            spread_setting: SpreadMode::Auto,
            cover_blank: true,
        }),
    );
    assert_eq!(target.page_count, Some(4));
    assert_eq!(target.entry_page, 1);
    let decode = resolve_spad_decode_target(target.layout_hint, SPAD_AREA);
    assert_eq!(decode.source, SpadDecodeLayoutSource::TargetPageMap);
    assert!(decode.effective_spread);
    assert_eq!((decode.decode_w, decode.decode_h), (400, 600));
    let decode = resolve_spad_decode_target(None, SPAD_AREA);
    assert_eq!(decode.source, SpadDecodeLayoutSource::CurrentLayout);
    assert_eq!((decode.decode_w, decode.decode_h), (800, 600));
}

fn viewer(path: &str) -> ViewerState {
    ViewerState::new(ViewerStateInit {
        book: ViewerBook {
            entry: BookMeta {
                id: BookId(5),
                path: path.to_string(),
                title: "A".to_string(),
            },
            page_display_labels: Vec::new(),
            page_entry_names: Vec::new(),
            page_map: None,
        },
        start_page: 3,
        spad_session_id: 77,
        cover_blank: false,
        quality_override: None,
        global_reading_direction: ReadingDirection::LeftToRight,
        reading_direction_override: None,
        spread_setting: SpreadMode::Single,
        background_worker_count: 2,
        texture_history_max_bytes: 100_000_000,
        texture_future_max_bytes: 100_000_000,
        rgba_cache_max_mb: 64,
        quality: ViewerQuality::Balanced,
        slideshow_interval: 0,
        slideshow_bounds: IntervalBounds {
            shortest: 1_000_000,
            longest: 60_000_000_000,
        },
        min_frame_delay_ms: 20,
        full_equivalent_size_hint: None,
    })
}

#[test]
fn decodes_of_a_neighbour_are_handed_over() {
    let mut state = working();
    for id in 1..3u64 {
        dispatch(&mut state, id);
        state.handle_spad_result(SpadSide::Next, answer(id, Some(still(id, 1000))));
    }
    let ready = state.take_spad_ready_pages_for_target("/BOOKS/B.cbz", true);
    assert_eq!(ready.len(), 2);
    let mut opened = viewer("/books/b.cbz");
    opened.promote_spad_ready_pages_to_l1_future(&ready, AREA, true);
    assert_eq!(opened.persistent.page_count, 5);
    let warm = opened.display_assets.gpu_warmup_cache.entry_snapshots();
    assert_eq!(warm.iter().map(|entry| entry.page).collect::<Vec<u32>>(), vec![3, 4]);
    let mut other = viewer("/books/c.cbz");
    other.promote_spad_ready_pages_to_l1_future(&ready, AREA, true);
    assert_eq!(other.display_assets.gpu_warmup_cache.entry_count(), 0);
    assert_eq!(other.persistent.page_count, 0);
}

#[test]
fn neighbours_wait_until_the_book_is_settled() {
    let mut state = viewer("/books/a.cbz");
    state.configure_spad_targets(None, Some(book("/books/b.cbz", Some(5), None)), None, None);
    let none: Vec<SpadResult> = Vec::new();
    let poll = state.poll_spad_when(AREA, &none, &none, false);
    assert!(poll.next_request.is_none());
    assert_eq!(state.spad_overlay_lines().2, "  N: -");
    assert_eq!(state.spad_overlay_lines().1, "  P: none");
    let status = |generation: u64, settled: bool| L2StreamingStatus {
        generation,
        book_id: Some(BookId(5)),
        settled,
    };
    assert!(is_settled_for(&status(4, true), BookId(5), 4));
    assert!(!is_settled_for(&status(4, true), BookId(5), 3));
    assert!(!is_settled_for(&status(4, true), BookId(6), 4));
    assert!(!is_settled_for(&status(4, false), BookId(5), 4));
}

#[test]
fn generations_follow_what_is_published() {
    let state = viewer("/books/a.cbz");
    let published = state.published_state(AREA);
    let snapshot = state.worker_manager_snapshot(&published);
    assert_eq!(snapshot.generation, state.worker_manager_generation(AREA));
    assert_eq!(snapshot.book_path, "/books/a.cbz");
    let under = state.worker_manager_snapshot_under(&published, 12);
    assert_eq!(under.generation, 12);
    assert_eq!(under.rgba_cache_max_mb, snapshot.rgba_cache_max_mb);
    let moved = DisplayArea {
        display_w: 700,
        ..AREA
    };
    assert_ne!(
        generation_key(&published),
        generation_key(&state.published_state(moved))
    );
    assert_ne!(
        state.worker_manager_generation(AREA),
        state.worker_manager_generation(moved)
    );
}

#[test]
fn interactive_pages_are_near_and_distinct() {
    let pages = compute_interactive_request_pages(4, Direction::Forward, 10);
    assert_eq!(pages[..3], [4, 5, 6]);
    let mut sorted = pages.clone();
    sorted.sort();
    sorted.dedup();
    assert_eq!(sorted.len(), pages.len());
    assert!(pages.iter().all(|page| *page < 10));
    assert_eq!(compute_interactive_request_pages(0, Direction::Forward, 0), vec![0]);
}
