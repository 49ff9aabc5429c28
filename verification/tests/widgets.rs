use std::collections::HashSet;

use cbz_viewer::domain::{
    BookId, BookMeta, ReadingDirection, SpreadMode, ViewerQuality,
};
use cbz_viewer::viewer::debug_overlay::{
    best_debug_texture_candidate, debug_hit_source_for_page, debug_overlay_state_label,
    format_mib_pair, format_page_list, format_spread_mode_tag, page_range_text,
    DebugTextureCandidate,
};
use cbz_viewer::viewer::display_model::DisplayArea;
use cbz_viewer::viewer::frame::{
    ExternalToolToolbarState, ExternalToolTrigger, ViewerAction, ViewerUiCapabilities,
};
use cbz_viewer::viewer::frame_end::{
    FrameContent, ToolbarApplyContext, ToolbarEvents, ViewerSettingsChangeSink,
};
use cbz_viewer::viewer::overlay::{
    boundary_preview_card_action, boundary_preview_card_on_the_right,
    delete_range_overlay_for_page, delete_range_text, help_row, spread_screen_pages,
    visible_page_bounds, BoundaryPreviewCardAction, DeleteRangeImageOverlayKind, SlotSource,
};
use cbz_viewer::viewer::page_content::{DueFrame, PageContent, StreamFrame};
use cbz_viewer::viewer::progress::{
    drag_fraction_milli, physical_page_from_visual, progress_mark, visual_page_from_physical,
    ProgressInput, ProgressMark,
};
use cbz_viewer::viewer::rgba_page_cache::{FrameSet, RgbaPageCache};
use cbz_viewer::viewer::state::{
    BoundaryPreviewDirection, IntervalBounds, ViewerBook, ViewerDeleteRangeSelection, ViewerState,
    ViewerStateInit,
};
use cbz_viewer::viewer::title_lines::{layout_title_lines, title_line_text};
use cbz_viewer::viewer::toolbar::{
    called_tool, cover_blank_label, favorite_button_and_hover, is_reserved_viewer_key,
    note_toolbar_click, opposite_reading_direction, reading_direction_selected_label,
    ExternalToolButtonModel, ExternalToolButtonState, FavoriteHint, ToolbarClick,
    ViewerFavoriteState, ViewerKey,
};
use cbz_viewer::viewer::worker_manager::ViewerWorkerManagerDebugState;
use cbz_viewer::viewer::working_set::{DisplayRequirement, RenderSignature};

const AREA: DisplayArea = DisplayArea {
    display_w: 800,
    display_h: 600,
    max_tex_side: 4096,
};

const MILLI: u64 = 1_000_000;

fn viewer(spread_setting: SpreadMode, direction: ReadingDirection) -> ViewerState {
    let mut state = ViewerState::new(ViewerStateInit {
        book: ViewerBook {
            entry: BookMeta {
                id: BookId(5),
                path: "/books/a.cbz".to_string(),
                title: "A".to_string(),
            },
            page_display_labels: (0..10).map(|page| format!("p{}", page)).collect(),
            page_entry_names: (0..10).map(|page| format!("{}.jpg", page)).collect(),
            page_map: None,
        },
        start_page: 0,
        spad_session_id: 77,
        cover_blank: false,
        quality_override: None,
        global_reading_direction: direction,
        reading_direction_override: None,
        spread_setting,
        background_worker_count: 2,
        texture_history_max_bytes: 100_000_000,
        texture_future_max_bytes: 100_000_000,
        rgba_cache_max_mb: 64,
        quality: ViewerQuality::Balanced,
        slideshow_interval: 3000 * MILLI,
        slideshow_bounds: IntervalBounds {
            shortest: 1_000_000,
            longest: 60_000_000_000,
        },
        min_frame_delay_ms: 20,
        full_equivalent_size_hint: None,
    });
    assert!(state.adopt_page_count_if_empty(10));
    state
}

fn background() -> RgbaPageCache {
    let mut bg = RgbaPageCache::new();
    bg.set_max_bytes_with_context(10_000_000, 0, &HashSet::new());
    bg
}

#[test]
fn places_on_the_bar_mirror_the_reading_direction() {
    for direction in [ReadingDirection::LeftToRight, ReadingDirection::RightToLeft] {
        for page in 0..10u32 {
            let place = visual_page_from_physical(page, 9, direction);
            assert_eq!(physical_page_from_visual(place, 9, direction), page);
        }
    }
    assert_eq!(visual_page_from_physical(2, 9, ReadingDirection::RightToLeft), 7);
    assert_eq!(visual_page_from_physical(2, 9, ReadingDirection::LeftToRight), 2);
    assert_eq!(visual_page_from_physical(12, 9, ReadingDirection::RightToLeft), 0);
}

#[test]
fn drags_are_counted_in_thousandths() {
    assert_eq!(drag_fraction_milli(0, 9), 0);
    assert_eq!(drag_fraction_milli(3, 9), 333);
    assert_eq!(drag_fraction_milli(9, 9), 1000);
    assert_eq!(drag_fraction_milli(12, 9), 1000);
}

#[test]
fn ranges_are_marked_on_the_bar() {
    let range = |start, end| ViewerDeleteRangeSelection { start, end };
    let rtl = ReadingDirection::RightToLeft;
    assert_eq!(progress_mark(range(None, None), 9, rtl), ProgressMark::Nothing);
    assert_eq!(
        progress_mark(range(Some(2), None), 9, rtl),
        ProgressMark::Start { visual_page: 7 }
    );
    assert_eq!(
        progress_mark(range(Some(2), Some(4)), 9, rtl),
        ProgressMark::Range { left: 5, right: 7 }
    );
}

#[test]
fn a_page_picked_on_the_bar_ends_the_slideshow() {
    let mut state = viewer(SpreadMode::Single, ReadingDirection::RightToLeft);
    state.start_slideshow(5);
    let bar = state.page_progress_bar().expect("more than one page");
    assert_eq!((bar.max_page, bar.selected_page, bar.selected_visual_page), (9, 0, 9));
    assert!(!bar.last_page_visible);
    let mut used = ProgressInput {
        visual_page: 6,
        hovered: true,
        dragged: true,
        committed: false,
    };
    let outcome = state.use_page_progress_bar(bar, used, true);
    assert_eq!((outcome.filled_page, outcome.new_view), (3, None));
    assert_eq!(outcome.label, Some("4".to_string()));
    assert!(state.slideshow_active());
    assert_eq!(
        state.ui_runtime.last_pending_visual_state.drag_fraction_milli,
        Some(333)
    );
    used.committed = true;
    let outcome = state.use_page_progress_bar(bar, used, false);
    assert_eq!(outcome.new_view, Some(3));
    assert_eq!(outcome.label, Some("1".to_string()));
    assert!(!state.slideshow_active());
}

#[test]
fn screens_are_named_by_their_pages() {
    let mut state = viewer(SpreadMode::Spread, ReadingDirection::LeftToRight);
    assert_eq!(state.build_page_label_at(2), Some("3-4".to_string()));
    assert_eq!(state.build_page_label_at(9), Some("10".to_string()));
    assert_eq!(
        state.current_toolbar_title("blank"),
        Some("p0 / p1".to_string())
    );
    state.persistent.cover_blank = true;
    assert_eq!(state.build_page_label_at(0), Some("1-2".to_string()));
    assert_eq!(
        state.current_toolbar_title("blank"),
        Some("p0 / blank".to_string())
    );
    state.persistent.reading_direction_override = Some(ReadingDirection::RightToLeft);
    assert_eq!(
        state.current_toolbar_title("blank"),
        Some("blank / p0".to_string())
    );
}

#[test]
fn favourites_can_be_switched_once_they_are_known() {
    let button = favorite_button_and_hover(ViewerFavoriteState::On, false, true, false);
    assert!(button.enabled && button.filled_star);
    assert_eq!(button.hint, FavoriteHint::Remove);
    let button = favorite_button_and_hover(ViewerFavoriteState::Off, true, true, false);
    assert!(!button.enabled && !button.filled_star);
    assert_eq!(button.hint, FavoriteHint::Updating);
    let button = favorite_button_and_hover(ViewerFavoriteState::Unknown, false, true, false);
    assert!(!button.enabled);
    assert_eq!(button.hint, FavoriteHint::Checking);
    let button = favorite_button_and_hover(ViewerFavoriteState::Off, false, true, true);
    assert!(!button.enabled);
    assert_eq!(button.hint, FavoriteHint::Add);
}

#[test]
fn tools_are_called_by_keys_that_the_viewer_leaves() {
    let tool = |tool_index: usize, key: ViewerKey| ExternalToolButtonModel {
        tool_index,
        name: "tool".to_string(),
        shortcut: 'x',
        key,
    };
    let tools = vec![
        tool(0, ViewerKey::Space),
        tool(1, ViewerKey::Other(7)),
        tool(2, ViewerKey::Other(7)),
        tool(3, ViewerKey::Other(8)),
    ];
    assert_eq!(called_tool(&tools, &vec![true, false, true, false]), None);
    assert_eq!(called_tool(&tools, &vec![true, true, true, true]), Some(1));
    assert_eq!(called_tool(&tools, &vec![true, false, true, true]), Some(3));
    assert!(is_reserved_viewer_key(ViewerKey::Escape));
    assert!(!is_reserved_viewer_key(ViewerKey::Other(1)));
}

#[test]
fn later_clicks_win() {
    let state = viewer(SpreadMode::Single, ReadingDirection::LeftToRight);
    let toolbar = state.viewer_toolbar(
        ViewerFavoriteState::Off,
        false,
        false,
        &ExternalToolToolbarState::Idle,
        ViewerUiCapabilities {
            allow_delete: false,
            allow_book_navigation: true,
            allow_favorite_toggle: true,
        },
    );
    assert!(!toolbar.cover_blank_enabled && !toolbar.delete_shown && toolbar.enabled);
    assert!(toolbar.direction.default_selected && !toolbar.direction.other_selected);
    let mut events = ToolbarEvents::default();
    note_toolbar_click(&mut events, &toolbar, ToolbarClick::CoverBlank);
    assert_eq!(events, ToolbarEvents::default());
    note_toolbar_click(&mut events, &toolbar, ToolbarClick::DefaultDirection);
    note_toolbar_click(&mut events, &toolbar, ToolbarClick::OtherDirection);
    assert_eq!(
        events.reading_direction_override_change,
        Some(Some(ReadingDirection::RightToLeft))
    );
    note_toolbar_click(
        &mut events,
        &toolbar,
        ToolbarClick::Quality(Some(ViewerQuality::Original)),
    );
    note_toolbar_click(&mut events, &toolbar, ToolbarClick::Quality(None));
    assert_eq!(events.quality_override_change, Some(None));
}

#[test]
fn toolbar_labels() {
    let state = viewer(SpreadMode::Single, ReadingDirection::RightToLeft);
    let toolbar = state.viewer_toolbar(
        ViewerFavoriteState::Off,
        false,
        false,
        &ExternalToolToolbarState::Idle,
        ViewerUiCapabilities {
            allow_delete: true,
            allow_book_navigation: true,
            allow_favorite_toggle: true,
        },
    );
    assert_eq!(
        reading_direction_selected_label(&toolbar.direction, "default", "right", "left"),
        "default（right）"
    );
    let mut other = toolbar.direction;
    other.default_selected = false;
    assert_eq!(
        reading_direction_selected_label(&other, "default", "right", "left"),
        "left"
    );
    assert_eq!(cover_blank_label("blank", true), "blank ✓");
    assert_eq!(cover_blank_label("blank", false), "blank");
    assert_eq!(
        opposite_reading_direction(ReadingDirection::RightToLeft),
        ReadingDirection::LeftToRight
    );
    assert_eq!(state.viewer_title(), "a.cbz");
    let mut unnamed = viewer(SpreadMode::Single, ReadingDirection::RightToLeft);
    unnamed.book.entry.path = "/books/..".to_string();
    assert_eq!(unnamed.viewer_title(), "A");
}

fn events_applied(events: ToolbarEvents, allow_delete: bool) -> (ViewerState, ViewerSettingsChangeSink, ViewerAction) {
    let mut state = viewer(SpreadMode::Single, ReadingDirection::LeftToRight);
    let mut bg = background();
    let mut settings = ViewerSettingsChangeSink {
        cover_blank: None,
        spread: None,
        slideshow_interval: None,
        reading_direction_override: None,
        quality_override: None,
    };
    let action = state.apply_toolbar_state_actions(
        &mut bg,
        &events,
        &ToolbarApplyContext {
            global_quality: ViewerQuality::Balanced,
            now: 9000 * MILLI,
            in_viewport_transition: false,
            area: AREA,
            capabilities: ViewerUiCapabilities {
                allow_delete,
                allow_book_navigation: true,
                allow_favorite_toggle: true,
            },
        },
        &mut settings,
        ViewerAction::Nothing,
    );
    (state, settings, action)
}

#[test]
fn toolbar_changes_are_told_to_the_caller() {
    let (state, settings, action) = events_applied(
        ToolbarEvents {
            toggle_spread: true,
            toggle_slideshow: true,
            interval_change: Some(8000 * MILLI),
            quality_override_change: Some(Some(ViewerQuality::Speed)),
            reading_direction_override_change: Some(Some(ReadingDirection::RightToLeft)),
            ..ToolbarEvents::default()
        },
        true,
    );
    assert!(matches!(action, ViewerAction::Nothing));
    assert_eq!(settings.spread, Some(SpreadMode::Spread));
    assert_eq!(settings.slideshow_interval, Some(8000 * MILLI));
    assert_eq!(settings.quality_override, Some(Some(ViewerQuality::Speed)));
    assert_eq!(
        settings.reading_direction_override,
        Some(Some(ReadingDirection::RightToLeft))
    );
    assert_eq!(settings.cover_blank, None);
    assert!(state.slideshow_active());
    assert_eq!(state.slideshow_interval(), 8000 * MILLI);
    assert_eq!(state.current_quality(), ViewerQuality::Speed);
    assert_eq!(state.effective_reading_direction(), ReadingDirection::RightToLeft);
}

#[test]
fn deletion_needs_leave() {
    let delete = ToolbarEvents {
        delete: true,
        ..ToolbarEvents::default()
    };
    assert!(matches!(events_applied(delete, true).2, ViewerAction::RequestDelete));
    assert!(matches!(events_applied(delete, false).2, ViewerAction::Nothing));
}

#[test]
fn one_tool_runs_at_a_time() {
    let state = viewer(SpreadMode::Single, ReadingDirection::LeftToRight);
    let clicked = ToolbarEvents {
        external_tool_click: Some(2),
        ..ToolbarEvents::default()
    };
    let running = ExternalToolToolbarState::Running {
        tool_index: 1,
        path: "/books/a.cbz".to_string(),
    };
    assert!(matches!(
        state.apply_external_tool_toolbar_actions(&clicked, &running, ViewerAction::Nothing),
        ViewerAction::Nothing
    ));
    match state.apply_external_tool_toolbar_actions(
        &clicked,
        &ExternalToolToolbarState::Idle,
        ViewerAction::Nothing,
    ) {
        ViewerAction::RunExternalTool {
            tool_index,
            target_path,
            trigger,
        } => {
            assert_eq!(tool_index, 2);
            assert_eq!(target_path, "/books/a.cbz");
            assert_eq!(trigger, ExternalToolTrigger::Toolbar);
        }
        _ => panic!("the tool is run"),
    }
    assert_eq!(
        state.external_tool_button(&running, 1, false),
        (ExternalToolButtonState::Running, false)
    );
    let done = |path: &str| ExternalToolToolbarState::Success {
        tool_index: 1,
        path: path.to_string(),
    };
    assert_eq!(
        state.external_tool_button(&done("/books/a.cbz"), 1, false),
        (ExternalToolButtonState::Success, true)
    );
    assert_eq!(
        state.external_tool_button(&done("/books/b.cbz"), 1, false),
        (ExternalToolButtonState::Idle, true)
    );
    assert_eq!(
        state.external_tool_button(&done("/books/a.cbz"), 2, true),
        (ExternalToolButtonState::Idle, false)
    );
}

#[test]
fn pages_on_screen_are_marked() {
    let range = ViewerDeleteRangeSelection {
        start: Some(2),
        end: Some(4),
    };
    assert_eq!(
        delete_range_overlay_for_page(range, Some((3, 4)), 3, false),
        Some(DeleteRangeImageOverlayKind::Complete)
    );
    assert_eq!(delete_range_overlay_for_page(range, Some((5, 5)), 5, false), None);
    assert_eq!(delete_range_overlay_for_page(range, Some((3, 4)), 3, true), None);
    let begun = ViewerDeleteRangeSelection {
        start: Some(2),
        end: None,
    };
    assert_eq!(
        delete_range_overlay_for_page(begun, Some((2, 3)), 2, false),
        Some(DeleteRangeImageOverlayKind::Start)
    );
    assert_eq!(
        delete_range_overlay_for_page(begun, Some((5, 5)), 5, false),
        Some(DeleteRangeImageOverlayKind::Selecting)
    );
    assert_eq!(visible_page_bounds((Some(3), Some(2))), Some((2, 3)));
    assert_eq!(visible_page_bounds((None, None)), None);
    assert_eq!(
        spread_screen_pages((Some(2), Some(3)), ReadingDirection::RightToLeft),
        (Some(3), Some(2))
    );
}

#[test]
fn help_is_set_in_columns() {
    assert_eq!(help_row("M", "Mark"), format!("{:<10}: {}", "M", "Mark"));
    assert_eq!(help_row("←→ / Wheel", "Page"), "←→ / Wheel: Page");
    let state = viewer(SpreadMode::Single, ReadingDirection::LeftToRight);
    let text = state.operation_help_text(ViewerUiCapabilities {
        allow_delete: false,
        allow_book_navigation: true,
        allow_favorite_toggle: true,
    });
    assert_eq!(
        text,
        "←→ / Wheel: Page\n↑↓        : Book\nHome / End: First / Last\nSpace     : Slideshow\nF11       : Fullscreen\nEsc       : Library"
    );
    assert_eq!(
        delete_range_text(ViewerDeleteRangeSelection {
            start: Some(2),
            end: Some(4)
        }),
        Some("S=3 E=5".to_string())
    );
}

#[test]
fn the_card_of_a_neighbour() {
    let next = BoundaryPreviewDirection::Next;
    assert_eq!(
        boundary_preview_card_action(next, true, true),
        Some(BoundaryPreviewCardAction::Close)
    );
    assert_eq!(
        boundary_preview_card_action(next, false, true),
        Some(BoundaryPreviewCardAction::NextBook)
    );
    assert_eq!(boundary_preview_card_action(next, false, false), None);
    assert!(boundary_preview_card_on_the_right(ReadingDirection::LeftToRight, next));
    assert!(!boundary_preview_card_on_the_right(ReadingDirection::RightToLeft, next));
}

#[test]
fn a_spread_is_drawn_by_the_reading_direction() {
    let texture = |id: u64| {
        PageContent::from_frames(
            FrameSet {
                id,
                frame_count: 1,
                first_frame_bytes: 4000,
                first_frame_width: 20,
                first_frame_height: 50,
                first_delay_ms: 0,
            },
            20,
            id,
            0,
        )
    };
    let mut state = viewer(SpreadMode::Spread, ReadingDirection::RightToLeft);
    state.display_assets.content_left = Some(texture(1));
    state.display_assets.content_right = Some(texture(2));
    let plan = state.plan_pages(true);
    assert_eq!(plan.left.source, SlotSource::Second);
    assert_eq!(plan.right.source, SlotSource::First);
    assert!(plan.ticks_first && plan.ticks_second);
    assert_eq!(plan.left_size, Some((20, 50)));
    let plan = state.plan_pages(false);
    assert_eq!(plan.left.source, SlotSource::First);
    assert_eq!(plan.right.source, SlotSource::Empty);
    state.persistent.cover_blank = true;
    let plan = state.plan_pages(true);
    assert_eq!(plan.left.source, SlotSource::Blank);
    assert_eq!(plan.right.source, SlotSource::First);
    assert!(!plan.ticks_second);
}

fn frame(id: u64, delay_ms: u32) -> StreamFrame {
    StreamFrame {
        id,
        width: 20,
        height: 50,
        delay_ms,
    }
}

#[test]
fn an_animation_turns_with_the_clock() {
    let mut content = PageContent::from_frames(
        FrameSet {
            id: 1,
            frame_count: 3,
            first_frame_bytes: 4000,
            first_frame_width: 20,
            first_frame_height: 50,
            first_delay_ms: 100,
        },
        20,
        9,
        1000 * MILLI,
    );
    assert!(content.is_animated());
    let tick = content.tick(1050 * MILLI, frame(2, 200), 20, 10);
    assert_eq!((tick.wait, tick.due), (50 * MILLI, None));
    let tick = content.tick(1100 * MILLI, frame(2, 200), 20, 10);
    assert_eq!((tick.wait, tick.due), (200 * MILLI, Some(DueFrame::Index(1))));
    // Delays that are too short are lengthened.
    let tick = content.tick(1300 * MILLI, frame(3, 1), 20, 11);
    assert_eq!((tick.wait, tick.due), (20 * MILLI, Some(DueFrame::Index(2))));
    let tick = content.tick(1320 * MILLI, frame(1, 100), 20, 12);
    assert_eq!(tick.due, Some(DueFrame::Index(0)));
}

#[test]
fn a_stream_asks_for_more_below_its_mark() {
    let mut content =
        PageContent::from_stream_chunk(&vec![frame(1, 50), frame(2, 50)], false, 20, 9, 0);
    assert!(content.stream_should_fill());
    content.mark_stream_fill_in_flight();
    assert!(!content.stream_should_fill());
    let more: Vec<StreamFrame> = (3..40u64).map(|id| frame(id, 50)).collect();
    content.append_stream_chunk(&more, true);
    match &content {
        PageContent::AnimatedStream { queue, exhausted, .. } => {
            assert_eq!(queue.len(), 16);
            assert!(*exhausted);
        }
        _ => panic!("a stream stays a stream"),
    }
    assert!(!content.stream_should_fill());
    assert!(!content.stream_should_restart());
}

#[test]
fn titles_are_broken_where_they_fit() {
    // Five characters to a line; an ellipsis takes one.
    let fits = |start: usize, end: usize, ellipsis: bool| {
        end - start + usize::from(ellipsis) <= 5
    };
    let title = "abcdefghijklm";
    let text = |max_lines: usize| -> Vec<String> {
        layout_title_lines(title.chars().count(), max_lines, &fits)
            .iter()
            .map(|line| title_line_text(title, *line, true))
            .collect()
    };
    assert_eq!(text(3), vec!["abcde", "fghij", "klm"]);
    assert_eq!(text(2), vec!["abcde", "fghi…"]);
    assert_eq!(text(0), Vec::<String>::new());
    let narrow = |_: usize, _: usize, _: bool| false;
    let lines = layout_title_lines(3, 2, &narrow);
    assert_eq!(lines.len(), 2);
    assert_eq!(title_line_text("abc", lines[0], false), "a");
    assert_eq!(title_line_text("abc", lines[1], false), "");
}

#[test]
fn debug_texts() {
    assert_eq!(format_spread_mode_tag(SpreadMode::Auto), "AUTO");
    assert_eq!(format_page_list(&vec![1, 2, 3], 8), "1, 2, 3");
    assert_eq!(format_page_list(&vec![1, 2, 3], 2), "1, 2, ...(+1)");
    assert_eq!(format_page_list(&vec![], 2), "-");
    assert_eq!(page_range_text(&vec![4, 1, 7]), "1..7");
    assert_eq!(page_range_text(&vec![]), "-");
    assert_eq!(format_mib_pair(1024 * 1024 * 3 / 2, 0), "2 MiB / 0 MiB");
    let busy = |inflight, queued, reason| {
        Some(ViewerWorkerManagerDebugState {
            inflight_by_request_id: inflight,
            fifo_len: queued,
            dispatch_limit_reason: reason,
        })
    };
    assert_eq!(debug_overlay_state_label(&None, 2), "Stopped");
    assert_eq!(debug_overlay_state_label(&busy(0, 0, None), 2), "Idle");
    assert_eq!(debug_overlay_state_label(&busy(1, 3, None), 2), "Running");
    assert_eq!(debug_overlay_state_label(&busy(2, 3, None), 2), "Saturated");
    assert_eq!(
        debug_overlay_state_label(&busy(1, 0, Some("no_worker_capacity")), 2),
        "Saturated"
    );
}

#[test]
fn debug_hits_name_the_cache() {
    let candidate = |page: u32, side: u32| DebugTextureCandidate {
        page,
        bytes: 10,
        signature: RenderSignature::from_decode_request(ViewerQuality::Balanced, side, side, 4096),
    };
    let need = DisplayRequirement::from_display_request(ViewerQuality::Balanced, 100, 100, 4096);
    let none: Vec<DebugTextureCandidate> = Vec::new();
    assert_eq!(
        best_debug_texture_candidate(&vec![candidate(1, 200), candidate(1, 110)], 1, need),
        Some(candidate(1, 110))
    );
    assert_eq!(best_debug_texture_candidate(&vec![candidate(2, 200)], 1, need), None);
    let source = |interactive: &Vec<DebugTextureCandidate>,
                  history: &Vec<DebugTextureCandidate>,
                  future: &Vec<DebugTextureCandidate>| {
        debug_hit_source_for_page(1, need, interactive, history, future)
    };
    assert_eq!(
        source(&vec![candidate(1, 100)], &vec![candidate(1, 100)], &none),
        Some("Interactive")
    );
    assert_eq!(source(&none, &vec![candidate(1, 110)], &none), Some("History"));
    assert_eq!(
        source(&none, &vec![candidate(1, 110)], &vec![candidate(1, 100)]),
        Some("Future")
    );
    assert_eq!(source(&none, &none, &vec![candidate(1, 100)]), None);
}

#[test]
fn the_overlay_tells_the_state_of_the_caches() {
    let state = viewer(SpreadMode::Single, ReadingDirection::LeftToRight);
    let bg = background();
    let text = state.debug_overlay_text(&bg, "None", &None);
    assert!(text.starts_with("Page\n  Current : 0\n  Visible : 0\n  Mode    : 1P / 1P\n\nL1 VRAM\n"));
    assert!(text.contains("  Future  : 0 pages / 0 MiB / 95 MiB\n"));
    assert!(text.contains("  Cache   : 0 pages / 0 / 10\n"));
    assert!(text.ends_with("BG\n  Workers : 2\n  Active  : 0\n  Queue   : 0\n  State   : Stopped"));
}

#[test]
fn frames_show_what_there_is() {
    let mut state = viewer(SpreadMode::Single, ReadingDirection::LeftToRight);
    assert_eq!(state.decide_frame_content(true, false, false), FrameContent::Blank);
    assert_eq!(state.decide_frame_content(false, false, false), FrameContent::Loading);
    state.ui_runtime.loading = false;
    assert_eq!(
        state.decide_frame_content(false, false, false),
        FrameContent::Pages { help: true }
    );
    assert_eq!(
        state.decide_frame_content(false, true, false),
        FrameContent::Pages { help: false }
    );
    state.ui_runtime.pending_placeholder_latched = true;
    assert_eq!(state.decide_frame_content(false, false, false), FrameContent::Placeholder);
}

#[test]
fn key_feedback_fades() {
    let mut state = viewer(SpreadMode::Single, ReadingDirection::LeftToRight);
    state.mark_key_feedback("next", 1000 * MILLI);
    assert_eq!(state.key_feedback_text(1001 * MILLI), Some("next"));
    assert_eq!(state.key_feedback_text(60_000 * MILLI), None);
    assert_eq!(state.key_feedback_text(1001 * MILLI), None);
}

#[test]
fn clicks_on_dead_controls_mean_nothing() {
    let state = viewer(SpreadMode::Single, ReadingDirection::LeftToRight);
    let running = ExternalToolToolbarState::Running {
        tool_index: 1,
        path: "/books/a.cbz".to_string(),
    };
    let clicks = [
        ToolbarClick::Favorite,
        ToolbarClick::Spread,
        ToolbarClick::DefaultDirection,
        ToolbarClick::OtherDirection,
        ToolbarClick::CoverBlank,
        ToolbarClick::Quality(Some(ViewerQuality::Speed)),
        ToolbarClick::Slideshow,
        ToolbarClick::ExternalTool(1),
        ToolbarClick::Fullscreen,
        ToolbarClick::Delete,
    ];
    let events = |blocked: bool, allowed: bool, tools: &ExternalToolToolbarState| {
        let toolbar = state.viewer_toolbar(
            ViewerFavoriteState::On,
            false,
            blocked,
            tools,
            ViewerUiCapabilities {
                allow_delete: allowed,
                allow_book_navigation: true,
                allow_favorite_toggle: allowed,
            },
        );
        let mut events = ToolbarEvents::default();
        for click in clicks {
            note_toolbar_click(&mut events, &toolbar, click);
        }
        events
    };
    assert_eq!(
        events(true, true, &ExternalToolToolbarState::Idle),
        ToolbarEvents::default()
    );
    let free = events(false, true, &ExternalToolToolbarState::Idle);
    assert!(free.delete && free.toggle_favorite && free.toggle_fullscreen);
    assert!(!free.toggle_cover_blank);
    assert_eq!(free.external_tool_click, Some(1));
    let limited = events(false, false, &running);
    assert!(!limited.delete && !limited.toggle_favorite && limited.toggle_spread);
    assert_eq!(limited.external_tool_click, None);
}

#[test]
fn the_interval_is_held_between_its_bounds() {
    let mut state = viewer(SpreadMode::Single, ReadingDirection::LeftToRight);
    state.set_slideshow_interval(90_000 * MILLI, 0);
    assert_eq!(state.slideshow_interval(), 60_000 * MILLI);
    state.set_slideshow_interval(0, 0);
    assert_eq!(state.slideshow_interval(), MILLI);
    let (state, settings, _) = events_applied(
        ToolbarEvents {
            interval_change: Some(u64::MAX),
            ..ToolbarEvents::default()
        },
        true,
    );
    assert_eq!(settings.slideshow_interval, Some(60_000 * MILLI));
    assert_eq!(state.slideshow_interval(), 60_000 * MILLI);
}
