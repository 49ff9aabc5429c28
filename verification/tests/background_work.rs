use std::collections::{HashMap, HashSet};
use std::sync::Arc;

use cbz_viewer::domain::{BookId, BookPageMap, PageMapEntry, SpreadMode, ViewerQuality};
use cbz_viewer::viewer::auto_spread_plan::build_auto_spread_plan;
use cbz_viewer::viewer::rgba_page_cache::{FrameSet, RgbaPageCache};
use cbz_viewer::viewer::streaming_cache::{
    desired_auto_streaming_sequence, SimpleStreamingCachePolicy, StreamingCachePlanner,
    StreamingCacheStopReason, StreamingCompletionAdmissionInput, StreamingCompletionDropReason,
};
use cbz_viewer::viewer::worker_manager::{
    bg_result_is_stale, resolve_candidate_layout, resolve_candidate_pages, stop_reason_label,
    BgResult, ViewerWorkerManagerCommand, ViewerWorkerManagerNotification,
    ViewerWorkerManagerSnapshot, ViewerWorkerManagerState, WorkerManagerCommandOutcome,
};
use cbz_viewer::viewer::working_set::{BgAdmissionState, RenderSignature};

fn pages(of: &[u32]) -> HashSet<u32> {
    of.iter().copied().collect()
}

fn order(current: u32, total: u32, visible: &[u32]) -> Vec<u32> {
    SimpleStreamingCachePolicy::new(current, total, visible.to_vec()).desired_sequence()
}

#[test]
fn pages_ahead_come_in_bursts() {
    assert_eq!(order(0, 0, &[]), Vec::<u32>::new());
    assert_eq!(order(2, 6, &[2, 3]), vec![2, 3, 1, 4, 0, 5]);
    // Eighteen pages ahead make bursts of three.
    assert_eq!(order(5, 24, &[])[..10], [5, 6, 7, 8, 4, 9, 10, 11, 3, 12]);
    assert_eq!(order(99, 3, &[7]), vec![2, 1, 0]);
}

#[test]
fn every_page_is_listed_once() {
    for current in 0..30u32 {
        let mut listed = order(current, 30, &[29, 3, 3]);
        assert_eq!(listed.len(), 30);
        listed.sort();
        listed.dedup();
        assert_eq!(listed.len(), 30);
    }
}

fn auto_book() -> BookPageMap {
    BookPageMap {
        pages: (0..8u32)
            .map(|page| PageMapEntry {
                width: 1000,
                height: if page == 2 { 700 } else { 1500 },
                entry_name: format!("{}.png", page),
            })
            .collect(),
    }
}

#[test]
fn paired_pages_are_listed_together() {
    let plan = build_auto_spread_plan(&auto_book(), false).expect("sizes are known");
    assert_eq!(
        desired_auto_streaming_sequence(&plan, 3, 8, &vec![3, 4]),
        vec![3, 4, 5, 6, 2, 7, 0, 1]
    );
    assert_eq!(
        desired_auto_streaming_sequence(&plan, 3, 0, &vec![3, 4]),
        Vec::<u32>::new()
    );
}

fn plan_with(
    cache: &[u32],
    current_bytes: usize,
    max_bytes: usize,
    capacity: usize,
) -> (Vec<u32>, Vec<u32>, Option<StreamingCacheStopReason>) {
    let plan = StreamingCachePlanner::plan(
        &vec![2, 3, 4, 1, 5, 0],
        cache,
        current_bytes,
        max_bytes,
        false,
        2,
        &pages(&[4]),
        &pages(&[]),
        &pages(&[2]),
        &pages(&[2]),
        capacity,
    );
    (plan.dispatch_pages, plan.evict_candidates, plan.stop_reason)
}

#[test]
fn missing_pages_are_dispatched_in_order() {
    let (dispatch, evict, reason) = plan_with(&[9], 10, 100, 1);
    assert_eq!(dispatch, vec![3, 1]);
    assert_eq!(evict, vec![9, 0, 5, 1, 4, 3]);
    assert_eq!(reason, Some(StreamingCacheStopReason::CacheNotFullDispatch));
}

#[test]
fn nothing_is_dispatched_in_vain() {
    assert_eq!(
        plan_with(&[], 0, 100, 0).2,
        Some(StreamingCacheStopReason::NoWorkerCapacity)
    );
    assert_eq!(
        plan_with(&[], 0, 0, 1).2,
        Some(StreamingCacheStopReason::CacheLimitUnavailable)
    );
    let (dispatch, _, reason) = plan_with(&[3, 1, 5, 0], 10, 100, 1);
    assert!(dispatch.is_empty());
    assert_eq!(reason, Some(StreamingCacheStopReason::NoDispatchablePages));
    let (dispatch, _, reason) = plan_with(&[3], 100, 100, 1);
    assert!(dispatch.is_empty());
    assert_eq!(
        reason,
        Some(StreamingCacheStopReason::CacheFullNoPriorityImprovement)
    );
}

#[test]
fn a_full_cache_is_only_improved() {
    let (dispatch, _, reason) = plan_with(&[5], 100, 100, 1);
    assert_eq!(dispatch, vec![3, 1]);
    assert_eq!(
        reason,
        Some(StreamingCacheStopReason::PriorityImprovementDispatch)
    );
    let (dispatch, _, _) = plan_with(&[1], 100, 100, 1);
    assert_eq!(dispatch, vec![3]);
}

#[test]
fn stop_reasons_have_names() {
    let reasons = [
        StreamingCacheStopReason::NoWorkerCapacity,
        StreamingCacheStopReason::CacheLimitUnavailable,
        StreamingCacheStopReason::CacheNotFullDispatch,
        StreamingCacheStopReason::PriorityImprovementDispatch,
        StreamingCacheStopReason::CacheFullNoPriorityImprovement,
        StreamingCacheStopReason::NoDispatchablePages,
    ];
    let mut names: Vec<&str> = reasons.iter().map(|reason| stop_reason_label(*reason)).collect();
    names.sort();
    names.dedup();
    assert_eq!(names.len(), reasons.len());
}

fn admission(
    completed_page: u32,
    completed_entry_bytes: usize,
    cache_pages: &[u32],
) -> (bool, Option<StreamingCompletionDropReason>, Vec<u32>) {
    let bytes: HashMap<u32, usize> = cache_pages.iter().map(|page| (*page, 40)).collect();
    let plan = StreamingCachePlanner::plan_completion_admission(StreamingCompletionAdmissionInput {
        desired_sequence: &[2, 3, 4, 1, 5, 0],
        cache_pages,
        page_eviction_bytes: &bytes,
        cache_current_bytes: 40 * cache_pages.len(),
        cache_max_bytes: 100,
        completed_page,
        completed_entry_bytes,
        visible_pages: &pages(&[2]),
        protected_pages: &pages(&[2]),
    });
    (plan.admitted, plan.drop_reason, plan.evict_candidates)
}

#[test]
fn decodes_enter_where_they_help() {
    assert_eq!(admission(3, 60, &[5]), (true, None, vec![]));
    assert_eq!(admission(3, 60, &[5, 0]), (true, None, vec![0]));
    assert_eq!(admission(3, 90, &[5, 0]), (true, None, vec![0, 5]));
    assert_eq!(
        admission(3, 101, &[]).1,
        Some(StreamingCompletionDropReason::TooLargeForBgRgba)
    );
    assert_eq!(
        admission(8, 10, &[]).1,
        Some(StreamingCompletionDropReason::NotInDesiredSequence)
    );
    assert_eq!(
        admission(0, 60, &[5, 3]).1,
        Some(StreamingCompletionDropReason::InsufficientLowPriorityCapacity)
    );
    assert_eq!(
        admission(1, 90, &[5, 3]).1,
        Some(StreamingCompletionDropReason::InsufficientLowPriorityCapacity)
    );
}

#[test]
fn decodes_do_not_push_out_what_ranks_before_them() {
    let plan = StreamingCachePlanner::plan_completion_admission(StreamingCompletionAdmissionInput {
        desired_sequence: &[2, 3, 4, 1, 5, 0],
        cache_pages: &[3],
        page_eviction_bytes: &HashMap::from([(3, 40), (0, 40)]),
        cache_current_bytes: 80,
        cache_max_bytes: 100,
        completed_page: 1,
        completed_entry_bytes: 50,
        visible_pages: &pages(&[2]),
        protected_pages: &pages(&[2]),
    });
    assert!(!plan.admitted);
    assert_eq!(
        plan.drop_reason,
        Some(StreamingCompletionDropReason::NoPriorityImprovement)
    );
    assert_eq!((plan.completed_rank, plan.worst_evictable_rank), (Some(3), Some(1)));
}

fn snapshot(page: u32) -> ViewerWorkerManagerSnapshot {
    ViewerWorkerManagerSnapshot {
        generation: 7,
        book_id: BookId(1),
        book_path: "/books/a.cbz".to_string(),
        page_count: 10,
        spread_setting: SpreadMode::Single,
        cover_blank: false,
        quality: ViewerQuality::Balanced,
        auto_spread_plan: None,
        requested_page: page,
        displayed_page: page,
        target_page: page,
        visible_page_first: Some(page),
        visible_page_second: None,
        loading: false,
        nav_mode_follow_latest: false,
        prefetch_dir: 1,
        max_tex_side: 4096,
        full_equivalent_area_w: 800,
        full_equivalent_area_h: 600,
        background_worker_count: 2,
        rgba_cache_max_mb: 1,
        active_animation_stream_view: None,
        animation_stream_request_id: None,
    }
}

fn still(id: u64, bytes: usize) -> FrameSet {
    FrameSet {
        id,
        frame_count: 1,
        first_frame_bytes: bytes,
        first_frame_width: 10,
        first_frame_height: 20,
        first_delay_ms: 0,
    }
}

fn answer(request_id: u64, frames: FrameSet) -> BgResult {
    BgResult {
        request_id,
        is_animation_chunk: false,
        left: Some(frames),
        left_is_animation_stream: false,
        right: None,
        right_is_animation_stream: false,
    }
}

#[test]
fn a_round_of_background_work() {
    let mut cache = RgbaPageCache::new();
    let mut state = ViewerWorkerManagerState::new();
    let (outcome, pump) = state
        .apply_worker_manager_command(ViewerWorkerManagerCommand::Update(snapshot(4)), &mut cache);
    assert_eq!(outcome, WorkerManagerCommandOutcome::UpdateApplied);
    let pump = pump.expect("work was planned");
    // One page for each of the two shards, nearest first.
    assert_eq!(pump.dispatch_pages, vec![5, 6]);
    assert!(!pump.status.settled);
    let current = snapshot(4);
    for (i, page) in pump.dispatch_pages.iter().enumerate() {
        let notification = state.record_dispatch(&current, *page, 100 + i as u64);
        match notification {
            ViewerWorkerManagerNotification::BgDispatched {
                generation,
                request_id,
                page: sent,
                render_signature,
            } => {
                assert_eq!((generation, request_id, sent), (7, 100 + i as u64, *page));
                assert_eq!(
                    render_signature,
                    RenderSignature::from_decode_request(ViewerQuality::Balanced, 800, 600, 4096)
                );
            }
            _ => panic!("a dispatch is reported"),
        }
    }
    assert!(state.pump_background_work(&mut cache).dispatch_pages.is_empty());
    let outcome = state.handle_background_result_streaming(&mut cache, &answer(100, still(1, 1000)));
    assert!(outcome.pump);
    assert!(outcome.repaint);
    assert_eq!(cache.page_order(), vec![5]);
    // The freed shard takes the next odd page.
    assert_eq!(state.pump_background_work(&mut cache).dispatch_pages, vec![3]);
}

#[test]
fn unknown_answers_leave_the_cache_alone() {
    let mut cache = RgbaPageCache::new();
    let mut state = ViewerWorkerManagerState::new();
    state.apply_update(snapshot(4));
    let outcome = state.handle_background_result_streaming(&mut cache, &answer(5, still(1, 10)));
    assert_eq!(cache.entry_count(), 0);
    assert!(!outcome.repaint);
}

#[test]
fn giants_are_not_asked_for_again() {
    let mut cache = RgbaPageCache::new();
    let mut state = ViewerWorkerManagerState::new();
    state.apply_update(snapshot(4));
    let current = snapshot(4);
    state.record_dispatch(&current, 5, 1);
    state.handle_background_result_streaming(&mut cache, &answer(1, still(1, 2 * 1024 * 1024)));
    assert_eq!(cache.entry_count(), 0);
    assert_eq!(state.bg_admission_state.len(), 1);
    assert_eq!(
        state.bg_admission_state[0].1,
        BgAdmissionState::TooLargeForBgRgba
    );
    assert!(!state.pump_background_work(&mut cache).dispatch_pages.contains(&5));
}

#[test]
fn new_conditions_forget_what_is_in_flight() {
    let mut cache = RgbaPageCache::new();
    let mut state = ViewerWorkerManagerState::new();
    state.apply_update(snapshot(4));
    state.record_dispatch(&snapshot(4), 5, 1);
    state.apply_update(snapshot(5));
    assert_eq!(state.bg_inflight.len(), 1);
    let mut other = snapshot(5);
    other.quality = ViewerQuality::Speed;
    state.apply_update(other);
    assert_eq!(state.bg_inflight.len(), 0);
    let outcome = state.handle_background_result_streaming(&mut cache, &answer(1, still(1, 10)));
    assert!(!outcome.repaint);
    assert_eq!(cache.entry_count(), 0);
}

#[test]
fn requests_are_current_for_their_own_snapshot() {
    let mut state = ViewerWorkerManagerState::new();
    let current = snapshot(4);
    state.record_dispatch(&current, 5, 1);
    let entry = state.bg_inflight[0];
    assert_eq!(bg_result_is_stale(&current, &entry), None);
    let mut other = snapshot(4);
    other.book_id = BookId(2);
    assert!(bg_result_is_stale(&other, &entry).is_some());
}

#[test]
fn spreads_are_decoded_at_half_width() {
    let mut spread = snapshot(4);
    spread.spread_setting = SpreadMode::Spread;
    assert_eq!(resolve_candidate_pages(&spread, 4), (Some(4), Some(5)));
    let layout = resolve_candidate_layout(&spread, 4);
    assert!(layout.effective_spread);
    assert_eq!((layout.page_decode_w, layout.page_decode_h), (400, 600));
    spread.cover_blank = true;
    assert_eq!(resolve_candidate_pages(&spread, 0), (Some(0), None));
    let mut auto = snapshot(2);
    auto.page_count = 8;
    auto.spread_setting = SpreadMode::Auto;
    auto.auto_spread_plan =
        Some(Arc::new(build_auto_spread_plan(&auto_book(), false).expect("sizes are known")));
    assert_eq!(resolve_candidate_pages(&auto, 2), (Some(2), None));
    assert_eq!(resolve_candidate_pages(&auto, 4), (Some(3), Some(4)));
}

#[test]
fn commands_are_told_apart() {
    let mut cache = RgbaPageCache::new();
    let mut state = ViewerWorkerManagerState::new();
    let (outcome, pump) =
        state.apply_worker_manager_command(ViewerWorkerManagerCommand::DebugState, &mut cache);
    assert_eq!(outcome, WorkerManagerCommandOutcome::Continue);
    assert!(pump.is_none());
    let (outcome, pump) =
        state.apply_worker_manager_command(ViewerWorkerManagerCommand::Shutdown, &mut cache);
    assert_eq!(outcome, WorkerManagerCommandOutcome::Shutdown);
    assert!(pump.is_none());
    let debug = state.capture_debug_state_streaming(&mut cache);
    assert_eq!((debug.inflight_by_request_id, debug.fifo_len), (0, 0));
}

#[test]
fn single_pages_stream_in_the_plain_order() {
    let mut map = auto_book();
    for page in &mut map.pages {
        page.height = 500;
    }
    let plan = build_auto_spread_plan(&map, false).expect("sizes are known");
    for current in 0..10u32 {
        assert_eq!(
            desired_auto_streaming_sequence(&plan, current, 8, &vec![current, 2]),
            order(current, 8, &[current, 2])
        );
    }
}
