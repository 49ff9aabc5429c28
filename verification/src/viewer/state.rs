//! The state of one viewer. Pixels, textures, the loader and the clock are the caller's: they
//! appear here as handles, as requests put into an outbox, and as readings of a monotonic clock
//! in nanoseconds.
use std::sync::Arc;

use vstd::prelude::*;
use vstd::string::*;

use super::auto_spread_plan::{
    build_auto_spread_plan, starts_have_width, units_from, AutoSpreadPlan,
};
use super::gpu_texture_history::{GpuTextureHistory, HistoryState};
use super::gpu_warmup_cache::{GpuWarmupCache, WarmupState};
use super::gpu_warmup_planner::{empty_summary, GpuWarmupPlanSnapshot};
use super::interactive_plan::InteractiveRequestPlanCache;
use super::page_content::{content_view, Content, DueFrame, PageContent};
use super::rgba_page_cache::{CacheState, CachedRgbaPage, FrameSet, RgbaPageCache};
use super::spad::{SpadState, ViewerSpadState};
use super::texture_entries::{CachedGpuTexture, TextureRef};
use crate::domain::{
    BookId, BookMeta, BookPageMap, ReadingDirection, SpreadMode, ViewerQuality,
};
use crate::num::{greatest, least, max_u64, max_usize, min_u64};

verus! {

/// A handle on the text of an error.
#[derive(Clone, Copy, Debug, PartialEq, Eq, Structural)]
pub struct ErrorNote(pub u64);

#[derive(Clone, Copy, Debug, PartialEq, Eq, Structural)]
pub enum NavMode {
    Sequential,
    FollowLatest,
}

/// The conditions under which a pairing of pages was noted.
#[derive(Clone, Copy, Debug, PartialEq, Eq, Structural)]
pub struct SpreadSnapshotKey {
    pub entry_id: BookId,
    pub page_count: u32,
    pub spread_setting: SpreadMode,
    pub cover_blank: bool,
    pub physical_page: u32,
}

/// A pairing of pages, noted so that it does not waver while a page is on its way.
#[derive(Clone, Copy, Debug, PartialEq, Eq, Structural)]
pub struct SpreadSnapshot {
    pub key: SpreadSnapshotKey,
    pub effective_spread: bool,
    pub page_right: Option<u32>,
    pub valid: bool,
}

/// Where reading stands, and the settings of the book.
#[derive(Clone, Copy, Debug, PartialEq, Eq, Structural)]
pub struct ViewerPersistentState {
    pub entry_id: BookId,
    /// Zero until the book has told it.
    pub page_count: u32,
    /// The page that is on screen.
    pub displayed_page: u32,
    /// The page that was asked for, on screen or not.
    pub requested_page: u32,
    /// The page that the latest input wants.
    pub target_page: u32,
    pub spread_setting: SpreadMode,
    /// Whether the present view is a spread.
    pub spread_mode: bool,
    pub global_reading_direction: ReadingDirection,
    pub reading_direction_override: Option<ReadingDirection>,
    /// Whether a blank page stands opposite the cover.
    pub cover_blank: bool,
    pub quality_override: Option<ViewerQuality>,
    pub spread_snapshot: SpreadSnapshot,
}

/// Between what the interval of the slideshow is held.
#[derive(Clone, Copy, Debug, PartialEq, Eq, Structural)]
pub struct IntervalBounds {
    pub shortest: u64,
    pub longest: u64,
}

/// An interval held between the bounds.
pub open spec fn held_interval(interval: u64, bounds: IntervalBounds) -> u64 {
    least(greatest(interval as int, bounds.shortest as int), bounds.longest as int) as u64
}

pub fn hold_interval(interval: u64, bounds: IntervalBounds) -> (held: u64)
    ensures
        held == held_interval(interval, bounds),
{
    min_u64(max_u64(interval, bounds.shortest), bounds.longest)
}

#[derive(Clone, Copy, Debug, PartialEq, Eq, Structural)]
pub struct ViewerPlaybackState {
    pub slideshow_active: bool,
    pub slideshow_interval: u64,
    pub slideshow_bounds: IntervalBounds,
    /// When the next page is due; none while it is not known.
    pub slideshow_next_slide_at: Option<u64>,
    /// Whether the wait starts once the page is on screen.
    pub slideshow_arm_on_display: bool,
    /// The shortest time that a frame of an animation is shown.
    pub min_frame_delay_ms: u32,
}

/// What the loader hands back for a request.
#[derive(Clone, Copy, Debug, PartialEq, Eq, Structural)]
pub struct ViewerResult {
    pub request_id: u64,
    pub left: Option<FrameSet>,
    pub right: Option<FrameSet>,
    pub page_count: u32,
    pub left_orig_w: u32,
    pub left_orig_h: u32,
    pub right_orig_w: u32,
    pub right_orig_h: u32,
    pub error: Option<ErrorNote>,
    pub left_is_animation_stream: bool,
    pub right_is_animation_stream: bool,
    pub left_stream_exhausted: bool,
    pub right_stream_exhausted: bool,
    pub queue_wait_ms: u64,
    pub decode_ms: u64,
    pub view_idx: u32,
    pub nav_id: u64,
    pub page_left: Option<u32>,
    pub page_right: Option<u32>,
    pub request_display_w: u32,
    pub request_display_h: u32,
    pub request_quality: ViewerQuality,
    pub request_max_tex_side: u32,
}

/// The requests for the pages of one screen, and what has come back for them.
#[derive(Clone, Copy, Debug, PartialEq, Eq, Structural)]
pub struct InteractivePendingGroup {
    pub group_id: u64,
    pub generation: u64,
    pub page_left: Option<u32>,
    pub page_right: Option<u32>,
    pub left_request_id: Option<u64>,
    pub right_request_id: Option<u64>,
    pub left_result: Option<ViewerResult>,
    pub right_result: Option<ViewerResult>,
}

#[derive(Clone, Copy, Debug, PartialEq, Eq)]
pub struct ViewerRequestState {
    /// The request whose answer is shown; zero where there is none.
    pub pending_id: u64,
    pub pending_id_aux: Option<u64>,
    pub interactive_generation: u64,
    pub pending_interactive_group: Option<InteractivePendingGroup>,
    /// Whether the first request waits for the display size.
    pub initial_load_pending: bool,
    /// The direction of reading: positive forward, negative backward, zero not known.
    pub prefetch_dir: i32,
    pub quality: ViewerQuality,
    /// The limit of the decode caches in mebibytes.
    pub rgba_cache_max_mb: u16,
    pub background_worker_count: usize,
    pub interactive_inflight_even_page: Option<u32>,
    pub interactive_inflight_odd_page: Option<u32>,
    pub prefetch_anchor_view: u32,
    pub prefetch_idle_deadline: Option<u64>,
    pub prefetch_target_display_w: u32,
    pub prefetch_target_display_h: u32,
    pub last_prefetch_target_display_w: Option<u32>,
    pub last_prefetch_target_display_h: Option<u32>,
    pub display_target_stable_frames: u32,
    pub display_target_stability_reason: &'static str,
    /// The latest page that was asked for while another was on its way.
    pub queued_view: Option<u32>,
    pub queued_nav: Option<(u32, u64)>,
    pub active_animation_stream_view: Option<u32>,
    pub animation_stream_request_id: Option<u64>,
    pub next_nav_id: u64,
    pub active_nav_id: Option<u64>,
}

#[derive(Clone, Copy, Debug, PartialEq, Eq, Structural)]
pub struct PendingDisplayState {
    pub target_page: u32,
    pub displayed_page: u32,
    pub requested_page: u32,
    pub show_pending: bool,
}

#[derive(Clone, Copy, Debug, PartialEq, Eq, Structural)]
pub struct PendingVisualState {
    pub target_page: u32,
    pub displayed_page: u32,
    pub requested_page: u32,
    pub show_pending: bool,
    pub progress_hover: bool,
    pub progress_drag: bool,
    pub drag_fraction_milli: Option<u16>,
}

#[derive(Clone, Copy, Debug, PartialEq, Eq)]
pub struct ViewerUiRuntimeState {
    pub loading: bool,
    pub error: Option<ErrorNote>,
    pub delete_range_context_menu_target_page: Option<u32>,
    pub pending_placeholder_after: Option<u64>,
    pub wheel_cooldown_until: Option<u64>,
    pub nav_mode: NavMode,
    pub last_nav_input_at: Option<u64>,
    pub nav_consecutive_count: u32,
    pub last_show_at: Option<u64>,
    pub show_seq: u64,
    pub fullscreen_transition_frames: u8,
    pub fullscreen_overlay_visible_until: Option<u64>,
    pub viewport_transition_active: bool,
    pub last_stable_display_w: u32,
    pub last_stable_display_h: u32,
    pub first_paint_logged: bool,
    pub pending_started_at: Option<u64>,
    pub pending_placeholder_latched: bool,
    pub pending_visible_last: Option<bool>,
    pub last_display_commit_show_seq: Option<u64>,
    pub gpu_warmup_plan: GpuWarmupPlanSnapshot,
    pub key_feedback_until: Option<u64>,
    pub key_feedback_text: Option<&'static str>,
    pub last_pending_display_state: Option<PendingDisplayState>,
    pub last_pending_visual_state: PendingVisualState,
}

/// Pages on screen, and the caches that screens are made from.
pub struct ViewerDisplayAssets {
    /// The first page of the screen, or its only one.
    pub content_left: Option<PageContent>,
    pub content_right: Option<PageContent>,
    pub interactive_rgba_cache: RgbaPageCache,
    pub gpu_texture_history: GpuTextureHistory,
    pub gpu_warmup_cache: GpuWarmupCache,
}

#[derive(Clone, Copy, Debug, PartialEq, Eq, Structural)]
pub enum FullEquivalentSizeHintSource {
    ViewerViewport,
}

/// The size of the screen that a full-screen view would fill, in whole points.
#[derive(Clone, Copy, Debug, PartialEq, Eq, Structural)]
pub struct FullEquivalentSizeHint {
    pub monitor_width: u32,
    pub monitor_height: u32,
    pub source: FullEquivalentSizeHintSource,
}

#[derive(Clone, Copy, Debug, PartialEq, Eq, Hash, Structural)]
pub enum BoundaryPreviewDirection {
    Previous,
    Next,
}

#[derive(Clone, Copy, Debug, PartialEq, Eq, Structural)]
pub struct BoundaryPreviewProbe {
    pub direction: BoundaryPreviewDirection,
    pub in_flight: bool,
    pub request_id: Option<u64>,
}

/// The preview of the neighbouring book at either end of this one.
pub enum BoundaryPreviewState {
    Hidden,
    Loading(BoundaryPreviewProbe),
    Ready { probe: BoundaryPreviewProbe, book: BookMeta, thumbnail: Option<TextureRef> },
}

#[derive(Clone, Copy, Debug, PartialEq, Eq, Structural)]
pub struct ViewerDeleteRangeSelection {
    pub start: Option<u32>,
    pub end: Option<u32>,
}

#[derive(Clone, Copy, Debug, PartialEq, Eq, Structural)]
pub struct ReadingSessionState {
    pub displayed_any_page: bool,
    pub reached_end: bool,
    pub resume_page: Option<usize>,
    pub page_count: usize,
    pub notification_in_flight: bool,
    pub notification_sent: bool,
}

/// What the loader is asked to do.
#[derive(Clone, Copy, Debug, PartialEq, Eq, Structural)]
pub enum LoadKind {
    Display,
    AnimationStreamStart,
    AnimationStreamFill,
}

/// A request to the loader for pages of this book.
#[derive(Clone, Copy, Debug, PartialEq, Eq, Structural)]
pub struct ViewerLoadRequest {
    pub request_id: u64,
    pub kind: LoadKind,
    pub view_idx: u32,
    pub page_left: Option<u32>,
    pub page_right: Option<u32>,
    pub display_w: u32,
    pub display_h: u32,
    pub quality: ViewerQuality,
    pub max_tex_side: u32,
    pub nav_id: u64,
}

/// What the background work is told of the viewer.
#[derive(Clone, Copy, Debug, PartialEq, Eq, Structural)]
pub struct PublishedState {
    pub book_id: BookId,
    pub page_count: u32,
    pub spread_setting: SpreadMode,
    pub cover_blank: bool,
    pub quality: ViewerQuality,
    pub requested_page: u32,
    pub displayed_page: u32,
    pub target_page: u32,
    pub visible_page_first: Option<u32>,
    pub visible_page_second: Option<u32>,
    pub loading: bool,
    pub nav_mode_follow_latest: bool,
    pub prefetch_dir: i32,
    pub prefetch_anchor_view: u32,
    pub max_tex_side: u32,
    pub full_equivalent_area_w: u32,
    pub full_equivalent_area_h: u32,
    pub background_worker_count: usize,
    /// The limit that was set, in mebibytes.
    pub rgba_cache_max_mb: u16,
    /// What of it the neighbouring books leave.
    pub effective_rgba_cache_max_mb: u16,
    pub active_animation_stream_view: Option<u32>,
    pub animation_stream_request_id: Option<u64>,
}

/// Work for the caller, in the order in which it came up.
#[derive(Clone, Copy, Debug, PartialEq, Eq, Structural)]
pub enum ViewerEffect {
    Load(ViewerLoadRequest),
    /// Put the first frame of a set into a texture.
    Upload { texture: TextureRef, frames: FrameSet },
    /// Put the first frame of a chunk into a texture.
    UploadChunk { texture: TextureRef, chunk: FrameSet },
    /// Put the frame of an animation that is due on one side into a texture.
    UploadFrame { texture: TextureRef, frame: DueFrame, is_left: bool },
    Publish(PublishedState),
    RequestRepaint,
}

/// What is known of the book before it is shown.
pub struct ViewerBook {
    pub entry: BookMeta,
    pub page_display_labels: Vec<String>,
    pub page_entry_names: Vec<String>,
    pub page_map: Option<BookPageMap>,
}

pub struct ViewerState {
    pub book: ViewerBook,
    pub auto_spread_plan: Option<Arc<AutoSpreadPlan>>,
    pub persistent: ViewerPersistentState,
    pub display_assets: ViewerDisplayAssets,
    pub playback: ViewerPlaybackState,
    pub request: ViewerRequestState,
    pub ui_runtime: ViewerUiRuntimeState,
    pub boundary_preview: BoundaryPreviewState,
    pub full_equivalent_size_hint: Option<FullEquivalentSizeHint>,
    pub spad: ViewerSpadState,
    pub delete_range_selection: ViewerDeleteRangeSelection,
    pub reading_session: ReadingSessionState,
    pub interactive_request_plan_cache: Option<InteractiveRequestPlanCache>,
    /// Work that the caller has not taken yet.
    pub outbox: Vec<ViewerEffect>,
    pub next_request_id: u64,
    pub next_texture_id: u64,
}

/// The state of a viewer, as values. The plan that is kept to save computing it again is not
/// part of it.
pub struct ViewerModel {
    pub book: ViewerBook,
    pub plan: Option<Arc<AutoSpreadPlan>>,
    pub persistent: ViewerPersistentState,
    pub content_left: Option<Content>,
    pub content_right: Option<Content>,
    pub interactive: CacheState,
    pub history: HistoryState,
    pub warmup: WarmupState,
    pub playback: ViewerPlaybackState,
    pub request: ViewerRequestState,
    pub ui: ViewerUiRuntimeState,
    pub preview: BoundaryPreviewState,
    pub hint: Option<FullEquivalentSizeHint>,
    pub spad: SpadState,
    pub delete_range: ViewerDeleteRangeSelection,
    pub reading_session: ReadingSessionState,
    pub outbox: Seq<ViewerEffect>,
    pub next_request_id: u64,
    pub next_texture_id: u64,
}

impl View for ViewerState {
    type V = ViewerModel;

    open spec fn view(&self) -> ViewerModel {
        ViewerModel {
            book: self.book,
            plan: self.auto_spread_plan,
            persistent: self.persistent,
            content_left: content_view(self.display_assets.content_left),
            content_right: content_view(self.display_assets.content_right),
            interactive: self.display_assets.interactive_rgba_cache@,
            history: self.display_assets.gpu_texture_history@,
            warmup: self.display_assets.gpu_warmup_cache@,
            playback: self.playback,
            request: self.request,
            ui: self.ui_runtime,
            preview: self.boundary_preview,
            hint: self.full_equivalent_size_hint,
            spad: self.spad@,
            delete_range: self.delete_range_selection,
            reading_session: self.reading_session,
            outbox: self.outbox@,
            next_request_id: self.next_request_id,
            next_texture_id: self.next_texture_id,
        }
    }
}

impl ViewerState {
    #[verifier::opaque]
    pub open spec fn wf(self) -> bool {
        &&& self.auto_spread_plan matches Some(plan) ==> (*plan).wf()
        &&& self.display_assets.interactive_rgba_cache.wf()
        &&& self.display_assets.gpu_texture_history.wf()
        &&& self.display_assets.gpu_warmup_cache.wf()
        &&& self.display_assets.content_left matches Some(content) ==> content.wf()
        &&& self.display_assets.content_right matches Some(content) ==> content.wf()
        &&& self.spad@.wf()
        &&& self.interactive_request_plan_cache matches Some(cache) ==> cache.wf()
    }
}

/// What a viewer starts from. Byte limits are those of the two halves of the texture budget.
pub struct ViewerStateInit {
    pub book: ViewerBook,
    pub start_page: u32,
    pub spad_session_id: u64,
    pub cover_blank: bool,
    pub quality_override: Option<ViewerQuality>,
    pub global_reading_direction: ReadingDirection,
    pub reading_direction_override: Option<ReadingDirection>,
    pub spread_setting: SpreadMode,
    pub background_worker_count: usize,
    pub texture_history_max_bytes: usize,
    pub texture_future_max_bytes: usize,
    pub rgba_cache_max_mb: u16,
    pub quality: ViewerQuality,
    pub slideshow_interval: u64,
    pub slideshow_bounds: IntervalBounds,
    pub min_frame_delay_ms: u32,
    pub full_equivalent_size_hint: Option<FullEquivalentSizeHint>,
}

/// Automatic pairing needs a plan; without one, pages stand alone.
pub open spec fn normalized_spread_setting(setting: SpreadMode, plan_available: bool) -> SpreadMode {
    if setting == SpreadMode::Auto && !plan_available {
        SpreadMode::Single
    } else {
        setting
    }
}

pub fn normalize_spread_setting(spread_setting: SpreadMode, auto_mode_available: bool) -> (setting:
    SpreadMode)
    ensures
        setting == normalized_spread_setting(spread_setting, auto_mode_available),
{
    match spread_setting {
        SpreadMode::Auto => if auto_mode_available {
            SpreadMode::Auto
        } else {
            SpreadMode::Single
        },
        other => other,
    }
}

/// Whether `plan` is the plan of a book with this page map: there is one if and only if the map
/// allows it.
pub open spec fn is_plan_for(
    plan: Option<Arc<AutoSpreadPlan>>,
    page_map: Option<BookPageMap>,
    cover_blank: bool,
) -> bool {
    match page_map {
        Some(page_map) => {
            &&& plan is Some <==> page_map.pages@.len() <= u32::MAX + 1 && starts_have_width(
                page_map.pages@,
                cover_blank,
                0,
            )
            &&& plan matches Some(plan) ==> (*plan).wf() && (*plan).page_count()
                == page_map.pages@.len() && (*plan).units@ == units_from(
                page_map.pages@,
                cover_blank,
                0,
            )
        },
        None => plan is None,
    }
}

pub fn build_auto_spread_plan_for_mode(page_map: &Option<BookPageMap>, cover_blank: bool) -> (plan:
    Option<Arc<AutoSpreadPlan>>)
    ensures
        is_plan_for(plan, *page_map, cover_blank),
        plan matches Some(plan) ==> (*plan).wf(),
{
    match page_map {
        Some(page_map) => match build_auto_spread_plan(page_map, cover_blank) {
            Some(plan) => Some(Arc::new(plan)),
            None => None,
        },
        None => None,
    }
}

/// Whether the plan shows a page together with another one.
pub open spec fn pairs_in_plan(plan: Option<Arc<AutoSpreadPlan>>, page: u32) -> bool {
    plan matches Some(plan) && page < (*plan).page_count() && (*plan).unit_of(
        page as int,
    ).second_page is Some
}

pub fn is_paired_in_plan(plan: &Option<Arc<AutoSpreadPlan>>, page: u32) -> (paired: bool)
    requires
        plan matches Some(plan) ==> (*plan).wf(),
    ensures
        paired == pairs_in_plan(*plan, page),
{
    match plan {
        Some(plan) => match plan.pages_for_logical_page(page) {
            Some((_, second)) => second.is_some(),
            None => false,
        },
        None => false,
    }
}

/// Whether a view under this setting starts as a spread.
pub open spec fn starts_as_spread(
    setting: SpreadMode,
    plan: Option<Arc<AutoSpreadPlan>>,
    page: u32,
) -> bool {
    match setting {
        SpreadMode::Auto => pairs_in_plan(plan, page),
        SpreadMode::Single => false,
        SpreadMode::Spread => true,
    }
}

pub open spec fn no_pages_selected() -> ViewerDeleteRangeSelection {
    ViewerDeleteRangeSelection { start: None, end: None }
}

pub open spec fn fresh_session() -> ReadingSessionState {
    ReadingSessionState {
        displayed_any_page: false,
        reached_end: false,
        resume_page: None,
        page_count: 0,
        notification_in_flight: false,
        notification_sent: false,
    }
}

pub open spec fn empty_cache() -> CacheState {
    CacheState { entries: Seq::<CachedRgbaPage>::empty(), bytes: 0, max: 0, revision: 0 }
}

pub open spec fn empty_history(max_bytes: usize) -> HistoryState {
    HistoryState {
        entries: Seq::<CachedGpuTexture>::empty(),
        bytes: 0,
        max: max_bytes as nat,
        insert_count: 0,
        evict_count: 0,
        full_hit_count: 0,
        miss_count: 0,
        partial_spread_hit_count: 0,
        partial_reuse_count: 0,
        clear_count: 0,
        last_clear_reason: None,
    }
}

pub open spec fn empty_warmup(max_bytes: usize) -> WarmupState {
    WarmupState {
        entries: Seq::<CachedGpuTexture>::empty(),
        bytes: 0,
        max: max_bytes as nat,
        insert_count: 0,
        evict_count: 0,
        hit_count: 0,
        promotion_count: 0,
        unused_evict_count: 0,
        clear_count: 0,
        last_clear_reason: None,
    }
}

pub open spec fn fresh_spad(session: u64) -> SpadState {
    SpadState {
        session,
        generation: 0,
        next_inflight: None,
        prev_inflight: None,
        prev: None,
        next: None,
    }
}

pub open spec fn fresh_visual() -> PendingVisualState {
    PendingVisualState {
        target_page: 0,
        displayed_page: 0,
        requested_page: 0,
        show_pending: false,
        progress_hover: false,
        progress_drag: false,
        drag_fraction_milli: None,
    }
}

/// A viewer before its first frame: the start page is asked for once the display size is known.
pub open spec fn opened(init: ViewerStateInit, plan: Option<Arc<AutoSpreadPlan>>) -> ViewerModel {
    let setting = normalized_spread_setting(init.spread_setting, plan is Some);
    let spread = starts_as_spread(setting, plan, init.start_page);
    ViewerModel {
        book: init.book,
        plan,
        persistent: ViewerPersistentState {
            entry_id: init.book.entry.id,
            page_count: 0,
            displayed_page: init.start_page,
            requested_page: init.start_page,
            target_page: init.start_page,
            spread_setting: setting,
            spread_mode: spread,
            global_reading_direction: init.global_reading_direction,
            reading_direction_override: init.reading_direction_override,
            cover_blank: init.cover_blank,
            quality_override: init.quality_override,
            spread_snapshot: SpreadSnapshot {
                key: SpreadSnapshotKey {
                    entry_id: init.book.entry.id,
                    page_count: 0,
                    spread_setting: setting,
                    cover_blank: init.cover_blank,
                    physical_page: init.start_page,
                },
                effective_spread: spread,
                page_right: None,
                valid: false,
            },
        },
        content_left: None,
        content_right: None,
        interactive: empty_cache(),
        history: empty_history(init.texture_history_max_bytes),
        warmup: empty_warmup(init.texture_future_max_bytes),
        playback: ViewerPlaybackState {
            slideshow_active: false,
            slideshow_interval: held_interval(init.slideshow_interval, init.slideshow_bounds),
            slideshow_bounds: init.slideshow_bounds,
            slideshow_next_slide_at: None,
            slideshow_arm_on_display: false,
            min_frame_delay_ms: init.min_frame_delay_ms,
        },
        request: ViewerRequestState {
            pending_id: 0,
            pending_id_aux: None,
            interactive_generation: 0,
            pending_interactive_group: None,
            initial_load_pending: true,
            prefetch_dir: 0,
            quality: init.quality,
            rgba_cache_max_mb: init.rgba_cache_max_mb,
            background_worker_count: if init.background_worker_count >= 1 {
                init.background_worker_count
            } else {
                1
            },
            interactive_inflight_even_page: None,
            interactive_inflight_odd_page: None,
            prefetch_anchor_view: 0,
            prefetch_idle_deadline: None,
            prefetch_target_display_w: 0,
            prefetch_target_display_h: 0,
            last_prefetch_target_display_w: None,
            last_prefetch_target_display_h: None,
            display_target_stable_frames: 0,
            display_target_stability_reason: "no-previous-target",
            queued_view: None,
            queued_nav: None,
            active_animation_stream_view: None,
            animation_stream_request_id: None,
            next_nav_id: 1,
            active_nav_id: None,
        },
        ui: ViewerUiRuntimeState {
            loading: true,
            error: None,
            delete_range_context_menu_target_page: None,
            pending_placeholder_after: None,
            wheel_cooldown_until: None,
            nav_mode: NavMode::Sequential,
            last_nav_input_at: None,
            nav_consecutive_count: 0,
            last_show_at: None,
            show_seq: 0,
            fullscreen_transition_frames: 0,
            fullscreen_overlay_visible_until: None,
            viewport_transition_active: false,
            last_stable_display_w: 0,
            last_stable_display_h: 0,
            first_paint_logged: false,
            pending_started_at: None,
            pending_placeholder_latched: false,
            pending_visible_last: None,
            last_display_commit_show_seq: None,
            gpu_warmup_plan: empty_summary(),
            key_feedback_until: None,
            key_feedback_text: None,
            last_pending_display_state: None,
            last_pending_visual_state: fresh_visual(),
        },
        preview: BoundaryPreviewState::Hidden,
        hint: init.full_equivalent_size_hint,
        spad: fresh_spad(init.spad_session_id),
        delete_range: no_pages_selected(),
        reading_session: fresh_session(),
        outbox: Seq::empty(),
        next_request_id: 1,
        next_texture_id: 1,
    }
}

impl ViewerState {
    /// Opens a book. The first request waits until the display size is known.
    pub fn new(init: ViewerStateInit) -> (state: Self)
        ensures
            state.wf(),
            is_plan_for(state@.plan, init.book.page_map, init.cover_blank),
            state@ == opened(init, state@.plan),
    {
        reveal(ViewerState::wf);
        let background_worker_count: usize = max_usize(init.background_worker_count, 1);
        let auto_spread_plan: Option<Arc<AutoSpreadPlan>> = build_auto_spread_plan_for_mode(
            &init.book.page_map,
            init.cover_blank,
        );
        let spread_setting: SpreadMode = normalize_spread_setting(
            init.spread_setting,
            auto_spread_plan.is_some(),
        );
        let initial_page: u32 = init.start_page;
        let initial_spread_mode: bool = match spread_setting {
            SpreadMode::Auto => is_paired_in_plan(&auto_spread_plan, initial_page),
            SpreadMode::Single => false,
            SpreadMode::Spread => true,
        };
        let entry_id: BookId = init.book.entry.id;
        let state = ViewerState {
            auto_spread_plan,
            persistent: ViewerPersistentState {
                entry_id,
                page_count: 0,
                displayed_page: initial_page,
                requested_page: initial_page,
                target_page: initial_page,
                spread_setting,
                spread_mode: initial_spread_mode,
                global_reading_direction: init.global_reading_direction,
                reading_direction_override: init.reading_direction_override,
                cover_blank: init.cover_blank,
                quality_override: init.quality_override,
                spread_snapshot: SpreadSnapshot {
                    key: SpreadSnapshotKey {
                        entry_id,
                        page_count: 0,
                        spread_setting,
                        cover_blank: init.cover_blank,
                        physical_page: initial_page,
                    },
                    effective_spread: initial_spread_mode,
                    page_right: None,
                    valid: false,
                },
            },
            display_assets: ViewerDisplayAssets {
                content_left: None,
                content_right: None,
                interactive_rgba_cache: RgbaPageCache::new(),
                gpu_texture_history: GpuTextureHistory::new(init.texture_history_max_bytes),
                gpu_warmup_cache: GpuWarmupCache::new(init.texture_future_max_bytes),
            },
            playback: ViewerPlaybackState {
                slideshow_active: false,
                slideshow_interval: hold_interval(init.slideshow_interval, init.slideshow_bounds),
                slideshow_bounds: init.slideshow_bounds,
                slideshow_next_slide_at: None,
                slideshow_arm_on_display: false,
                min_frame_delay_ms: init.min_frame_delay_ms,
            },
            request: ViewerRequestState {
                pending_id: 0,
                pending_id_aux: None,
                interactive_generation: 0,
                pending_interactive_group: None,
                initial_load_pending: true,
                prefetch_dir: 0,
                quality: init.quality,
                rgba_cache_max_mb: init.rgba_cache_max_mb,
                background_worker_count,
                interactive_inflight_even_page: None,
                interactive_inflight_odd_page: None,
                prefetch_anchor_view: 0,
                prefetch_idle_deadline: None,
                prefetch_target_display_w: 0,
                prefetch_target_display_h: 0,
                last_prefetch_target_display_w: None,
                last_prefetch_target_display_h: None,
                display_target_stable_frames: 0,
                display_target_stability_reason: "no-previous-target",
                queued_view: None,
                queued_nav: None,
                active_animation_stream_view: None,
                animation_stream_request_id: None,
                next_nav_id: 1,
                active_nav_id: None,
            },
            ui_runtime: ViewerUiRuntimeState {
                loading: true,
                error: None,
                delete_range_context_menu_target_page: None,
                pending_placeholder_after: None,
                wheel_cooldown_until: None,
                nav_mode: NavMode::Sequential,
                last_nav_input_at: None,
                nav_consecutive_count: 0,
                last_show_at: None,
                show_seq: 0,
                fullscreen_transition_frames: 0,
                fullscreen_overlay_visible_until: None,
                viewport_transition_active: false,
                last_stable_display_w: 0,
                last_stable_display_h: 0,
                first_paint_logged: false,
                pending_started_at: None,
                pending_placeholder_latched: false,
                pending_visible_last: None,
                last_display_commit_show_seq: None,
                gpu_warmup_plan: GpuWarmupPlanSnapshot::default(),
                key_feedback_until: None,
                key_feedback_text: None,
                last_pending_display_state: None,
                last_pending_visual_state: PendingVisualState {
                    target_page: 0,
                    displayed_page: 0,
                    requested_page: 0,
                    show_pending: false,
                    progress_hover: false,
                    progress_drag: false,
                    drag_fraction_milli: None,
                },
            },
            boundary_preview: BoundaryPreviewState::Hidden,
            full_equivalent_size_hint: init.full_equivalent_size_hint,
            spad: ViewerSpadState::new(init.spad_session_id),
            delete_range_selection: ViewerDeleteRangeSelection { start: None, end: None },
            reading_session: ReadingSessionState {
                displayed_any_page: false,
                reached_end: false,
                resume_page: None,
                page_count: 0,
                notification_in_flight: false,
                notification_sent: false,
            },
            interactive_request_plan_cache: None,
            outbox: Vec::new(),
            next_request_id: 1,
            next_texture_id: 1,
            book: init.book,
        };
        assert(state@.interactive == empty_cache());
        assert(state@.history == empty_history(init.texture_history_max_bytes));
        assert(state@.warmup == empty_warmup(init.texture_future_max_bytes));
        assert(state@.outbox =~= Seq::empty());
        state
    }

    pub fn entry(&self) -> (entry: &BookMeta)
        ensures
            *entry == self@.book.entry,
    {
        &self.book.entry
    }

    pub fn current_requested_page(&self) -> (page: u32)
        ensures
            page == self@.persistent.requested_page,
    {
        self.persistent.requested_page
    }

    pub fn current_quality(&self) -> (quality: ViewerQuality)
        ensures
            quality == self@.request.quality,
    {
        self.request.quality
    }

    /// Hands the work that came up to the caller.
    pub fn take_outbox(&mut self) -> (effects: Vec<ViewerEffect>)
        requires
            old(self).wf(),
        ensures
            effects@ == old(self)@.outbox,
            final(self)@ == (ViewerModel { outbox: Seq::empty(), ..old(self)@ }),
            final(self).wf(),
    {
        reveal(ViewerState::wf);
        let mut effects: Vec<ViewerEffect> = Vec::new();
        std::mem::swap(&mut effects, &mut self.outbox);
        assert(self.outbox@ =~= Seq::empty());
        effects
    }
}

/// A book opens at its start page, with nothing on screen and nothing kept; automatic pairing is in
/// force only where the book has a plan.
pub proof fn law_books_open_at_the_start_page(
    init: ViewerStateInit,
    plan: Option<Arc<AutoSpreadPlan>>,
)
    ensures
        ({
            let model = opened(init, plan);
            &&& model.persistent.target_page == init.start_page
            &&& model.persistent.requested_page == init.start_page
            &&& model.persistent.displayed_page == init.start_page
            &&& model.request.initial_load_pending && model.ui.loading
            &&& model.content_left is None && model.content_right is None
            &&& model.history.entries.len() == 0 && model.history.max
                == init.texture_history_max_bytes
            &&& model.warmup.entries.len() == 0 && model.warmup.max
                == init.texture_future_max_bytes
            &&& model.interactive.entries.len() == 0
            &&& model.outbox.len() == 0
            &&& model.request.quality == init.quality
            &&& model.request.rgba_cache_max_mb == init.rgba_cache_max_mb
            &&& model.request.background_worker_count >= 1
            &&& init.background_worker_count >= 1 ==> model.request.background_worker_count
                == init.background_worker_count
            &&& model.persistent.spread_setting == SpreadMode::Auto ==> plan is Some
            &&& (init.spread_setting != SpreadMode::Auto || plan is Some)
                ==> model.persistent.spread_setting == init.spread_setting
            &&& init.spread_setting == SpreadMode::Auto && plan is None
                ==> model.persistent.spread_setting == SpreadMode::Single
                && !model.persistent.spread_mode
            &&& init.spread_setting == SpreadMode::Spread ==> model.persistent.spread_mode
            &&& init.spread_setting == SpreadMode::Single ==> !model.persistent.spread_mode
            &&& model.persistent.cover_blank == init.cover_blank
            &&& model.persistent.reading_direction_override == init.reading_direction_override
            &&& model.persistent.global_reading_direction == init.global_reading_direction
            &&& model.reading_session.resume_page is None
                && !model.reading_session.displayed_any_page && !model.reading_session.reached_end
            &&& !model.playback.slideshow_active
            &&& model.hint == init.full_equivalent_size_hint
            &&& model.delete_range.start is None && model.delete_range.end is None
        }),
{
}

} // verus!
