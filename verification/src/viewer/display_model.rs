//! How a request for a page leads to pages on screen, as values.
use vstd::prelude::*;

use super::gpu_texture_history::{counted, HistoryState};
use super::gpu_warmup_cache::WarmupState;
use super::layout::{full_equivalent_area, page_width};
use super::page_content::{
    after, chunk_content, chunk_texture, content_of, texture_of, Content, StreamFrame,
};
use super::rgba_page_cache::{page_entry, CacheState, FrameSet, RgbaCacheKey};
use super::spad::{budget_bytes, l2_mebibytes, spad_area};
use super::state::{
    InteractivePendingGroup, LoadKind, NavMode, PublishedState, ReadingSessionState,
    SpreadSnapshot, ViewerEffect, ViewerLoadRequest, ViewerModel, ViewerPersistentState,
    ViewerPlaybackState, ViewerRequestState, ViewerResult, ViewerUiRuntimeState,
};
use super::texture_entries::{
    holds_key, key_index, CachedGpuTexture, GpuTextureHit, GpuTextureHitSource, GpuTextureKey,
    TextureRef,
};
use super::working_set::{size_distance, DisplayRequirement, RenderSignature};
use crate::domain::SpreadMode;
use crate::num::{capped, least};

verus! {

/// The area that pages are shown in, and the largest side that a texture may have.
#[derive(Clone, Copy, Debug, PartialEq, Eq, Structural)]
pub struct DisplayArea {
    pub display_w: u32,
    pub display_h: u32,
    pub max_tex_side: u32,
}

/// A viewer together with the decodes that the background work holds.
pub struct Screen {
    pub model: ViewerModel,
    pub bg: CacheState,
}

/// How long a page may take before a placeholder stands in for it.
pub const PENDING_PLACEHOLDER_DELAY: u64 = 150_000_000;

/// How long reading has to rest before pages far off are decoded.
pub const PREFETCH_DEEP_IDLE_DELAY: u64 = 250_000_000;

/// What one side of a screen is made of.
pub struct Slot {
    pub page: Option<u32>,
    pub content: Option<Content>,
    /// The texture that was found for the page.
    pub hit: Option<GpuTextureHit>,
    /// Whether a texture made for the page goes into the history.
    pub register: bool,
}

/// The bytes of a texture.
pub open spec fn texture_bytes(texture: TextureRef) -> nat {
    capped(capped(texture.width as nat * texture.height as nat) * 4)
}

/// The slideshow, waiting from `now` on.
pub open spec fn armed(playback: ViewerPlaybackState, now: u64) -> ViewerPlaybackState {
    ViewerPlaybackState {
        slideshow_next_slide_at: Some(after(now, playback.slideshow_interval as int)),
        slideshow_arm_on_display: false,
        ..playback
    }
}

/// The slideshow, waiting for the page on its way.
pub open spec fn waiting_for_display(playback: ViewerPlaybackState) -> ViewerPlaybackState {
    if playback.slideshow_active {
        ViewerPlaybackState {
            slideshow_next_slide_at: None,
            slideshow_arm_on_display: true,
            ..playback
        }
    } else {
        playback
    }
}

pub open spec fn slideshow_stopped(playback: ViewerPlaybackState) -> ViewerPlaybackState {
    ViewerPlaybackState {
        slideshow_active: false,
        slideshow_next_slide_at: None,
        slideshow_arm_on_display: false,
        ..playback
    }
}

impl ReadingSessionState {
    /// The session with another screen shown. It tells where to resume, and whether the screen
    /// held the last page.
    pub open spec fn recorded(
        self,
        left_page: Option<u32>,
        right_page: Option<u32>,
        page_count: usize,
    ) -> ReadingSessionState {
        if left_page is None && right_page is None {
            self
        } else {
            ReadingSessionState {
                displayed_any_page: true,
                resume_page: match (left_page, right_page) {
                    (Some(page), _) => Some(page as usize),
                    (None, Some(page)) => Some(page as usize),
                    (None, None) => None,
                },
                page_count: if page_count > 0 {
                    page_count
                } else {
                    self.page_count
                },
                reached_end: if page_count > 0 {
                    left_page == Some((page_count - 1) as u32) || right_page == Some(
                        (page_count - 1) as u32,
                    )
                } else {
                    self.reached_end
                },
                ..self
            }
        }
    }
}

/// The request state with nothing under way for the screen.
pub open spec fn inflight_cleared(request: ViewerRequestState) -> ViewerRequestState {
    ViewerRequestState {
        pending_id: 0,
        pending_id_aux: None,
        pending_interactive_group: None,
        interactive_inflight_even_page: None,
        interactive_inflight_odd_page: None,
        ..request
    }
}

pub open spec fn animation_cleared(request: ViewerRequestState) -> ViewerRequestState {
    ViewerRequestState {
        active_animation_stream_view: None,
        animation_stream_request_id: None,
        ..request
    }
}

/// The first page of the pair whose number leaves `parity` when halved.
pub open spec fn first_of_parity(left: Option<u32>, right: Option<u32>, parity: int) -> Option<u32> {
    match (left, right) {
        (Some(page), _) if page as int % 2 == parity => Some(page),
        (_, Some(page)) if page as int % 2 == parity => Some(page),
        _ => None,
    }
}

/// A page looked for in the decode caches.
pub struct Resolved {
    /// Whether the page is decoded, or there is no page.
    pub ready: bool,
    pub frames: Option<FrameSet>,
    pub interactive: CacheState,
    pub bg: CacheState,
}

/// Looks for a page: first among the viewer's own decodes, then among those of the background
/// work, from where it is taken over; `kept` is spared when that evicts.
#[verifier::opaque]
pub open spec fn resolve(
    interactive: CacheState,
    bg: CacheState,
    page: Option<u32>,
    requirement: DisplayRequirement,
    kept: Set<u32>,
) -> Resolved {
    match page {
        None => Resolved { ready: true, frames: None, interactive, bg },
        Some(page) => match interactive.best(page, requirement) {
            Some(entry) => Resolved {
                ready: true,
                frames: Some(entry.frames),
                interactive: interactive.looked_up(page, requirement),
                bg,
            },
            None => match bg.best(page, requirement) {
                Some(entry) => Resolved {
                    ready: true,
                    frames: Some(entry.frames),
                    interactive: interactive.stored(
                        page_entry(
                            RgbaCacheKey { page, render_signature: entry.key.render_signature },
                            entry.frames,
                            "bg-promote",
                        ),
                        kept,
                    ),
                    bg: bg.looked_up(page, requirement),
                },
                None => Resolved { ready: false, frames: None, interactive, bg },
            },
        },
    }
}

/// The textures found for the pages of a screen.
pub struct FoundTextures {
    pub left: Option<GpuTextureHit>,
    pub right: Option<GpuTextureHit>,
}

/// Of the texture found in the history and the one found among those made ahead, the one nearer
/// to the required size; the history's where both are as near.
pub open spec fn better_hit(
    history: Option<GpuTextureHit>,
    warmup: Option<GpuTextureHit>,
    requirement: DisplayRequirement,
) -> Option<GpuTextureHit> {
    match (history, warmup) {
        (Some(shown), Some(made)) => if size_distance(shown.key.render_signature, requirement)
            <= size_distance(made.key.render_signature, requirement) {
            history
        } else {
            warmup
        },
        (Some(_), None) => history,
        (None, _) => warmup,
    }
}

impl ViewerModel {
    pub open spec fn with_nav(self) -> ViewerModel {
        ViewerModel {
            request: ViewerRequestState {
                next_nav_id: counted(self.request.next_nav_id, 1),
                active_nav_id: Some(self.request.next_nav_id),
                ..self.request
            },
            ..self
        }
    }

    pub open spec fn with_effect(self, effect: ViewerEffect) -> ViewerModel {
        ViewerModel { outbox: self.outbox.push(effect), ..self }
    }

    /// The page count, where it was not known, and everything brought into the book.
    #[verifier::opaque]
    pub open spec fn with_page_count(self, page_count: u32) -> ViewerModel {
        if self.persistent.page_count != 0 || page_count == 0 {
            self
        } else {
            let last = page_count - 1;
            ViewerModel {
                persistent: ViewerPersistentState {
                    page_count,
                    requested_page: least(self.persistent.requested_page as int, last) as u32,
                    displayed_page: least(self.persistent.displayed_page as int, last) as u32,
                    target_page: least(self.persistent.target_page as int, last) as u32,
                    spread_snapshot: SpreadSnapshot {
                        valid: false,
                        ..self.persistent.spread_snapshot
                    },
                    ..self.persistent
                },
                request: ViewerRequestState {
                    prefetch_anchor_view: least(
                        self.request.prefetch_anchor_view as int,
                        last,
                    ) as u32,
                    ..self.request
                },
                ..self
            }
        }
    }

    /// The viewer's own decodes under their limit, the kept pages gone last.
    #[verifier::opaque]
    pub open spec fn budget_set(self) -> ViewerModel {
        ViewerModel {
            interactive: self.interactive.limited(
                budget_bytes(self.request.rgba_cache_max_mb),
                self.kept_pages().to_set(),
            ),
            ..self
        }
    }

    /// A decode put among the viewer's own.
    #[verifier::opaque]
    pub open spec fn with_decode(
        self,
        page: Option<u32>,
        frames: Option<FrameSet>,
        signature: RenderSignature,
    ) -> ViewerModel {
        match (page, frames) {
            (Some(page), Some(frames)) => ViewerModel {
                interactive: self.interactive.stored(
                    page_entry(
                        RgbaCacheKey { page, render_signature: signature },
                        frames,
                        "interactive",
                    ),
                    self.kept_pages().to_set(),
                ),
                ..self
            },
            _ => self,
        }
    }

    /// What the background work is told.
    #[verifier::opaque]
    pub open spec fn published(self, area: DisplayArea) -> PublishedState {
        let (full_w, full_h) = full_equivalent_area(self.hint, area.display_w, area.display_h);
        let (first, second) = self.display_pages(self.persistent.displayed_page);
        let spread = second is Some || self.leading_blank(self.persistent.displayed_page);
        PublishedState {
            book_id: self.persistent.entry_id,
            page_count: self.persistent.page_count,
            spread_setting: self.persistent.spread_setting,
            cover_blank: self.persistent.cover_blank,
            quality: self.request.quality,
            requested_page: self.persistent.requested_page,
            displayed_page: self.persistent.displayed_page,
            target_page: self.persistent.target_page,
            visible_page_first: first,
            visible_page_second: second,
            loading: self.ui.loading,
            nav_mode_follow_latest: self.ui.nav_mode == NavMode::FollowLatest,
            prefetch_dir: self.request.prefetch_dir,
            prefetch_anchor_view: self.request.prefetch_anchor_view,
            max_tex_side: area.max_tex_side,
            full_equivalent_area_w: full_w,
            full_equivalent_area_h: full_h,
            background_worker_count: self.request.background_worker_count,
            rgba_cache_max_mb: self.request.rgba_cache_max_mb,
            effective_rgba_cache_max_mb: l2_mebibytes(
                self.spad.budget(
                    spad_area(full_w, full_h, page_width(full_w, spread), full_h),
                    self.request.rgba_cache_max_mb,
                ),
            ),
            active_animation_stream_view: self.request.active_animation_stream_view,
            animation_stream_request_id: self.request.animation_stream_request_id,
        }
    }

    /// The background work set going around the present page; not while an animation plays.
    #[verifier::opaque]
    pub open spec fn prefetch_triggered(self, area: DisplayArea, now: u64) -> ViewerModel {
        if self.request.active_animation_stream_view is Some
            || self.request.animation_stream_request_id is Some {
            ViewerModel {
                request: ViewerRequestState { prefetch_idle_deadline: None, ..self.request },
                ..self
            }
        } else {
            let going = ViewerModel {
                request: ViewerRequestState {
                    prefetch_dir: if self.request.prefetch_dir == 0 {
                        1
                    } else {
                        self.request.prefetch_dir
                    },
                    prefetch_anchor_view: self.anchor().page(),
                    prefetch_idle_deadline: Some(after(now, PREFETCH_DEEP_IDLE_DELAY as int)),
                    ..self.request
                },
                ..self
            };
            going.with_effect(ViewerEffect::Publish(going.published(area)))
        }
    }

    /// The best texture there is for a page.
    #[verifier::opaque]
    pub open spec fn best_texture(self, page: Option<u32>, requirement: DisplayRequirement) ->
        Option<GpuTextureHit> {
        match page {
            Some(page) => better_hit(
                self.history.found(page, requirement),
                self.warmup.found(page, requirement),
                requirement,
            ),
            None => None,
        }
    }

    /// A screen asked for: everything that belonged to the one before is given up.
    #[verifier::opaque]
    pub open spec fn view_begun(self, page: u32, now: u64) -> ViewerModel {
        ViewerModel {
            ui: ViewerUiRuntimeState {
                loading: true,
                error: None,
                pending_placeholder_after: Some(after(now, PENDING_PLACEHOLDER_DELAY as int)),
                ..self.ui
            },
            playback: waiting_for_display(self.playback),
            persistent: ViewerPersistentState {
                requested_page: page,
                target_page: page,
                spread_mode: match self.persistent.spread_setting {
                    SpreadMode::Auto => self.display_pages(page).1 is Some || self.leading_blank(
                        page,
                    ),
                    SpreadMode::Spread => true,
                    SpreadMode::Single => false,
                },
                ..self.persistent
            },
            request: inflight_cleared(
                animation_cleared(
                    ViewerRequestState {
                        prefetch_anchor_view: page,
                        prefetch_idle_deadline: None,
                        ..self.request
                    },
                ),
            ),
            ..self
        }
    }

    /// A result made up from what the viewer holds.
    #[verifier::opaque]
    pub open spec fn synthetic_result(
        self,
        nav_id: u64,
        page: u32,
        pages: (Option<u32>, Option<u32>),
        left: Option<FrameSet>,
        right: Option<FrameSet>,
        signature: RenderSignature,
    ) -> ViewerResult {
        ViewerResult {
            request_id: nav_id,
            left,
            right,
            page_count: self.persistent.page_count,
            left_orig_w: 0,
            left_orig_h: 0,
            right_orig_w: 0,
            right_orig_h: 0,
            error: None,
            left_is_animation_stream: false,
            right_is_animation_stream: false,
            left_stream_exhausted: false,
            right_stream_exhausted: false,
            queue_wait_ms: 0,
            decode_ms: 0,
            view_idx: page,
            nav_id,
            page_left: pages.0,
            page_right: pages.1,
            request_display_w: signature.target_w,
            request_display_h: signature.target_h,
            request_quality: signature.quality,
            request_max_tex_side: signature.max_tex_side,
        }
    }

    /// A texture set up for a decoded page, or for the first chunk of a stream.
    #[verifier::opaque]
    pub open spec fn uploaded(
        self,
        frames: Option<FrameSet>,
        is_stream: bool,
        chunk: Seq<StreamFrame>,
    ) -> ViewerModel {
        match frames {
            Some(frames) => ViewerModel {
                next_texture_id: counted(self.next_texture_id, 1),
                ..self.with_effect(
                    if is_stream {
                        ViewerEffect::UploadChunk {
                            texture: chunk_texture(self.next_texture_id, chunk),
                            chunk: frames,
                        }
                    } else {
                        ViewerEffect::Upload {
                            texture: texture_of(self.next_texture_id, frames),
                            frames,
                        }
                    },
                )
            },
            None => self,
        }
    }

    /// The content that goes with [`Self::uploaded`].
    #[verifier::opaque]
    pub open spec fn new_content(
        self,
        frames: Option<FrameSet>,
        is_stream: bool,
        chunk: Seq<StreamFrame>,
        exhausted: bool,
        now: u64,
    ) -> Option<Content> {
        let min = self.playback.min_frame_delay_ms;
        match frames {
            Some(frames) => Some(
                if is_stream {
                    chunk_content(chunk, exhausted, min, self.next_texture_id, now)
                } else {
                    content_of(frames, min, self.next_texture_id, now)
                },
            ),
            None => None,
        }
    }

    /// A request put to the loader.
    pub open spec fn asked(self, request: ViewerLoadRequest) -> ViewerModel {
        ViewerModel {
            next_request_id: counted(self.next_request_id, 1),
            ..self.with_effect(
                ViewerEffect::Load(
                    ViewerLoadRequest { request_id: self.next_request_id, ..request },
                ),
            )
        }
    }

    /// The request for one page of a screen.
    pub open spec fn page_request(
        self,
        nav_id: u64,
        view: u32,
        page: u32,
        signature: RenderSignature,
    ) -> ViewerLoadRequest {
        ViewerLoadRequest {
            request_id: self.next_request_id,
            kind: LoadKind::Display,
            view_idx: view,
            page_left: Some(page),
            page_right: None,
            display_w: signature.target_w,
            display_h: signature.target_h,
            quality: signature.quality,
            max_tex_side: signature.max_tex_side,
            nav_id,
        }
    }

    /// One page of a screen asked for, unless there is none or it is at hand.
    pub open spec fn page_asked(
        self,
        nav_id: u64,
        view: u32,
        page: Option<u32>,
        at_hand: bool,
        signature: RenderSignature,
    ) -> ViewerModel {
        match page {
            Some(page) if !at_hand => self.asked(
                self.page_request(nav_id, view, page, signature),
            ),
            _ => self,
        }
    }

    /// The id of the request that [`Self::page_asked`] makes.
    pub open spec fn asked_id(self, page: Option<u32>, at_hand: bool) -> Option<u64> {
        if page is Some && !at_hand {
            Some(self.next_request_id)
        } else {
            None
        }
    }

    /// Both pages of a screen asked for, as far as they are not at hand. Their answers belong
    /// together; older answers are void.
    #[verifier::opaque]
    pub open spec fn group_asked(
        self,
        nav_id: u64,
        view: u32,
        pages: (Option<u32>, Option<u32>),
        left: Option<ViewerResult>,
        right: Option<ViewerResult>,
        signature: RenderSignature,
        no_request_id: u64,
    ) -> ViewerModel {
        let generation = counted(self.request.interactive_generation, 1);
        let left_id = self.asked_id(pages.0, left is Some);
        let one = self.page_asked(nav_id, view, pages.0, left is Some, signature);
        let right_id = one.asked_id(pages.1, right is Some);
        let both = one.page_asked(nav_id, view, pages.1, right is Some, signature);
        ViewerModel {
            request: ViewerRequestState {
                interactive_generation: generation,
                pending_id: match (left_id, right_id) {
                    (Some(id), _) => id,
                    (None, Some(id)) => id,
                    (None, None) => no_request_id,
                },
                pending_id_aux: match (left_id, right_id) {
                    (Some(first), Some(second)) if first != second => Some(second),
                    _ => None,
                },
                interactive_inflight_even_page: first_of_parity(pages.0, pages.1, 0),
                interactive_inflight_odd_page: first_of_parity(pages.0, pages.1, 1),
                pending_interactive_group: Some(
                    InteractivePendingGroup {
                        group_id: nav_id,
                        generation,
                        page_left: pages.0,
                        page_right: pages.1,
                        left_request_id: left_id,
                        right_request_id: right_id,
                        left_result: left,
                        right_result: right,
                    },
                ),
                ..self.request
            },
            ..both
        }
    }

    /// A texture that was made for a page, put into the history.
    pub open spec fn registered(
        self,
        page: Option<u32>,
        content: Option<Content>,
        signature: RenderSignature,
    ) -> ViewerModel {
        match (page, content) {
            (Some(page), Some(Content::Static(texture))) => {
                let key = GpuTextureKey { page, render_signature: signature };
                ViewerModel {
                    warmup: self.warmup.without(key),
                    history: self.history.stored(
                        CachedGpuTexture {
                            key,
                            texture,
                            estimated_bytes: texture_bytes(texture) as usize,
                        },
                    ),
                    ..self
                }
            },
            _ => self,
        }
    }

    /// Whether a texture that was found is still held where it was found.
    pub open spec fn still_holds(self, hit: GpuTextureHit) -> bool {
        match hit.source {
            GpuTextureHitSource::History => holds_key(self.history.entries, hit.key),
            GpuTextureHitSource::Warmup => holds_key(self.warmup.entries, hit.key),
        }
    }

    /// A texture that was found has come on screen: it is the latest of the history.
    pub open spec fn hit_taken(self, hit: GpuTextureHit) -> ViewerModel {
        match hit.source {
            GpuTextureHitSource::History => ViewerModel {
                history: HistoryState {
                    full_hit_count: counted(self.history.full_hit_count, 1),
                    ..self.history.touched(hit.key)
                },
                ..self
            },
            GpuTextureHitSource::Warmup => ViewerModel {
                warmup: WarmupState {
                    hit_count: counted(self.warmup.hit_count, 1),
                    ..self.warmup.promoted(hit.key)
                },
                history: self.history.stored(
                    CachedGpuTexture {
                        key: hit.key,
                        ..self.warmup.entries[key_index(self.warmup.entries, hit.key)]
                    },
                ),
                ..self
            },
        }
    }

    /// One side of a screen that has been committed, noted in the texture caches.
    #[verifier::opaque]
    pub open spec fn slot_settled(
        self,
        page: Option<u32>,
        hit: Option<GpuTextureHit>,
        register: bool,
        content: Option<Content>,
        signature: RenderSignature,
    ) -> ViewerModel {
        if hit matches Some(hit) && self.still_holds(hit) {
            self.hit_taken(hit->0)
        } else if register {
            self.registered(page, content, signature)
        } else {
            self
        }
    }

    /// The screen that was asked for is shown.
    #[verifier::opaque]
    pub open spec fn shown(
        self,
        left: Slot,
        right: Slot,
        is_stream: bool,
        now: u64,
    ) -> ViewerModel {
        ViewerModel {
            content_left: left.content,
            content_right: right.content,
            ui: ViewerUiRuntimeState {
                loading: false,
                pending_placeholder_after: None,
                nav_mode: if self.persistent.requested_page == self.persistent.target_page {
                    NavMode::Sequential
                } else {
                    self.ui.nav_mode
                },
                last_display_commit_show_seq: Some(self.ui.show_seq),
                ..self.ui
            },
            persistent: ViewerPersistentState {
                displayed_page: self.persistent.requested_page,
                ..self.persistent
            },
            reading_session: self.reading_session.recorded(
                left.page,
                right.page,
                self.persistent.page_count as usize,
            ),
            playback: if self.playback.slideshow_active && self.playback.slideshow_arm_on_display {
                armed(self.playback, now)
            } else {
                self.playback
            },
            request: ViewerRequestState {
                active_animation_stream_view: if is_stream {
                    Some(self.persistent.requested_page)
                } else {
                    None
                },
                ..self.request
            },
            ..self
        }
    }

    /// A screen for which textures were found for some pages only, or for none, counted.
    #[verifier::opaque]
    pub open spec fn lookup_noted(self, some_found: bool) -> ViewerModel {
        ViewerModel {
            history: if some_found {
                HistoryState {
                    partial_spread_hit_count: counted(self.history.partial_spread_hit_count, 1),
                    ..self.history
                }
            } else {
                HistoryState { miss_count: counted(self.history.miss_count, 1), ..self.history }
            },
            ..self
        }
    }

    /// A screen that is half made from a texture that was found, counted.
    #[verifier::opaque]
    pub open spec fn reuse_noted(self) -> ViewerModel {
        ViewerModel {
            history: HistoryState {
                partial_reuse_count: counted(self.history.partial_reuse_count, 1),
                ..self.history
            },
            ..self
        }
    }

    /// The page that waits, taken out of the queue.
    pub open spec fn dequeued(self) -> ViewerModel {
        ViewerModel {
            request: ViewerRequestState { queued_nav: None, queued_view: None, ..self.request },
            ..self
        }
    }

    /// A load that failed.
    #[verifier::opaque]
    pub open spec fn failed(self, result: ViewerResult) -> ViewerModel {
        ViewerModel {
            ui: ViewerUiRuntimeState {
                error: result.error,
                loading: false,
                pending_placeholder_after: None,
                ..self.ui
            },
            request: animation_cleared(self.request),
            playback: slideshow_stopped(self.playback),
            ..self
        }
    }

    /// A result is passed over when later input has moved on from the page it is for.
    pub open spec fn outdated(self) -> bool {
        &&& self.ui.nav_mode == NavMode::FollowLatest
        &&& self.request.queued_view is Some
        &&& self.persistent.target_page != self.persistent.requested_page
    }
}

/// What follows a screen that is shown: the screen that waits is asked for.
pub open spec fn waiting(area: DisplayArea, now: u64) -> spec_fn(Screen) -> Screen {
    |screen: Screen| screen.waiting_started(area, now)
}

/// How many screens wait: one or none.
pub open spec fn queue_length(model: ViewerModel) -> nat {
    if model.request.queued_nav is Some {
        1
    } else {
        0
    }
}

/// The signature of the decodes in a result.
pub open spec fn result_signature(result: ViewerResult) -> RenderSignature {
    RenderSignature {
        quality: result.request_quality,
        target_w: result.request_display_w,
        target_h: result.request_display_h,
        max_tex_side: result.request_max_tex_side,
    }
}

/// The frames of a side that is no stream.
pub open spec fn still_frames(frames: Option<FrameSet>, is_stream: bool) -> Option<FrameSet> {
    if is_stream {
        None
    } else {
        frames
    }
}

/// A page shown by a texture that was found.
pub open spec fn texture_content(hit: Option<GpuTextureHit>) -> Option<Content> {
    match hit {
        Some(hit) => Some(Content::Static(hit.texture)),
        None => None,
    }
}

/// The cache once a page's decode was looked for under exactly this signature.
pub open spec fn used_by(cache: CacheState, page: Option<u32>, signature: RenderSignature) ->
    CacheState {
    match page {
        Some(page) => cache.used(RgbaCacheKey { page, render_signature: signature }),
        None => cache,
    }
}

impl Screen {
    /// Whether a screen other than the present one waits to be asked for.
    pub open spec fn has_waiting(self) -> bool {
        self.model.request.queued_nav matches Some((page, _)) && page
            != self.model.persistent.requested_page
    }

    /// Asks for the screen that waits, if one does.
    #[verifier::opaque]
    pub open spec fn waiting_started(self, area: DisplayArea, now: u64) -> Screen {
        match self.model.request.queued_nav {
            Some((page, nav_id)) => {
                let taken = Screen { model: self.model.dequeued(), ..self };
                if page != self.model.persistent.requested_page {
                    taken.view_started(nav_id, page, area, now, |screen: Screen| screen)
                } else {
                    taken
                }
            },
            None => self,
        }
    }

    /// Shows the contents of a screen. `onward` goes on from there to the screen that waits; where
    /// none does, the background work is set going. Then what was shown is noted in the texture
    /// caches.
    #[verifier::opaque]
    pub open spec fn committed(
        self,
        left: Slot,
        right: Slot,
        signature: RenderSignature,
        is_stream: bool,
        area: DisplayArea,
        now: u64,
        onward: spec_fn(Screen) -> Screen,
    ) -> Screen
    {
        let shown = Screen { model: self.model.shown(left, right, is_stream, now), ..self };
        let waiting = onward(shown);
        let going = if shown.has_waiting() {
            waiting
        } else {
            Screen { model: waiting.model.prefetch_triggered(area, now), ..waiting }
        };
        let one = going.model.slot_settled(
            left.page,
            left.hit,
            left.register,
            going.model.content_left,
            signature,
        );
        Screen {
            model: one.slot_settled(
                right.page,
                right.hit,
                right.register,
                one.content_right,
                signature,
            ),
            ..going
        }
    }

    /// Takes a result: shows it, or notes its error, or passes it over for later input. The
    /// chunks are the frames of streams.
    #[verifier::opaque]
    pub open spec fn applied(
        self,
        result: ViewerResult,
        left_chunk: Seq<StreamFrame>,
        right_chunk: Seq<StreamFrame>,
        area: DisplayArea,
        now: u64,
        onward: spec_fn(Screen) -> Screen,
    ) -> Screen
    {
        let model = self.model.with_page_count(result.page_count);
        if result.error is Some {
            onward(Screen { model: model.failed(result), ..self })
        } else if model.outdated() {
            onward(Screen { model, ..self })
        } else {
            let (left_page, right_page) = model.display_pages(model.persistent.requested_page);
            let signature = result_signature(result);
            let cached = model.budget_set().with_decode(
                left_page,
                still_frames(result.left, result.left_is_animation_stream),
                signature,
            ).with_decode(
                right_page,
                still_frames(result.right, result.right_is_animation_stream),
                signature,
            );
            let left_content = cached.new_content(
                result.left,
                result.left_is_animation_stream,
                left_chunk,
                result.left_stream_exhausted,
                now,
            );
            let one = cached.uploaded(result.left, result.left_is_animation_stream, left_chunk);
            let right_content = one.new_content(
                result.right,
                result.right_is_animation_stream,
                right_chunk,
                result.right_stream_exhausted,
                now,
            );
            let both = one.uploaded(result.right, result.right_is_animation_stream, right_chunk);
            Screen { model: both, ..self }.committed(
                Slot { page: left_page, content: left_content, hit: None, register: true },
                Slot { page: right_page, content: right_content, hit: None, register: true },
                signature,
                result.left_is_animation_stream || result.right_is_animation_stream,
                area,
                now,
                onward,
            )
        }
    }

    /// The screen at a page asked for.
    #[verifier::opaque]
    pub open spec fn view_started(
        self,
        nav_id: u64,
        page: u32,
        area: DisplayArea,
        now: u64,
        onward: spec_fn(Screen) -> Screen,
    ) ->
        Screen
    {
        Screen { model: self.model.view_begun(page, now), ..self }.screen_requested(
            nav_id,
            page,
            area,
            now,
            onward,
        )
    }

    /// Shows a screen from what is held, or asks the loader for what is missing: textures that
    /// were found for all its pages are shown; a texture for one page and a decode of the other
    /// are; decodes of both are; else the pages that are not decoded are asked for.
    #[verifier::opaque]
    pub open spec fn screen_requested(
        self,
        nav_id: u64,
        page: u32,
        area: DisplayArea,
        now: u64,
        onward: spec_fn(Screen) -> Screen,
    ) -> Screen
    {
        let layout = self.model.layout(page, area.display_w, area.display_h);
        let pages = (layout.page_left, layout.page_right);
        let model = self.model.laid_out(page, false).budget_set();
        let signature = model.signature(
            layout.page_decode_w,
            layout.page_decode_h,
            area.max_tex_side,
        );
        let requirement = model.requirement(
            layout.page_decode_w,
            layout.page_decode_h,
            area.max_tex_side,
        );
        let left = model.best_texture(pages.0, requirement);
        let right = model.best_texture(pages.1, requirement);
        let some_found = left is Some || right is Some;
        if some_found && (pages.0 is None || left is Some) && (pages.1 is None || right is Some) {
            Screen { model, ..self }.committed(
                Slot { page: pages.0, content: texture_content(left), hit: left, register: false },
                Slot {
                    page: pages.1,
                    content: texture_content(right),
                    hit: right,
                    register: false,
                },
                signature,
                false,
                area,
                now,
                onward,
            )
        } else {
            let noted = model.lookup_noted(some_found);
            let other = resolve(
                noted.interactive,
                self.bg,
                if left is Some {
                    pages.1
                } else {
                    pages.0
                },
                requirement,
                noted.kept_pages().to_set(),
            );
            if some_found && other.ready {
                Screen {
                    model: ViewerModel { interactive: other.interactive, ..noted },
                    bg: other.bg,
                }.half_reused(
                    pages,
                    left,
                    right,
                    other.frames,
                    signature,
                    area,
                    now,
                    onward,
                )
            } else {
                Screen { model: noted, ..self }.decodes_shown_or_asked(
                    nav_id,
                    page,
                    pages,
                    signature,
                    requirement,
                    area,
                    now,
                    onward,
                )
            }
        }
    }

    /// A screen of one texture that was found and one that is made from a decode.
    #[verifier::opaque]
    pub open spec fn half_reused(
        self,
        pages: (Option<u32>, Option<u32>),
        left: Option<GpuTextureHit>,
        right: Option<GpuTextureHit>,
        frames: Option<FrameSet>,
        signature: RenderSignature,
        area: DisplayArea,
        now: u64,
        onward: spec_fn(Screen) -> Screen,
    ) -> Screen
    {
        let made = self.model.new_content(frames, false, Seq::empty(), false, now);
        let done = Screen {
            model: self.model.uploaded(frames, false, Seq::empty()),
            ..self
        }.committed(
            Slot {
                page: pages.0,
                content: if left is Some {
                    texture_content(left)
                } else {
                    made
                },
                hit: left,
                register: left is None,
            },
            Slot {
                page: pages.1,
                content: if left is Some {
                    made
                } else {
                    texture_content(right)
                },
                hit: if left is Some {
                    None
                } else {
                    right
                },
                register: left is Some,
            },
            signature,
            false,
            area,
            now,
            onward,
        );
        Screen { model: done.model.reuse_noted(), ..done }
    }

    /// Shows the decodes of a screen's pages where all are held; else asks for the others.
    #[verifier::opaque]
    pub open spec fn decodes_shown_or_asked(
        self,
        nav_id: u64,
        page: u32,
        pages: (Option<u32>, Option<u32>),
        signature: RenderSignature,
        requirement: DisplayRequirement,
        area: DisplayArea,
        now: u64,
        onward: spec_fn(Screen) -> Screen,
    ) -> Screen
    {
        let kept = self.model.kept_pages().to_set();
        let left = resolve(self.model.interactive, self.bg, pages.0, requirement, kept);
        let right = resolve(left.interactive, left.bg, pages.1, requirement, kept);
        let model = ViewerModel { interactive: right.interactive, ..self.model };
        if left.ready && right.ready {
            let shown = Screen { model, bg: right.bg }.applied(
                model.synthetic_result(nav_id, page, pages, left.frames, right.frames, signature),
                Seq::empty(),
                Seq::empty(),
                area,
                now,
                onward,
            );
            Screen { model: shown.model.prefetch_triggered(area, now), ..shown }
        } else {
            Screen { model, bg: right.bg }.missing_asked(nav_id, page, pages, signature, requirement)
        }
    }

    /// Asks for the pages of a screen that are not decoded; those that are wait with the others.
    #[verifier::opaque]
    pub open spec fn missing_asked(
        self,
        nav_id: u64,
        page: u32,
        pages: (Option<u32>, Option<u32>),
        signature: RenderSignature,
        requirement: DisplayRequirement,
    ) -> Screen {
        let kept = self.model.kept_pages().to_set();
        let left = resolve(self.model.interactive, self.bg, pages.0, requirement, kept);
        let right = resolve(left.interactive, left.bg, pages.1, requirement, kept);
        let model = ViewerModel { interactive: right.interactive, ..self.model };
        Screen {
            model: if !left.ready && !right.ready {
                ViewerModel {
                    interactive: used_by(
                        used_by(model.interactive, pages.0, signature),
                        pages.1,
                        signature,
                    ),
                    ..model
                }.group_asked(nav_id, page, pages, None, None, signature, 0)
            } else {
                model.group_asked(
                    nav_id,
                    page,
                    pages,
                    if pages.0 is Some && left.ready {
                        Some(
                            model.synthetic_result(
                                nav_id,
                                page,
                                pages,
                                left.frames,
                                None,
                                signature,
                            ),
                        )
                    } else {
                        None
                    },
                    if pages.1 is Some && right.ready {
                        Some(
                            model.synthetic_result(
                                nav_id,
                                page,
                                pages,
                                None,
                                right.frames,
                                signature,
                            ),
                        )
                    } else {
                        None
                    },
                    signature,
                    nav_id,
                )
            },
            bg: right.bg,
        }
    }

    /// Whether a result changes the screen or its error, or sets a new request going.
    pub open spec fn takes(self, result: ViewerResult) -> bool {
        let model = self.model.with_page_count(result.page_count);
        result.error is None && model.outdated() ==> Screen { model, ..self }.has_waiting()
    }
}

/// Where no screen waits, what follows a screen that is shown is nothing.
proof fn lemma_nothing_waits(screen: Screen, area: DisplayArea, now: u64)
    requires
        screen.model.request.queued_nav is None,
    ensures
        waiting(area, now)(screen) == screen,
{
    reveal(Screen::waiting_started);
}

proof fn lemma_last_commit(
    screen: Screen,
    left: Slot,
    right: Slot,
    signature: RenderSignature,
    is_stream: bool,
    area: DisplayArea,
    now: u64,
)
    requires
        screen.model.request.queued_nav is None,
    ensures
        screen.committed(left, right, signature, is_stream, area, now, waiting(area, now))
            == screen.committed(
            left,
            right,
            signature,
            is_stream,
            area,
            now,
            |screen: Screen| screen,
        ),
{
    reveal(Screen::committed);
    let shown = Screen { model: screen.model.shown(left, right, is_stream, now), ..screen };
    assert(shown.model.request.queued_nav is None) by {
        reveal(ViewerModel::shown);
    }
    lemma_nothing_waits(shown, area, now);
}

proof fn lemma_last_applied(
    screen: Screen,
    result: ViewerResult,
    left_chunk: Seq<StreamFrame>,
    right_chunk: Seq<StreamFrame>,
    area: DisplayArea,
    now: u64,
)
    requires
        screen.model.request.queued_nav is None,
    ensures
        screen.applied(result, left_chunk, right_chunk, area, now, waiting(area, now))
            == screen.applied(
            result,
            left_chunk,
            right_chunk,
            area,
            now,
            |screen: Screen| screen,
        ),
{
    reveal(Screen::applied);
    let model = screen.model.with_page_count(result.page_count);
    assert(model.request.queued_nav is None) by {
        reveal(ViewerModel::with_page_count);
    }
    if result.error is Some {
        assert(model.failed(result).request.queued_nav is None) by {
            reveal(ViewerModel::failed);
        }
        lemma_nothing_waits(Screen { model: model.failed(result), ..screen }, area, now);
    } else if model.outdated() {
        lemma_nothing_waits(Screen { model, ..screen }, area, now);
    } else {
        let (left_page, right_page) = model.display_pages(model.persistent.requested_page);
        let signature = result_signature(result);
        let cached = model.budget_set().with_decode(
            left_page,
            still_frames(result.left, result.left_is_animation_stream),
            signature,
        ).with_decode(
            right_page,
            still_frames(result.right, result.right_is_animation_stream),
            signature,
        );
        let left_content = cached.new_content(
            result.left,
            result.left_is_animation_stream,
            left_chunk,
            result.left_stream_exhausted,
            now,
        );
        let one = cached.uploaded(result.left, result.left_is_animation_stream, left_chunk);
        let right_content = one.new_content(
            result.right,
            result.right_is_animation_stream,
            right_chunk,
            result.right_stream_exhausted,
            now,
        );
        let both = one.uploaded(result.right, result.right_is_animation_stream, right_chunk);
        assert(cached.request.queued_nav is None) by {
            reveal(ViewerModel::budget_set);
            reveal(ViewerModel::with_decode);
        }
        assert(both.request.queued_nav is None) by {
            reveal(ViewerModel::uploaded);
        }
        lemma_last_commit(
            Screen { model: both, ..screen },
            Slot { page: left_page, content: left_content, hit: None, register: true },
            Slot { page: right_page, content: right_content, hit: None, register: true },
            signature,
            result.left_is_animation_stream || result.right_is_animation_stream,
            area,
            now,
        );
    }
}

/// A screen that is asked for while none waits is followed by none.
pub proof fn lemma_last_view(screen: Screen, nav_id: u64, page: u32, area: DisplayArea, now: u64)
    requires
        screen.model.request.queued_nav is None,
    ensures
        screen.view_started(nav_id, page, area, now, waiting(area, now)) == screen.view_started(
            nav_id,
            page,
            area,
            now,
            |screen: Screen| screen,
        ),
{
    reveal(Screen::view_started);
    let begun = Screen { model: screen.model.view_begun(page, now), ..screen };
    assert(begun.model.request.queued_nav is None) by {
        reveal(ViewerModel::view_begun);
    }
    lemma_last_screen(begun, nav_id, page, area, now);
}

proof fn lemma_last_screen(screen: Screen, nav_id: u64, page: u32, area: DisplayArea, now: u64)
    requires
        screen.model.request.queued_nav is None,
    ensures
        screen.screen_requested(nav_id, page, area, now, waiting(area, now))
            == screen.screen_requested(nav_id, page, area, now, |screen: Screen| screen),
{
    reveal(Screen::screen_requested);
    let layout = screen.model.layout(page, area.display_w, area.display_h);
    let pages = (layout.page_left, layout.page_right);
    let model = screen.model.laid_out(page, false).budget_set();
    assert(model.request.queued_nav is None) by {
        reveal(ViewerModel::laid_out);
        reveal(ViewerModel::budget_set);
    }
    let signature = model.signature(layout.page_decode_w, layout.page_decode_h, area.max_tex_side);
    let requirement = model.requirement(
        layout.page_decode_w,
        layout.page_decode_h,
        area.max_tex_side,
    );
    let left = model.best_texture(pages.0, requirement);
    let right = model.best_texture(pages.1, requirement);
    let some_found = left is Some || right is Some;
    let noted = model.lookup_noted(some_found);
    assert(noted.request.queued_nav is None) by {
        reveal(ViewerModel::lookup_noted);
    }
    let other = resolve(
        noted.interactive,
        screen.bg,
        if left is Some {
            pages.1
        } else {
            pages.0
        },
        requirement,
        noted.kept_pages().to_set(),
    );
    lemma_last_commit(
        Screen { model, ..screen },
        Slot { page: pages.0, content: texture_content(left), hit: left, register: false },
        Slot { page: pages.1, content: texture_content(right), hit: right, register: false },
        signature,
        false,
        area,
        now,
    );
    lemma_last_half_reused(
        Screen {
            model: ViewerModel { interactive: other.interactive, ..noted },
            bg: other.bg,
        },
        pages,
        left,
        right,
        other.frames,
        signature,
        area,
        now,
    );
    lemma_last_decodes(
        Screen { model: noted, ..screen },
        nav_id,
        page,
        pages,
        signature,
        requirement,
        area,
        now,
    );
}

proof fn lemma_last_half_reused(
    screen: Screen,
    pages: (Option<u32>, Option<u32>),
    left: Option<GpuTextureHit>,
    right: Option<GpuTextureHit>,
    frames: Option<FrameSet>,
    signature: RenderSignature,
    area: DisplayArea,
    now: u64,
)
    requires
        screen.model.request.queued_nav is None,
    ensures
        screen.half_reused(pages, left, right, frames, signature, area, now, waiting(area, now))
            == screen.half_reused(
            pages,
            left,
            right,
            frames,
            signature,
            area,
            now,
            |screen: Screen| screen,
        ),
{
    reveal(Screen::half_reused);
    let made = screen.model.new_content(frames, false, Seq::empty(), false, now);
    let model = screen.model.uploaded(frames, false, Seq::empty());
    assert(model.request.queued_nav is None) by {
        reveal(ViewerModel::uploaded);
    }
    lemma_last_commit(
        Screen { model, ..screen },
        Slot {
            page: pages.0,
            content: if left is Some {
                texture_content(left)
            } else {
                made
            },
            hit: left,
            register: left is None,
        },
        Slot {
            page: pages.1,
            content: if left is Some {
                made
            } else {
                texture_content(right)
            },
            hit: if left is Some {
                None
            } else {
                right
            },
            register: left is Some,
        },
        signature,
        false,
        area,
        now,
    );
}

proof fn lemma_last_decodes(
    screen: Screen,
    nav_id: u64,
    page: u32,
    pages: (Option<u32>, Option<u32>),
    signature: RenderSignature,
    requirement: DisplayRequirement,
    area: DisplayArea,
    now: u64,
)
    requires
        screen.model.request.queued_nav is None,
    ensures
        screen.decodes_shown_or_asked(
            nav_id,
            page,
            pages,
            signature,
            requirement,
            area,
            now,
            waiting(area, now),
        ) == screen.decodes_shown_or_asked(
            nav_id,
            page,
            pages,
            signature,
            requirement,
            area,
            now,
            |screen: Screen| screen,
        ),
{
    reveal(Screen::decodes_shown_or_asked);
    let kept = screen.model.kept_pages().to_set();
    let left = resolve(screen.model.interactive, screen.bg, pages.0, requirement, kept);
    let right = resolve(left.interactive, left.bg, pages.1, requirement, kept);
    let model = ViewerModel { interactive: right.interactive, ..screen.model };
    lemma_last_applied(
        Screen { model, bg: right.bg },
        model.synthetic_result(nav_id, page, pages, left.frames, right.frames, signature),
        Seq::empty(),
        Seq::empty(),
        area,
        now,
    );
}

} // verus!
