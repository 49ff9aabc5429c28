//! The overlay on the caches that is shown while debugging.
use vstd::prelude::*;
use vstd::string::*;

use super::display_model::DisplayArea;
use super::gpu_texture_history::GpuTextureHistorySnapshot;
use super::gpu_warmup_cache::GpuWarmupCacheSnapshot;
use super::gpu_warmup_planner::GpuWarmupPlanSnapshot;
use super::rgba_page_cache::{pages_in_order, CacheState, CachedRgbaPage, RgbaPageCache};
use super::state::{ViewerModel, ViewerState};
use super::texture_entries::{snapshots_of, CachedGpuTexture};
use super::worker_manager::ViewerWorkerManagerDebugState;
use super::working_set::{
    page_render_signature_rank, rank_before, rank_is_before, signature_rank, size_distance,
    DisplayRequirement, GpuTextureEntrySnapshot, RenderSignature, SignatureRank,
};
use crate::domain::SpreadMode;
use crate::num::{abs_diff_u32, greatest, least};
use crate::text::{decimal, decimal_text, join, joined, same_text, texts};

verus! {

/// A texture or decode, as the overlay sees it.
#[derive(Clone, Copy, Debug, PartialEq, Eq, Structural)]
pub struct DebugTextureCandidate {
    pub page: u32,
    pub bytes: usize,
    pub signature: RenderSignature,
}

pub open spec fn candidate_rank(
    candidate: DebugTextureCandidate,
    page: u32,
    requirement: DisplayRequirement,
) -> Option<SignatureRank> {
    signature_rank(candidate.page, candidate.signature, page, requirement, candidate.bytes)
}

/// Whether the candidate at `i` suits and no other ranks before it; of equals the first.
pub open spec fn is_best_candidate(
    candidates: Seq<DebugTextureCandidate>,
    page: u32,
    requirement: DisplayRequirement,
    i: int,
) -> bool {
    &&& 0 <= i < candidates.len()
    &&& candidate_rank(candidates[i], page, requirement) is Some
    &&& forall|j: int|
        0 <= j < candidates.len() && #[trigger] candidate_rank(
            candidates[j],
            page,
            requirement,
        ) is Some ==> !rank_before(
            candidate_rank(candidates[j], page, requirement)->0,
            candidate_rank(candidates[i], page, requirement)->0,
        )
}

pub open spec fn any_candidate(
    candidates: Seq<DebugTextureCandidate>,
    page: u32,
    requirement: DisplayRequirement,
) -> bool {
    exists|j: int|
        0 <= j < candidates.len() && #[trigger] candidate_rank(
            candidates[j],
            page,
            requirement,
        ) is Some
}

pub fn best_debug_texture_candidate(
    candidates: &Vec<DebugTextureCandidate>,
    page: u32,
    requirement: DisplayRequirement,
) -> (best: Option<DebugTextureCandidate>)
    ensures
        best is Some <==> any_candidate(candidates@, page, requirement),
        best matches Some(best) ==> exists|i: int| #[trigger]
            is_best_candidate(candidates@, page, requirement, i) && candidates@[i] == best,
{
    let mut best: Option<(SignatureRank, usize)> = None;
    let mut i: usize = 0;
    while i < candidates.len()
        invariant
            i <= candidates@.len(),
            best is None ==> forall|j: int|
                0 <= j < i ==> #[trigger] candidate_rank(
                    candidates@[j],
                    page,
                    requirement,
                ) is None,
            best matches Some((rank, k)) ==> k < i && candidate_rank(
                candidates@[k as int],
                page,
                requirement,
            ) == Some(rank) && forall|j: int|
                0 <= j < i && #[trigger] candidate_rank(candidates@[j], page, requirement) is Some
                    ==> !rank_before(candidate_rank(candidates@[j], page, requirement)->0, rank),
        decreases candidates@.len() - i,
    {
        let candidate: DebugTextureCandidate = candidates[i];
        if let Some(rank) = page_render_signature_rank(
            candidate.page,
            candidate.signature,
            page,
            requirement,
            candidate.bytes,
        ) {
            let better: bool = match best {
                Some((previous, _)) => rank_is_before(rank, previous),
                None => true,
            };
            if better {
                best = Some((rank, i));
            }
        }
        i = i + 1;
    }
    match best {
        Some((_, k)) => {
            assert(is_best_candidate(candidates@, page, requirement, k as int));
            Some(candidates[k])
        },
        None => None,
    }
}

/// Where a page would be found: among the viewer's own decodes, else in the history, unless a
/// texture made ahead is nearer to the required size. A page that is not in the history counts
/// as not found, though one was made ahead.
pub open spec fn found_in(
    page: u32,
    requirement: DisplayRequirement,
    interactive: Seq<DebugTextureCandidate>,
    history: Seq<DebugTextureCandidate>,
    future: Seq<DebugTextureCandidate>,
    source: Option<&'static str>,
) -> bool {
    if any_candidate(interactive, page, requirement) {
        source == Some("Interactive")
    } else if !any_candidate(history, page, requirement) {
        source is None
    } else {
        exists|i: int| #[trigger]
            is_best_candidate(history, page, requirement, i) && if any_candidate(
                future,
                page,
                requirement,
            ) {
                exists|k: int| #[trigger]
                    is_best_candidate(future, page, requirement, k) && source == Some(
                        if size_distance(history[i].signature, requirement) <= size_distance(
                            future[k].signature,
                            requirement,
                        ) {
                            "History"
                        } else {
                            "Future"
                        },
                    )
            } else {
                source == Some("History")
            }
    }
}

pub fn debug_hit_source_for_page(
    page: u32,
    requirement: DisplayRequirement,
    interactive: &Vec<DebugTextureCandidate>,
    history: &Vec<DebugTextureCandidate>,
    future: &Vec<DebugTextureCandidate>,
) -> (source: Option<&'static str>)
    ensures
        found_in(page, requirement, interactive@, history@, future@, source),
{
    if best_debug_texture_candidate(interactive, page, requirement).is_some() {
        return Some("Interactive");
    }
    let shown: DebugTextureCandidate = match best_debug_texture_candidate(
        history,
        page,
        requirement,
    ) {
        Some(shown) => shown,
        None => {
            return None;
        },
    };
    match best_debug_texture_candidate(future, page, requirement) {
        Some(made) => {
            let shown_distance: u64 = abs_diff_u32(
                shown.signature.target_w,
                requirement.required_w,
            ) as u64 + abs_diff_u32(shown.signature.target_h, requirement.required_h) as u64;
            let made_distance: u64 = abs_diff_u32(
                made.signature.target_w,
                requirement.required_w,
            ) as u64 + abs_diff_u32(made.signature.target_h, requirement.required_h) as u64;
            if shown_distance <= made_distance {
                Some("History")
            } else {
                Some("Future")
            }
        },
        None => Some("History"),
    }
}

/// What the background work is doing.
pub open spec fn activity(bg: Option<ViewerWorkerManagerDebugState>, workers: usize) -> &'static str {
    match bg {
        None => "Stopped",
        Some(bg) => if bg.inflight_by_request_id == 0 && bg.fifo_len == 0 {
            "Idle"
        } else if (bg.inflight_by_request_id >= greatest(workers as int, 1) && bg.fifo_len > 0) || (
        bg.dispatch_limit_reason matches Some(reason) && holds_back(reason@)) {
            "Saturated"
        } else {
            "Running"
        },
    }
}

/// Reasons for which work is held back.
pub open spec fn holds_back(reason: Seq<char>) -> bool {
    reason == "no_worker_capacity"@ || reason == "cache_limit_unavailable"@ || reason
        == "cache_full_no_priority_improvement"@
}

pub fn debug_overlay_state_label(
    bg: &Option<ViewerWorkerManagerDebugState>,
    configured_workers: usize,
) -> (label: &'static str)
    ensures
        label == activity(*bg, configured_workers),
{
    let bg: ViewerWorkerManagerDebugState = match bg {
        Some(bg) => *bg,
        None => {
            return "Stopped";
        },
    };
    if bg.inflight_by_request_id == 0 && bg.fifo_len == 0 {
        return "Idle";
    }
    let workers: usize = if configured_workers >= 1 {
        configured_workers
    } else {
        1
    };
    let held_back: bool = match bg.dispatch_limit_reason {
        Some(reason) => same_text(reason, "no_worker_capacity") || same_text(
            reason,
            "cache_limit_unavailable",
        ) || same_text(reason, "cache_full_no_priority_improvement"),
        None => false,
    };
    if (bg.inflight_by_request_id >= workers && bg.fifo_len > 0) || held_back {
        "Saturated"
    } else {
        "Running"
    }
}

pub open spec fn spread_tag(mode: SpreadMode) -> Seq<char> {
    match mode {
        SpreadMode::Auto => "AUTO"@,
        SpreadMode::Single => "1P"@,
        SpreadMode::Spread => "2P"@,
    }
}

pub fn format_spread_mode_tag(mode: SpreadMode) -> (tag: &'static str)
    ensures
        tag@ == spread_tag(mode),
{
    match mode {
        SpreadMode::Auto => "AUTO",
        SpreadMode::Single => "1P",
        SpreadMode::Spread => "2P",
    }
}

/// The numerals of the first `count` pages.
pub open spec fn numerals(pages: Seq<u32>, count: nat) -> Seq<Seq<char>> {
    Seq::new(count, |i: int| decimal(pages[i] as nat))
}

/// A list of pages, cut off after `max_items` with a note of how many more there are.
pub open spec fn page_list(pages: Seq<u32>, max_items: nat) -> Seq<char> {
    if pages.len() == 0 {
        "-"@
    } else if pages.len() > max_items {
        joined(
            numerals(pages, max_items).push(
                "...(+"@ + decimal((pages.len() - max_items) as nat) + ")"@,
            ),
            ", "@,
        )
    } else {
        joined(numerals(pages, pages.len()), ", "@)
    }
}

pub fn format_page_list(pages: &Vec<u32>, max_items: usize) -> (text: String)
    ensures
        text@ == page_list(pages@, max_items as nat),
{
    if pages.len() == 0 {
        return "-".to_owned();
    }
    let count: usize = if pages.len() > max_items {
        max_items
    } else {
        pages.len()
    };
    let mut cells: Vec<String> = Vec::new();
    let mut i: usize = 0;
    assert(texts(cells@) =~= numerals(pages@, 0));
    while i < count
        invariant
            i <= count <= pages@.len(),
            texts(cells@) == numerals(pages@, i as nat),
        decreases count - i,
    {
        let ghost before = cells@;
        cells.push(decimal_text(pages[i] as u128));
        i = i + 1;
        assert(texts(cells@) =~= texts(before).push(decimal(pages@[i - 1] as nat)));
        assert(texts(cells@) =~= numerals(pages@, i as nat));
    }
    if pages.len() > max_items {
        let ghost before = cells@;
        let mut more: String = "...(+".to_owned();
        more.append(decimal_text((pages.len() - max_items) as u128).as_str());
        more.append(")");
        cells.push(more);
        assert(texts(cells@) =~= texts(before).push(
            "...(+"@ + decimal((pages@.len() - max_items) as nat) + ")"@,
        ));
    }
    join(&cells, ", ")
}

pub open spec fn least_page(pages: Seq<u32>) -> int
    decreases pages.len(),
{
    if pages.len() <= 1 {
        pages[0] as int
    } else {
        least(least_page(pages.drop_last()), pages.last() as int)
    }
}

pub open spec fn greatest_page(pages: Seq<u32>) -> int
    decreases pages.len(),
{
    if pages.len() <= 1 {
        pages[0] as int
    } else {
        greatest(greatest_page(pages.drop_last()), pages.last() as int)
    }
}

/// From the first page of a list to the last, by number.
pub open spec fn page_range(pages: Seq<u32>) -> Seq<char> {
    if pages.len() == 0 {
        "-"@
    } else {
        decimal(least_page(pages) as nat) + ".."@ + decimal(greatest_page(pages) as nat)
    }
}

pub fn page_range_text(pages: &Vec<u32>) -> (text: String)
    ensures
        text@ == page_range(pages@),
{
    if pages.len() == 0 {
        return "-".to_owned();
    }
    let mut low: u32 = pages[0];
    let mut high: u32 = pages[0];
    let mut i: usize = 1;
    assert(pages@.take(1)[0] == pages@[0]);
    while i < pages.len()
        invariant
            1 <= i <= pages@.len(),
            low == least_page(pages@.take(i as int)),
            high == greatest_page(pages@.take(i as int)),
        decreases pages@.len() - i,
    {
        assert(pages@.take(i + 1).drop_last() =~= pages@.take(i as int));
        assert(pages@.take(i + 1).last() == pages@[i as int]);
        if pages[i] < low {
            low = pages[i];
        }
        if pages[i] > high {
            high = pages[i];
        }
        i = i + 1;
    }
    assert(pages@.take(i as int) =~= pages@);
    let mut text: String = decimal_text(low as u128);
    text.append("..");
    text.append(decimal_text(high as u128).as_str());
    text
}

/// Bytes in whole mebibytes, rounded to the nearest.
pub open spec fn mebibytes(bytes: nat) -> Seq<char> {
    decimal((bytes + 0x8_0000) / 0x10_0000)
}

pub fn format_mib(bytes: usize) -> (text: String)
    ensures
        text@ == mebibytes(bytes as nat),
{
    decimal_text((bytes as u128 + 0x8_0000) / 0x10_0000)
}

pub open spec fn mebibyte_pair(current: nat, max: nat) -> Seq<char> {
    mebibytes(current) + " MiB / "@ + mebibytes(max) + " MiB"@
}

pub fn format_mib_pair(current_bytes: usize, max_bytes: usize) -> (text: String)
    ensures
        text@ == mebibyte_pair(current_bytes as nat, max_bytes as nat),
{
    let mut text: String = format_mib(current_bytes);
    text.append(" MiB / ");
    text.append(format_mib(max_bytes).as_str());
    text.append(" MiB");
    text
}

/// A line of the overlay.
fn line(label: &str, value: &str) -> (text: String)
    ensures
        text@ == label@ + value@,
{
    let mut text: String = label.to_owned();
    text.append(value);
    text
}

fn number_line(label: &str, value: usize) -> (text: String)
    ensures
        text@ == label@ + decimal(value as nat),
{
    line(label, decimal_text(value as u128).as_str())
}

/// A line with a number of pages and their bytes.
pub open spec fn cache_line(label: Seq<char>, pages: nat, bytes: Seq<char>) -> Seq<char> {
    label + (decimal(pages) + " pages / "@ + bytes)
}

fn pages_line(label: &str, pages: usize, bytes: &str) -> (text: String)
    ensures
        text@ == cache_line(label@, pages as nat, bytes@),
{
    let mut value: String = decimal_text(pages as u128);
    value.append(" pages / ");
    value.append(bytes);
    line(label, value.as_str())
}

pub open spec fn inflight_of(bg: Option<ViewerWorkerManagerDebugState>) -> nat {
    match bg {
        Some(bg) => bg.inflight_by_request_id as nat,
        None => 0,
    }
}

pub open spec fn queued_of(bg: Option<ViewerWorkerManagerDebugState>) -> nat {
    match bg {
        Some(bg) => bg.fifo_len as nat,
        None => 0,
    }
}

/// The pages of a screen, in order.
pub open spec fn listed_pages(pages: (Option<u32>, Option<u32>)) -> Seq<u32> {
    match pages {
        (Some(left), Some(right)) => seq![left, right],
        (Some(page), None) => seq![page],
        (None, Some(page)) => seq![page],
        (None, None) => Seq::empty(),
    }
}

impl ViewerModel {
    pub open spec fn page_section(self) -> Seq<Seq<char>> {
        let pages = listed_pages(self.display_pages(self.persistent.displayed_page));
        seq![
            "Page"@,
            "  Current : "@ + decimal(self.persistent.displayed_page as nat),
            "  Visible : "@ + page_list(pages, 8),
            "  Mode    : "@ + (spread_tag(self.persistent.spread_setting) + " / "@
                + if pages.len() >= 2 {
                "2P"@
            } else {
                "1P"@
            }),
        ]
    }

    pub open spec fn texture_section(self, hit: Seq<char>) -> Seq<Seq<char>> {
        seq![
            "L1 VRAM"@,
            cache_line(
                "  Future  : "@,
                self.warmup.entries.len(),
                mebibyte_pair(self.warmup.bytes, self.warmup.max),
            ),
            cache_line(
                "  History : "@,
                self.history.entries.len(),
                mebibyte_pair(self.history.bytes, self.history.max),
            ),
            "  Hit     : "@ + hit,
            "  Upload  : "@ + match self.ui.gpu_warmup_plan.upload_page {
                Some(page) => decimal(page as nat),
                None => "-"@,
            },
            "  Replace : "@ + decimal(self.ui.gpu_warmup_plan.replacement_count as nat),
        ]
    }

    pub open spec fn decode_section(
        self,
        cache: CacheState,
        bg: Option<ViewerWorkerManagerDebugState>,
    ) -> Seq<Seq<char>> {
        seq![
            "L2 RAM"@,
            cache_line(
                "  Cache   : "@,
                cache.entries.len(),
                mebibytes(cache.bytes) + " / "@ + mebibytes(cache.max),
            ),
            "  Range   : "@ + page_range(pages_in_order(cache.entries)),
            "  Inflight: "@ + decimal(inflight_of(bg)),
            "  Missing : "@ + decimal(self.ui.gpu_warmup_plan.pending_uploads as nat),
        ]
    }

    pub open spec fn worker_section(self, bg: Option<ViewerWorkerManagerDebugState>) -> Seq<Seq<char>> {
        seq![
            "BG"@,
            "  Workers : "@ + decimal(self.request.background_worker_count as nat),
            "  Active  : "@ + decimal(inflight_of(bg)),
            "  Queue   : "@ + decimal(queued_of(bg)),
            "  State   : "@ + activity(bg, self.request.background_worker_count)@,
        ]
    }

    /// The text of the overlay: its sections, an empty line between each two.
    pub open spec fn overlay_text(
        self,
        cache: CacheState,
        hit: Seq<char>,
        bg: Option<ViewerWorkerManagerDebugState>,
    ) -> Seq<char> {
        joined(
            seq![
                joined(self.page_section(), "\n"@),
                joined(self.texture_section(hit), "\n"@),
                joined(self.decode_section(cache, bg), "\n"@),
                joined(self.worker_section(bg), "\n"@),
            ],
            "\n\n"@,
        )
    }
}

fn texture_candidates(entries: &Vec<GpuTextureEntrySnapshot>) -> (candidates: Vec<
    DebugTextureCandidate,
>)
    ensures
        candidates@ == entries@.map_values(
            |entry: GpuTextureEntrySnapshot|
                DebugTextureCandidate {
                    page: entry.page,
                    bytes: entry.bytes,
                    signature: entry.key.render_signature,
                },
        ),
{
    let ghost all = entries@.map_values(
        |entry: GpuTextureEntrySnapshot|
            DebugTextureCandidate {
                page: entry.page,
                bytes: entry.bytes,
                signature: entry.key.render_signature,
            },
    );
    let mut candidates: Vec<DebugTextureCandidate> = Vec::new();
    let mut i: usize = 0;
    while i < entries.len()
        invariant
            i <= entries@.len(),
            all == entries@.map_values(
                |entry: GpuTextureEntrySnapshot|
                    DebugTextureCandidate {
                        page: entry.page,
                        bytes: entry.bytes,
                        signature: entry.key.render_signature,
                    },
            ),
            candidates@ == all.take(i as int),
        decreases entries@.len() - i,
    {
        let entry: GpuTextureEntrySnapshot = entries[i];
        candidates.push(
            DebugTextureCandidate {
                page: entry.page,
                bytes: entry.bytes,
                signature: entry.key.render_signature,
            },
        );
        i = i + 1;
        assert(candidates@ =~= all.take(i as int));
    }
    assert(all.take(i as int) =~= all);
    candidates
}

/// The textures of a cache, as the overlay sees them.
pub open spec fn texture_views(entries: Seq<CachedGpuTexture>) -> Seq<DebugTextureCandidate> {
    snapshots_of(entries).map_values(
        |entry: GpuTextureEntrySnapshot|
            DebugTextureCandidate {
                page: entry.page,
                bytes: entry.bytes,
                signature: entry.key.render_signature,
            },
    )
}

/// The decodes of a cache, as the overlay sees them.
pub open spec fn decode_views(entries: Seq<CachedRgbaPage>) -> Seq<DebugTextureCandidate> {
    entries.map_values(
        |entry: CachedRgbaPage|
            DebugTextureCandidate {
                page: entry.key.page,
                bytes: entry.bytes,
                signature: entry.key.render_signature,
            },
    )
}

fn decode_candidates(cache: &RgbaPageCache) -> (candidates: Vec<DebugTextureCandidate>)
    ensures
        candidates@ == decode_views(cache.entries@),
{
    let ghost all = decode_views(cache.entries@);
    let mut candidates: Vec<DebugTextureCandidate> = Vec::new();
    let mut i: usize = 0;
    while i < cache.entries.len()
        invariant
            i <= cache.entries@.len(),
            all == decode_views(cache.entries@),
            candidates@ == all.take(i as int),
        decreases cache.entries@.len() - i,
    {
        let entry: CachedRgbaPage = cache.entries[i];
        candidates.push(
            DebugTextureCandidate {
                page: entry.key.page,
                bytes: entry.bytes,
                signature: entry.key.render_signature,
            },
        );
        i = i + 1;
        assert(candidates@ =~= all.take(i as int));
    }
    assert(all.take(i as int) =~= all);
    candidates
}

impl ViewerModel {
    /// Whether a page is found where `source` says.
    pub open spec fn page_found_in(
        self,
        page: u32,
        area: DisplayArea,
        source: Option<&'static str>,
    ) -> bool {
        found_in(
            page,
            self.requirement(area.display_w, area.display_h, area.max_tex_side),
            decode_views(self.interactive.entries),
            texture_views(self.history.entries),
            texture_views(self.warmup.entries),
            source,
        )
    }

    /// Whether `label` says where the first page on screen that is found anywhere is.
    pub open spec fn hit_is(self, area: DisplayArea, label: &'static str) -> bool {
        let pages = listed_pages(self.display_pages(self.persistent.displayed_page));
        if pages.len() == 0 {
            label == "-"
        } else if pages.len() == 1 {
            self.page_found_in(pages[0], area, Some(label)) || (self.page_found_in(
                pages[0],
                area,
                None,
            ) && label == "Miss")
        } else {
            self.page_found_in(pages[0], area, Some(label)) || (self.page_found_in(
                pages[0],
                area,
                None,
            ) && (self.page_found_in(pages[1], area, Some(label)) || (self.page_found_in(
                pages[1],
                area,
                None,
            ) && label == "Miss")))
        }
    }
}

impl ViewerState {
    fn visible_list(&self) -> (pages: Vec<u32>)
        requires
            self.wf(),
        ensures
            pages@ == listed_pages(self@.display_pages(self@.persistent.displayed_page)),
    {
        let (left, right): (Option<u32>, Option<u32>) = self.current_view_pages(
            self.persistent.displayed_page,
        );
        let mut pages: Vec<u32> = Vec::new();
        if let Some(page) = left {
            pages.push(page);
        }
        if let Some(page) = right {
            pages.push(page);
        }
        assert(pages@ =~= listed_pages((left, right)));
        pages
    }

    /// Where the pages on screen would be found.
    pub fn debug_hit_label(&self, area: DisplayArea) -> (label: &'static str)
        requires
            self.wf(),
        ensures
            self@.hit_is(area, label),
    {
        let pages: Vec<u32> = self.visible_list();
        if pages.len() == 0 {
            return "-";
        }
        let requirement: DisplayRequirement = self.display_requirement_for_request(
            area.display_w,
            area.display_h,
            area.max_tex_side,
        );
        let interactive: Vec<DebugTextureCandidate> = decode_candidates(
            &self.display_assets.interactive_rgba_cache,
        );
        let history: Vec<DebugTextureCandidate> = texture_candidates(
            &self.display_assets.gpu_texture_history.entry_snapshots(),
        );
        let future: Vec<DebugTextureCandidate> = texture_candidates(
            &self.display_assets.gpu_warmup_cache.entry_snapshots(),
        );
        let first = debug_hit_source_for_page(
            pages[0],
            requirement,
            &interactive,
            &history,
            &future,
        );
        assert(self@.page_found_in(pages@[0], area, first));
        if let Some(label) = first {
            return label;
        }
        if pages.len() < 2 {
            return "Miss";
        }
        let second = debug_hit_source_for_page(
            pages[1],
            requirement,
            &interactive,
            &history,
            &future,
        );
        assert(self@.page_found_in(pages@[1], area, second));
        match second {
            Some(label) => label,
            None => "Miss",
        }
    }

    fn page_lines(&self) -> (lines: Vec<String>)
        requires
            self.wf(),
        ensures
            texts(lines@) == self@.page_section(),
    {
        let pages: Vec<u32> = self.visible_list();
        let mut mode: String = format_spread_mode_tag(
            self.persistent.spread_setting,
        ).to_owned();
        mode.append(" / ");
        if pages.len() >= 2 {
            mode.append("2P");
        } else {
            mode.append("1P");
        }
        let mut lines: Vec<String> = Vec::new();
        lines.push("Page".to_owned());
        lines.push(
            line(
                "  Current : ",
                decimal_text(self.persistent.displayed_page as u128).as_str(),
            ),
        );
        lines.push(line("  Visible : ", format_page_list(&pages, 8).as_str()));
        lines.push(line("  Mode    : ", mode.as_str()));
        assert(texts(lines@) =~= self@.page_section());
        lines
    }

    fn texture_lines(&self, hit: &str) -> (lines: Vec<String>)
        ensures
            texts(lines@) == self@.texture_section(hit@),
    {
        let warmup: GpuWarmupCacheSnapshot = self.display_assets.gpu_warmup_cache.snapshot();
        let history: GpuTextureHistorySnapshot =
            self.display_assets.gpu_texture_history.snapshot();
        let plan: GpuWarmupPlanSnapshot = self.ui_runtime.gpu_warmup_plan;
        let upload: String = match plan.upload_page {
            Some(page) => decimal_text(page as u128),
            None => "-".to_owned(),
        };
        let warm_count: usize = self.display_assets.gpu_warmup_cache.entry_count();
        let history_count: usize = self.display_assets.gpu_texture_history.entry_count();
        let mut lines: Vec<String> = Vec::new();
        lines.push("L1 VRAM".to_owned());
        lines.push(
            pages_line(
                "  Future  : ",
                warm_count,
                format_mib_pair(warmup.current_bytes, warmup.max_bytes).as_str(),
            ),
        );
        lines.push(
            pages_line(
                "  History : ",
                history_count,
                format_mib_pair(history.current_bytes, history.max_bytes).as_str(),
            ),
        );
        lines.push(line("  Hit     : ", hit));
        lines.push(line("  Upload  : ", upload.as_str()));
        lines.push(number_line("  Replace : ", plan.replacement_count));
        assert(texts(lines@) =~= self@.texture_section(hit@));
        lines
    }

    fn decode_lines(
        &self,
        cache: &RgbaPageCache,
        bg: &Option<ViewerWorkerManagerDebugState>,
    ) -> (lines: Vec<String>)
        ensures
            texts(lines@) == self@.decode_section(cache@, *bg),
    {
        let mut bytes: String = format_mib(cache.current_bytes());
        bytes.append(" / ");
        bytes.append(format_mib(cache.max_bytes()).as_str());
        let inflight: usize = match bg {
            Some(bg) => bg.inflight_by_request_id,
            None => 0,
        };
        let mut lines: Vec<String> = Vec::new();
        lines.push("L2 RAM".to_owned());
        lines.push(pages_line("  Cache   : ", cache.entry_count(), bytes.as_str()));
        lines.push(line("  Range   : ", page_range_text(&cache.page_order()).as_str()));
        lines.push(number_line("  Inflight: ", inflight));
        lines.push(number_line("  Missing : ", self.ui_runtime.gpu_warmup_plan.pending_uploads));
        assert(texts(lines@) =~= self@.decode_section(cache@, *bg));
        lines
    }

    fn worker_lines(&self, bg: &Option<ViewerWorkerManagerDebugState>) -> (lines: Vec<String>)
        ensures
            texts(lines@) == self@.worker_section(*bg),
    {
        let (inflight, queued): (usize, usize) = match bg {
            Some(bg) => (bg.inflight_by_request_id, bg.fifo_len),
            None => (0, 0),
        };
        let workers: usize = self.request.background_worker_count;
        let mut lines: Vec<String> = Vec::new();
        lines.push("BG".to_owned());
        lines.push(number_line("  Workers : ", workers));
        lines.push(number_line("  Active  : ", inflight));
        lines.push(number_line("  Queue   : ", queued));
        lines.push(line("  State   : ", debug_overlay_state_label(bg, workers)));
        assert(texts(lines@) =~= self@.worker_section(*bg));
        lines
    }

    /// The text of the debug overlay. `hit` is what [`Self::debug_hit_label`] says.
    pub fn debug_overlay_text(
        &self,
        cache: &RgbaPageCache,
        hit: &str,
        bg: &Option<ViewerWorkerManagerDebugState>,
    ) -> (text: String)
        requires
            self.wf(),
        ensures
            text@ == self@.overlay_text(cache@, hit@, *bg),
    {
        let mut sections: Vec<String> = Vec::new();
        sections.push(join(&self.page_lines(), "\n"));
        sections.push(join(&self.texture_lines(hit), "\n"));
        sections.push(join(&self.decode_lines(cache, bg), "\n"));
        sections.push(join(&self.worker_lines(bg), "\n"));
        assert(texts(sections@) =~= seq![
            joined(self@.page_section(), "\n"@),
            joined(self@.texture_section(hit@), "\n"@),
            joined(self@.decode_section(cache@, *bg), "\n"@),
            joined(self@.worker_section(*bg), "\n"@),
        ]);
        join(&sections, "\n\n")
    }
}

/// The range of a list of pages runs from its smallest to its largest page.
pub proof fn law_ranges_run_from_the_smallest_to_the_largest(pages: Seq<u32>, i: int)
    requires
        0 <= i < pages.len(),
    ensures
        least_page(pages) <= pages[i] <= greatest_page(pages),
        exists|k: int| 0 <= k < pages.len() && #[trigger] pages[k] == least_page(pages),
        exists|k: int| 0 <= k < pages.len() && #[trigger] pages[k] == greatest_page(pages),
    decreases pages.len(),
{
    if pages.len() == 1 {
        assert(pages[0] == least_page(pages) && pages[0] == greatest_page(pages));
    } else {
        let front = pages.drop_last();
        let last = pages.len() - 1;
        law_ranges_run_from_the_smallest_to_the_largest(
            front,
            if i < last {
                i
            } else {
                0
            },
        );
        let low = choose|k: int| 0 <= k < front.len() && #[trigger] front[k] == least_page(front);
        let high = choose|k: int|
            0 <= k < front.len() && #[trigger] front[k] == greatest_page(front);
        assert(pages[low] == front[low] && pages[high] == front[high]);
        assert(pages[last] == pages.last());
    }
}

/// Whole mebibytes are rounded to the nearest.
pub proof fn law_whole_mebibytes_are_rounded(bytes: nat)
    ensures
        exists|n: nat|
            mebibytes(bytes) == #[trigger] decimal(n) && n * 1_048_576 <= bytes + 524_288 && bytes
                < n * 1_048_576 + 524_288,
{
    let n = (bytes + 0x8_0000) / 0x10_0000;
    assert(mebibytes(bytes) == decimal(n));
}

/// Without background work it is stopped; with nothing in flight and nothing waiting it is idle.
pub proof fn law_idle_work_is_told(bg: ViewerWorkerManagerDebugState, workers: usize)
    ensures
        activity(None, workers) == "Stopped",
        bg.inflight_by_request_id == 0 && bg.fifo_len == 0 ==> activity(Some(bg), workers)
            == "Idle",
        workers > 0 && bg.inflight_by_request_id >= workers && bg.fifo_len > 0 ==> activity(
            Some(bg),
            workers,
        ) == "Saturated",
        bg.dispatch_limit_reason is None && workers > 0 && 0 < bg.inflight_by_request_id < workers
            ==> activity(Some(bg), workers) == "Running",
{
}

/// A list of pages names all of them, up to the limit.
pub proof fn law_short_lists_name_every_page(page: u32, limit: nat)
    ensures
        page_list(Seq::empty(), limit) == "-"@,
        limit > 0 ==> page_list(seq![page], limit) == decimal(page as nat),
{
    if limit > 0 {
        let names = numerals(seq![page], 1);
        assert(names =~= seq![decimal(page as nat)]);
        assert(joined(names, ", "@) == names[0]);
    }
}

/// A page among the viewer's own decodes is found there, before any texture; a page that is in no
/// place that counts is not found.
pub proof fn law_own_decodes_are_found_first(
    page: u32,
    requirement: DisplayRequirement,
    own: Seq<DebugTextureCandidate>,
    history: Seq<DebugTextureCandidate>,
    future: Seq<DebugTextureCandidate>,
    source: Option<&'static str>,
    i: int,
)
    requires
        found_in(page, requirement, own, history, future, source),
    ensures
        0 <= i < own.len() && own[i].page == page && own[i].signature.suits(requirement)
            ==> source == Some("Interactive"),
        own.len() == 0 && history.len() == 0 ==> source is None,
        own.len() == 0 && future.len() == 0 && 0 <= i < history.len() && history[i].page == page
            && history[i].signature.suits(requirement) ==> source == Some("History"),
{
    if 0 <= i < own.len() && own[i].page == page && own[i].signature.suits(requirement) {
        assert(candidate_rank(own[i], page, requirement) is Some);
    }
    if 0 <= i < history.len() && history[i].page == page && history[i].signature.suits(
        requirement,
    ) {
        assert(candidate_rank(history[i], page, requirement) is Some);
    }
}

/// A range names its smallest and its largest page; without pages there is none.
pub proof fn law_ranges_name_both_ends(pages: Seq<u32>)
    ensures
        pages.len() == 0 ==> page_range(pages) == "-"@,
        pages.len() > 0 ==> page_range(pages) == decimal(least_page(pages) as nat) + ".."@
            + decimal(greatest_page(pages) as nat),
{
}

} // verus!
