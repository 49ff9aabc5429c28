//! Render signatures, display requirements and the vocabulary of the prefetch working set.
use vstd::prelude::*;

use crate::domain::{BookId, SpreadMode, ViewerQuality};
use crate::num::{abs_diff_u32, distance, least, saturating_mul_u32};

verus! {

/// A decode may fall short of the requirement by five percent.
pub const RENDER_SIGNATURE_SUITABILITY_NUMERATOR: u32 = 105;

pub const RENDER_SIGNATURE_SUITABILITY_DENOMINATOR: u32 = 100;

/// The conditions under which a page was decoded.
#[derive(Clone, Copy, Debug, PartialEq, Eq, Hash, Structural)]
pub struct RenderSignature {
    pub quality: ViewerQuality,
    /// Width the decode was asked for; the decoded page may be smaller.
    pub target_w: u32,
    /// Height the decode was asked for; the decoded page may be smaller.
    pub target_h: u32,
    /// Texture side limit the decode respected.
    pub max_tex_side: u32,
}

/// The least that a page must offer to be shown.
#[derive(Clone, Copy, Debug, PartialEq, Eq, Hash, Structural)]
pub struct DisplayRequirement {
    pub quality: ViewerQuality,
    pub required_w: u32,
    pub required_h: u32,
    pub max_tex_side: u32,
}

/// Whether a side of `target` pixels may stand in for one of `required` pixels: 105 percent of
/// the target reaches the requirement, in 32-bit saturating arithmetic.
pub open spec fn side_suffices(target: u32, required: u32) -> bool {
    least(target * 105, u32::MAX as int) >= least(required * 100, u32::MAX as int)
}

fn side_is_sufficient(target: u32, required: u32) -> (sufficient: bool)
    ensures
        sufficient == side_suffices(target, required),
{
    saturating_mul_u32(target, RENDER_SIGNATURE_SUITABILITY_NUMERATOR) >= saturating_mul_u32(
        required,
        RENDER_SIGNATURE_SUITABILITY_DENOMINATOR,
    )
}

impl RenderSignature {
    /// Same quality and texture limit, and both sides large enough.
    pub open spec fn suits(self, requirement: DisplayRequirement) -> bool {
        &&& self.quality == requirement.quality
        &&& self.max_tex_side == requirement.max_tex_side
        &&& side_suffices(self.target_w, requirement.required_w)
        &&& side_suffices(self.target_h, requirement.required_h)
    }

    pub fn from_decode_request(
        quality: ViewerQuality,
        target_w: u32,
        target_h: u32,
        max_tex_side: u32,
    ) -> (signature: Self)
        ensures
            signature == (RenderSignature { quality, target_w, target_h, max_tex_side }),
    {
        Self { quality, target_w, target_h, max_tex_side }
    }

    pub fn is_suitable_for(self, requirement: DisplayRequirement) -> (suitable: bool)
        ensures
            suitable == self.suits(requirement),
    {
        self.quality == requirement.quality && self.max_tex_side == requirement.max_tex_side
            && side_is_sufficient(self.target_w, requirement.required_w) && side_is_sufficient(
            self.target_h,
            requirement.required_h,
        )
    }

    /// The first condition that keeps the signature from suiting the requirement; `None` if and
    /// only if it suits.
    pub fn mismatch_reason(self, requirement: DisplayRequirement) -> (reason: Option<
        &'static str,
    >)
        ensures
            reason is None <==> self.suits(requirement),
            reason matches Some(text) ==> text@ == if self.quality != requirement.quality {
                "quality mismatch"@
            } else if self.max_tex_side != requirement.max_tex_side {
                "max_tex_side mismatch"@
            } else {
                "insufficient resolution"@
            },
    {
        if self.quality != requirement.quality {
            return Some("quality mismatch");
        }
        if self.max_tex_side != requirement.max_tex_side {
            return Some("max_tex_side mismatch");
        }
        if !side_is_sufficient(self.target_w, requirement.required_w) || !side_is_sufficient(
            self.target_h,
            requirement.required_h,
        ) {
            return Some("insufficient resolution");
        }
        None
    }
}

impl DisplayRequirement {
    pub fn from_display_request(
        quality: ViewerQuality,
        required_w: u32,
        required_h: u32,
        max_tex_side: u32,
    ) -> (requirement: Self)
        ensures
            requirement == (DisplayRequirement { quality, required_w, required_h, max_tex_side }),
    {
        Self { quality, required_w, required_h, max_tex_side }
    }
}

/// Distance from the required size, then target width and height, then bytes.
pub type SignatureRank = (u64, u32, u32, usize);

/// How far a decode misses the required size.
pub open spec fn size_distance(signature: RenderSignature, requirement: DisplayRequirement) -> int {
    distance(signature.target_w as int, requirement.required_w as int) + distance(
        signature.target_h as int,
        requirement.required_h as int,
    )
}

/// The rank of a candidate among the suitable decodes of the required page; smaller is better.
pub open spec fn signature_rank(
    candidate_page: u32,
    signature: RenderSignature,
    required_page: u32,
    requirement: DisplayRequirement,
    bytes: usize,
) -> Option<SignatureRank> {
    if candidate_page == required_page && signature.suits(requirement) {
        Some(
            (
                size_distance(signature, requirement) as u64,
                signature.target_w,
                signature.target_h,
                bytes,
            ),
        )
    } else {
        None
    }
}

pub fn page_render_signature_rank(
    candidate_page: u32,
    candidate_signature: RenderSignature,
    required_page: u32,
    requirement: DisplayRequirement,
    bytes: usize,
) -> (rank: Option<SignatureRank>)
    ensures
        rank == signature_rank(
            candidate_page,
            candidate_signature,
            required_page,
            requirement,
            bytes,
        ),
        rank matches Some(rank) ==> rank.0 == size_distance(candidate_signature, requirement),
{
    if candidate_page != required_page {
        return None;
    }
    if !candidate_signature.is_suitable_for(requirement) {
        return None;
    }
    let score: u64 = abs_diff_u32(candidate_signature.target_w, requirement.required_w) as u64
        + abs_diff_u32(candidate_signature.target_h, requirement.required_h) as u64;
    Some((score, candidate_signature.target_w, candidate_signature.target_h, bytes))
}

/// Lexicographic order of ranks.
pub open spec fn rank_before(a: SignatureRank, b: SignatureRank) -> bool {
    ||| a.0 < b.0
    ||| a.0 == b.0 && a.1 < b.1
    ||| a.0 == b.0 && a.1 == b.1 && a.2 < b.2
    ||| a.0 == b.0 && a.1 == b.1 && a.2 == b.2 && a.3 < b.3
}

pub fn rank_is_before(a: SignatureRank, b: SignatureRank) -> (before: bool)
    ensures
        before == rank_before(a, b),
{
    if a.0 != b.0 {
        a.0 < b.0
    } else if a.1 != b.1 {
        a.1 < b.1
    } else if a.2 != b.2 {
        a.2 < b.2
    } else {
        a.3 < b.3
    }
}

/// Two suitable decodes of one page with the same rank have the same signature: the choice of
/// the best one does not depend on the order in which candidates are looked at.
pub proof fn law_rank_identifies_the_signature(
    page: u32,
    a: RenderSignature,
    b: RenderSignature,
    requirement: DisplayRequirement,
    a_bytes: usize,
    b_bytes: usize,
)
    requires
        a.suits(requirement),
        b.suits(requirement),
        signature_rank(page, a, page, requirement, a_bytes) == signature_rank(
            page,
            b,
            page,
            requirement,
            b_bytes,
        ),
    ensures
        a == b,
        a_bytes == b_bytes,
{
}

/// Where navigation stands, as a physical page.
#[derive(Clone, Copy, Debug, PartialEq, Eq, Hash, Structural)]
pub enum WorkingSetAnchorPage {
    /// The page chosen by navigation.
    Single { requested_page: u32 },
    /// The navigation page of a forced spread.
    Spread { navigation_page: u32 },
    /// The navigation page of automatic pairing.
    Auto { navigation_page: u32 },
}

impl WorkingSetAnchorPage {
    pub open spec fn page(self) -> u32 {
        match self {
            WorkingSetAnchorPage::Single { requested_page } => requested_page,
            WorkingSetAnchorPage::Spread { navigation_page } => navigation_page,
            WorkingSetAnchorPage::Auto { navigation_page } => navigation_page,
        }
    }

    pub fn navigation_page(self) -> (page: u32)
        ensures
            page == self.page(),
    {
        match self {
            WorkingSetAnchorPage::Single { requested_page } => requested_page,
            WorkingSetAnchorPage::Spread { navigation_page } => navigation_page,
            WorkingSetAnchorPage::Auto { navigation_page } => navigation_page,
        }
    }
}

/// Direction of reading; pages ahead are favoured over pages behind.
#[derive(Clone, Copy, Debug, PartialEq, Eq, Hash, Structural)]
pub enum Direction {
    Forward,
    Backward,
}

impl Direction {
    pub fn from_nav_delta(delta: i32) -> (direction: Option<Self>)
        ensures
            direction == if delta > 0 {
                Some(Direction::Forward)
            } else if delta < 0 {
                Some(Direction::Backward)
            } else {
                None
            },
    {
        if delta > 0 {
            Some(Direction::Forward)
        } else if delta < 0 {
            Some(Direction::Backward)
        } else {
            None
        }
    }

    pub fn as_str(self) -> (text: &'static str)
        ensures
            text@ == match self {
                Direction::Forward => "forward"@,
                Direction::Backward => "backward"@,
            },
    {
        match self {
            Direction::Forward => "forward",
            Direction::Backward => "backward",
        }
    }

    /// The offset of a forward search at `step`: 1, 2, -1, 3, -2, 4, -3, ...
    pub open spec fn forward_offset(step: int) -> int {
        if step == 0 {
            1
        } else if step % 2 == 1 {
            step / 2 + 2
        } else {
            -(step / 2)
        }
    }

    /// The offset of a search in this direction at a step; a backward search mirrors a forward
    /// one.
    pub fn signed_offset(self, step_index: usize) -> (offset: i64)
        requires
            step_index <= i64::MAX,
        ensures
            offset == match self {
                Direction::Forward => Direction::forward_offset(step_index as int),
                Direction::Backward => -Direction::forward_offset(step_index as int),
            },
    {
        let half: i64 = (step_index / 2) as i64;
        match self {
            Direction::Forward => if step_index == 0 {
                1
            } else if step_index % 2 == 1 {
                half + 2
            } else {
                -half
            },
            Direction::Backward => if step_index == 0 {
                -1
            } else if step_index % 2 == 1 {
                -(half + 2)
            } else {
                half
            },
        }
    }
}

/// No two steps of a search look at the same offset, and none looks at the start itself.
pub proof fn law_offsets_are_distinct(a: int, b: int)
    requires
        0 <= a,
        0 <= b,
        Direction::forward_offset(a) == Direction::forward_offset(b),
    ensures
        a == b,
        Direction::forward_offset(a) != 0,
{
}

/// A page under one set of decode conditions.
#[derive(Clone, Copy, Debug, PartialEq, Eq, Hash, Structural)]
pub struct PageRenderSignatureKey {
    pub page: u32,
    pub render_signature: RenderSignature,
}

/// What the planners see of a cached texture.
#[derive(Clone, Copy, Debug, PartialEq, Eq, Structural)]
pub struct GpuTextureEntrySnapshot {
    pub key: PageRenderSignatureKey,
    pub page: u32,
    pub bytes: usize,
}

/// Whether a page may be prefetched again.
#[derive(Clone, Copy, Debug, PartialEq, Eq, Structural)]
pub enum BgAdmissionState {
    Admissible,
    TooLargeForBgRgba,
    InsertDidNotSurvive,
}

/// The render conditions a background result must match to be accepted.
#[derive(Clone, Copy, Debug, PartialEq, Eq, Structural)]
pub struct BgRenderContext {
    pub book_id: BookId,
    pub quality: ViewerQuality,
    pub spread_setting: SpreadMode,
    pub spread_mode: bool,
    pub cover_blank: bool,
    pub full_equivalent_area_w: u32,
    pub full_equivalent_area_h: u32,
    pub max_tex_side: u32,
}

/// A page that is wanted, whether or not it is held.
#[derive(Clone, Copy, Debug, PartialEq, Eq, Structural)]
pub struct WorkingSetPage {
    pub page: u32,
}

/// The wanted pages in order of importance.
pub struct WorkingSetPlan {
    pub pages: Vec<WorkingSetPage>,
}

impl WorkingSetPlan {
    pub fn new(_anchor_page: WorkingSetAnchorPage, _direction: Direction) -> (plan: Self)
        ensures
            plan.pages@ == Seq::<WorkingSetPage>::empty(),
    {
        Self { pages: Vec::new() }
    }

    pub fn push(&mut self, page: WorkingSetPage)
        ensures
            final(self).pages@ == old(self).pages@.push(page),
    {
        self.pages.push(page);
    }

    pub fn pages(&self) -> (pages: &Vec<WorkingSetPage>)
        ensures
            pages@ == self.pages@,
    {
        &self.pages
    }

    pub fn page_count(&self) -> (count: usize)
        ensures
            count == self.pages@.len(),
    {
        self.pages.len()
    }
}

/// A page under decode in the background.
#[derive(Clone, Copy, Debug, PartialEq, Eq, Structural)]
pub struct BgInflightEntry {
    pub request_id: u64,
    pub page: u32,
    pub render_signature: RenderSignature,
    pub render_context: BgRenderContext,
    pub working_set_anchor_page: WorkingSetAnchorPage,
    pub source_view: Option<u32>,
}

impl BgInflightEntry {
    pub fn key(&self) -> (key: PageRenderSignatureKey)
        ensures
            key == (PageRenderSignatureKey {
                page: self.page,
                render_signature: self.render_signature,
            }),
    {
        PageRenderSignatureKey { page: self.page, render_signature: self.render_signature }
    }
}

/// A side may fall short of what is required by a twentieth of itself and no more; a longer side
/// never suits less.
pub proof fn law_sides_may_fall_short_by_a_twentieth(target: u32, longer: u32, required: u32)
    requires
        required <= 42_000_000,
        target <= longer,
    ensures
        side_suffices(target, required) <==> 20 * (required - target) <= target,
        side_suffices(target, required) ==> side_suffices(longer, required),
        side_suffices(required, required),
{
}

/// A decode suits what it was made for, and nothing of another quality or texture limit.
pub proof fn law_decodes_suit_their_own_requirement(
    signature: RenderSignature,
    requirement: DisplayRequirement,
)
    ensures
        signature.suits(
            DisplayRequirement {
                quality: signature.quality,
                required_w: signature.target_w,
                required_h: signature.target_h,
                max_tex_side: signature.max_tex_side,
            },
        ),
        signature.suits(requirement) ==> signature.quality == requirement.quality
            && signature.max_tex_side == requirement.max_tex_side,
        signature.quality == requirement.quality && signature.max_tex_side
            == requirement.max_tex_side && signature.target_w >= requirement.required_w
            && signature.target_h >= requirement.required_h ==> signature.suits(requirement),
        requirement.required_w <= 42_000_000 && 2 * signature.target_w < requirement.required_w
            ==> !signature.suits(requirement),
        requirement.required_h <= 42_000_000 && 2 * signature.target_h < requirement.required_h
            ==> !signature.suits(requirement),
{
}

/// Of two decodes that suit, the one nearer to the required size is ranked first.
pub proof fn law_nearer_sizes_rank_first(
    page: u32,
    a: RenderSignature,
    b: RenderSignature,
    requirement: DisplayRequirement,
    a_bytes: usize,
    b_bytes: usize,
)
    requires
        a.suits(requirement),
        b.suits(requirement),
    ensures
        ({
            let (w, h) = (requirement.required_w as int, requirement.required_h as int);
            let off_a = distance(a.target_w as int, w) + distance(a.target_h as int, h);
            let off_b = distance(b.target_w as int, w) + distance(b.target_h as int, h);
            let rank_a = signature_rank(page, a, page, requirement, a_bytes);
            let rank_b = signature_rank(page, b, page, requirement, b_bytes);
            &&& rank_a is Some && rank_b is Some
            &&& off_a < off_b ==> rank_before(rank_a->0, rank_b->0)
            &&& off_a == off_b && a.target_w < b.target_w ==> rank_before(rank_a->0, rank_b->0)
            &&& a == b && a_bytes < b_bytes ==> rank_before(rank_a->0, rank_b->0)
        }),
{
}

/// Decodes of other pages are not ranked at all.
pub proof fn law_other_pages_are_not_ranked(
    candidate: u32,
    signature: RenderSignature,
    page: u32,
    requirement: DisplayRequirement,
    bytes: usize,
)
    ensures
        candidate != page ==> signature_rank(candidate, signature, page, requirement, bytes)
            is None,
        !signature.suits(requirement) ==> signature_rank(
            candidate,
            signature,
            page,
            requirement,
            bytes,
        ) is None,
{
}

/// Ranks are in a total order.
pub proof fn law_ranks_are_ordered(a: SignatureRank, b: SignatureRank, c: SignatureRank)
    ensures
        !rank_before(a, a),
        rank_before(a, b) && rank_before(b, c) ==> rank_before(a, c),
        a != b ==> rank_before(a, b) || rank_before(b, a),
{
}

} // verus!
