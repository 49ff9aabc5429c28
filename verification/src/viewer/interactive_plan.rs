//! The pages around the present one that the viewer keeps decoded for itself.
use vstd::prelude::*;

use super::page_sequences::mentioned;
use super::working_set::Direction;
use crate::domain::{BookId, ViewerQuality};

verus! {

pub const INTERACTIVE_DISPLAY_CANDIDATE_LIMIT: usize = 8;

/// The conditions that a plan was made under.
#[derive(Clone, Copy, Debug, PartialEq, Eq, Hash, Structural)]
pub struct InteractiveRequestCacheKey {
    pub entry_id: BookId,
    pub page_count: u32,
    pub spread_mode: u8,
    pub quality: ViewerQuality,
    pub display_w: u32,
    pub display_h: u32,
    pub max_tex_side: u32,
    pub working_set_anchor_page: u32,
    pub direction: Direction,
}

/// The last plan that was made.
pub struct InteractiveRequestPlanCache {
    pub key: InteractiveRequestCacheKey,
    pub pages: Vec<u32>,
}

/// The offset of a search step.
pub open spec fn search_offset(direction: Direction, step: int) -> int {
    match direction {
        Direction::Forward => Direction::forward_offset(step),
        Direction::Backward => -Direction::forward_offset(step),
    }
}

/// The pages that the first `steps` search steps reach, as far as they lie in the book.
pub open spec fn reached(anchor: u32, direction: Direction, page_count: u32, steps: nat) -> Seq<u32>
    decreases steps,
{
    if steps == 0 {
        seq![anchor]
    } else {
        let before = reached(anchor, direction, page_count, (steps - 1) as nat);
        let page = anchor + search_offset(direction, steps - 1);
        if 0 <= page < page_count {
            mentioned(before, page as u32)
        } else {
            before
        }
    }
}

/// The page itself and its neighbours, nearest in the direction of reading first.
pub open spec fn interactive_pages(anchor: u32, direction: Direction, page_count: u32) -> Seq<u32> {
    reached(anchor, direction, page_count, 8)
}

impl InteractiveRequestPlanCache {
    pub open spec fn wf(self) -> bool {
        self.pages@ == interactive_pages(
            self.key.working_set_anchor_page,
            self.key.direction,
            self.key.page_count,
        )
    }
}

/// Whether a page is in the list.
pub fn lists(pages: &Vec<u32>, page: u32) -> (found: bool)
    ensures
        found == pages@.contains(page),
{
    let mut i: usize = 0;
    while i < pages.len()
        invariant
            i <= pages@.len(),
            forall|j: int| 0 <= j < i ==> pages@[j] != page,
        decreases pages@.len() - i,
    {
        if pages[i] == page {
            return true;
        }
        i = i + 1;
    }
    false
}

pub fn compute_interactive_request_pages(anchor: u32, direction: Direction, page_count: u32) -> (pages:
    Vec<u32>)
    ensures
        pages@ == interactive_pages(anchor, direction, page_count),
{
    let mut pages: Vec<u32> = Vec::new();
    pages.push(anchor);
    assert(pages@ =~= seq![anchor]);
    let mut step: usize = 0;
    while step < INTERACTIVE_DISPLAY_CANDIDATE_LIMIT
        invariant
            step <= 8,
            pages@ == reached(anchor, direction, page_count, step as nat),
        decreases 8 - step,
    {
        let offset: i64 = direction.signed_offset(step);
        assert(offset == search_offset(direction, step as int));
        assert(-8 <= offset <= 8);
        let candidate: i64 = anchor as i64 + offset;
        step = step + 1;
        if candidate >= 0 && candidate < page_count as i64 {
            let page: u32 = candidate as u32;
            if !lists(&pages, page) {
                pages.push(page);
            }
        }
    }
    pages
}

/// The list starts with the page itself, holds no page twice, and has nine pages at most, of
/// which all but the first are certain to lie in the book.
pub proof fn law_interactive_pages_are_distinct(anchor: u32, direction: Direction, page_count: u32)
    ensures
        interactive_pages(anchor, direction, page_count).no_duplicates(),
        interactive_pages(anchor, direction, page_count).len() <= 9,
        interactive_pages(anchor, direction, page_count)[0] == anchor,
        forall|i: int|
            1 <= i < interactive_pages(anchor, direction, page_count).len() ==> (
            #[trigger] interactive_pages(anchor, direction, page_count)[i]) < page_count,
{
    lemma_reached(anchor, direction, page_count, 8);
}

proof fn lemma_reached(anchor: u32, direction: Direction, page_count: u32, steps: nat)
    ensures
        reached(anchor, direction, page_count, steps).no_duplicates(),
        1 <= reached(anchor, direction, page_count, steps).len() <= steps + 1,
        reached(anchor, direction, page_count, steps)[0] == anchor,
        forall|i: int|
            1 <= i < reached(anchor, direction, page_count, steps).len() ==> (#[trigger] reached(
                anchor,
                direction,
                page_count,
                steps,
            )[i]) < page_count,
    decreases steps,
{
    if steps > 0 {
        lemma_reached(anchor, direction, page_count, (steps - 1) as nat);
    }
}

/// The page that comes next in the direction of reading is listed, where the book has one.
pub proof fn law_next_page_is_listed(anchor: u32, direction: Direction, page_count: u32)
    ensures
        0 <= anchor + search_offset(direction, 0) < page_count ==> interactive_pages(
            anchor,
            direction,
            page_count,
        ).contains((anchor + search_offset(direction, 0)) as u32),
{
    if 0 <= anchor + search_offset(direction, 0) < page_count {
        lemma_reached_grows(anchor, direction, page_count, 1, 8);
        let page = (anchor + search_offset(direction, 0)) as u32;
        reveal_with_fuel(reached, 2);
        let first = reached(anchor, direction, page_count, 1);
        assert(first == mentioned(seq![anchor], page));
        assert(first.contains(page)) by {
            if first == seq![anchor].push(page) {
                assert(first[1] == page);
            }
        }
    }
}

proof fn lemma_reached_grows(
    anchor: u32,
    direction: Direction,
    page_count: u32,
    few: nat,
    many: nat,
)
    requires
        few <= many,
    ensures
        forall|page: u32|
            reached(anchor, direction, page_count, few).contains(page) ==> #[trigger] reached(
                anchor,
                direction,
                page_count,
                many,
            ).contains(page),
    decreases many,
{
    if few < many {
        lemma_reached_grows(anchor, direction, page_count, few, (many - 1) as nat);
        let before = reached(anchor, direction, page_count, (many - 1) as nat);
        let now = reached(anchor, direction, page_count, many);
        assert forall|page: u32| before.contains(page) implies #[trigger] now.contains(page) by {
            let i = choose|i: int| 0 <= i < before.len() && before[i] == page;
            assert(now[i] == page);
        }
    }
}

proof fn lemma_reached_step(
    anchor: u32,
    direction: Direction,
    page_count: u32,
    steps: nat,
    page: u32,
)
    requires
        steps > 0,
    ensures
        reached(anchor, direction, page_count, steps).contains(page) <==> reached(
            anchor,
            direction,
            page_count,
            (steps - 1) as nat,
        ).contains(page) || (page < page_count && page == anchor + search_offset(
            direction,
            steps - 1,
        )),
{
    let before = reached(anchor, direction, page_count, (steps - 1) as nat);
    let next = anchor + search_offset(direction, steps - 1);
    if 0 <= next < page_count {
        super::page_sequences::lemma_pushed_contains(before, next as u32, page);
    }
}

/// The list holds, besides the page itself, the pages of the book up to five ahead and up to three
/// behind, where ahead is the direction of reading.
pub proof fn law_kept_pages_are_near(anchor: u32, direction: Direction, page_count: u32, page: u32)
    requires
        anchor < page_count,
        page < page_count,
    ensures
        interactive_pages(anchor, direction, page_count).contains(page) <==> match direction {
            Direction::Forward => anchor - 3 <= page <= anchor + 5,
            Direction::Backward => anchor - 5 <= page <= anchor + 3,
        },
{
    assert(seq![anchor][0] == anchor);
    assert(reached(anchor, direction, page_count, 0).contains(page) <==> page == anchor);
    lemma_reached_step(anchor, direction, page_count, 1, page);
    lemma_reached_step(anchor, direction, page_count, 2, page);
    lemma_reached_step(anchor, direction, page_count, 3, page);
    lemma_reached_step(anchor, direction, page_count, 4, page);
    lemma_reached_step(anchor, direction, page_count, 5, page);
    lemma_reached_step(anchor, direction, page_count, 6, page);
    lemma_reached_step(anchor, direction, page_count, 7, page);
    lemma_reached_step(anchor, direction, page_count, 8, page);
}

} // verus!
