//! The order in which pages are worth decoding in the background, and what that order means for
//! a cache of limited size: what to dispatch, what may go, and whether a finished decode is let
//! in.
use vstd::prelude::*;

use std::collections::{HashMap, HashSet};

use super::auto_spread_plan::AutoSpreadPlan;
use super::page_sequences::{
    all_mentioned, at_most, first_mentions, leading, lemma_all_mentioned,
    lemma_all_mentioned_concat, lemma_full_is_final, lemma_leading_concat, lemma_selected_concat,
    lemma_selected_contains, mention, mentioned, pages_below, selected,
};
use crate::num::{capped, greatest, least, max_usize, monus};

verus! {

/// Where reading stands in a book, and which pages are on screen.
pub struct SimpleStreamingCachePolicy {
    pub current_page: u32,
    pub total_pages: u32,
    pub visible_pages: Vec<u32>,
}

/// How many pages (or screens) ahead are taken for one behind: a sixth of what is ahead, between
/// one and twelve.
pub open spec fn burst(ahead: nat) -> nat {
    if ahead / 6 < 1 {
        1
    } else if ahead / 6 > 12 {
        12
    } else {
        ahead / 6
    }
}

/// `count` elements ahead, then one behind, and so on until both are used up: `ahead` in its
/// order interleaved with `behind` in its order.
pub open spec fn interleaved<T>(ahead: Seq<T>, behind: Seq<T>, count: nat) -> Seq<T>
    decreases ahead.len() + behind.len(),
{
    if count == 0 || (ahead.len() == 0 && behind.len() == 0) {
        Seq::empty()
    } else {
        let run = if ahead.len() < count {
            ahead.len() as int
        } else {
            count as int
        };
        let back: int = if behind.len() > 0 {
            1
        } else {
            0
        };
        ahead.take(run) + behind.take(back) + interleaved(ahead.skip(run), behind.skip(back), count)
    }
}

/// The pages behind `current`, in reading order.
pub open spec fn pages_ahead(current: u32, total: u32) -> Seq<u32> {
    Seq::new((total - current - 1) as nat, |i: int| (current + 1 + i) as u32)
}

/// The pages before `current`, nearest first.
pub open spec fn pages_behind(current: u32) -> Seq<u32> {
    Seq::new(current as nat, |i: int| (current - 1 - i) as u32)
}

/// The current page, brought into the book.
pub open spec fn page_in_book(current_page: u32, total_pages: u32) -> u32 {
    least(current_page as int, total_pages - 1) as u32
}

/// The pages in order of importance: those on screen, the current one, and then bursts of pages
/// ahead alternating with single pages behind; each page at its first mention.
pub open spec fn streaming_order(current_page: u32, total_pages: u32, visible: Seq<u32>) -> Seq<
    u32,
> {
    if total_pages == 0 {
        Seq::empty()
    } else {
        let current = page_in_book(current_page, total_pages);
        first_mentions(
            pages_below(visible, total_pages) + seq![current] + interleaved(
                pages_ahead(current, total_pages),
                pages_behind(current),
                burst((total_pages - current - 1) as nat),
            ),
        )
    }
}

/// Every element of an interleaving comes from one of its two parts, and each part is used up.
pub proof fn lemma_interleaved<T>(ahead: Seq<T>, behind: Seq<T>, count: nat)
    requires
        count > 0,
    ensures
        forall|x: T| #[trigger]
            interleaved(ahead, behind, count).contains(x) <==> ahead.contains(x)
                || behind.contains(x),
    decreases ahead.len() + behind.len(),
{
    if ahead.len() + behind.len() > 0 {
        let run = if ahead.len() < count {
            ahead.len() as int
        } else {
            count as int
        };
        let back: int = if behind.len() > 0 {
            1
        } else {
            0
        };
        lemma_interleaved(ahead.skip(run), behind.skip(back), count);
        let rest = interleaved(ahead.skip(run), behind.skip(back), count);
        let whole = interleaved(ahead, behind, count);
        assert(ahead =~= ahead.take(run) + ahead.skip(run));
        assert(behind =~= behind.take(back) + behind.skip(back));
        assert forall|x: T| #[trigger] whole.contains(x) <==> ahead.contains(x) || behind.contains(
            x,
        ) by {
            lemma_concat_contains(ahead.take(run), ahead.skip(run), x);
            lemma_concat_contains(behind.take(back), behind.skip(back), x);
            lemma_concat_contains(ahead.take(run), behind.take(back), x);
            lemma_concat_contains(ahead.take(run) + behind.take(back), rest, x);
        }
    } else {
        assert forall|x: T| #[trigger] interleaved(ahead, behind, count).contains(x)
            <==> ahead.contains(x) || behind.contains(x) by {}
    }
}

pub proof fn lemma_concat_contains<T>(a: Seq<T>, b: Seq<T>, x: T)
    ensures
        (a + b).contains(x) <==> a.contains(x) || b.contains(x),
{
    if a.contains(x) {
        let i = choose|i: int| 0 <= i < a.len() && a[i] == x;
        assert((a + b)[i] == x);
    }
    if b.contains(x) {
        let i = choose|i: int| 0 <= i < b.len() && b[i] == x;
        assert((a + b)[a.len() + i] == x);
    }
    if (a + b).contains(x) {
        let i = choose|i: int| 0 <= i < (a + b).len() && (a + b)[i] == x;
        if i < a.len() {
            assert(a[i] == x);
        } else {
            assert(b[i - a.len()] == x);
        }
    }
}

/// The pages below `total`, appended in order to what is noted already.
fn append_below(
    desired: &mut Vec<u32>,
    seen: &mut HashSet<u32>,
    pages: &Vec<u32>,
    total_pages: u32,
)
    requires
        old(seen)@ == old(desired)@.to_set(),
    ensures
        final(desired)@ == all_mentioned(old(desired)@, pages_below(pages@, total_pages)),
        final(seen)@ == final(desired)@.to_set(),
{
    let mut i: usize = 0;
    assert(pages@.take(0) =~= Seq::empty());
    while i < pages.len()
        invariant
            i <= pages@.len(),
            seen@ == desired@.to_set(),
            desired@ == all_mentioned(
                old(desired)@,
                pages_below(pages@.take(i as int), total_pages),
            ),
        decreases pages@.len() - i,
    {
        let page: u32 = pages[i];
        assert(pages@.take(i + 1).drop_last() =~= pages@.take(i as int));
        assert(pages@.take(i + 1).last() == page);
        if page < total_pages {
            let ghost before = pages_below(pages@.take(i as int), total_pages);
            assert(before.push(page).drop_last() =~= before);
            mention(desired, seen, page);
        }
        i = i + 1;
    }
    assert(pages@.take(i as int) =~= pages@);
}

/// Notes one more page of a list that is being appended.
proof fn lemma_mention_one(start: Seq<u32>, page: u32)
    ensures
        all_mentioned(start, seq![page]) == mentioned(start, page),
{
    reveal_with_fuel(all_mentioned, 2);
    assert(seq![page].drop_last() =~= Seq::<u32>::empty());
}

impl SimpleStreamingCachePolicy {
    pub fn new(current_page: u32, total_pages: u32, visible_pages: Vec<u32>) -> (policy: Self)
        ensures
            policy == (SimpleStreamingCachePolicy { current_page, total_pages, visible_pages }),
    {
        Self { current_page, total_pages, visible_pages }
    }

    pub fn desired_sequence(&self) -> (desired: Vec<u32>)
        ensures
            desired@ == streaming_order(self.current_page, self.total_pages, self.visible_pages@),
    {
        let mut desired: Vec<u32> = Vec::new();
        if self.total_pages == 0 {
            return desired;
        }
        let total: u32 = self.total_pages;
        let mut seen: HashSet<u32> = HashSet::new();
        assert(seen@ =~= desired@.to_set());
        let current: u32 = if self.current_page < total - 1 {
            self.current_page
        } else {
            total - 1
        };
        let forward_remaining: u32 = total - current - 1;
        let backward_remaining: u32 = current;
        let sixth: u32 = forward_remaining / 6;
        let forward_burst: u32 = if sixth < 1 {
            1
        } else if sixth > 12 {
            12
        } else {
            sixth
        };
        let ghost count = forward_burst as nat;
        let ghost visible = pages_below(self.visible_pages@, total);
        let ghost ahead = pages_ahead(current, total);
        let ghost behind = pages_behind(current);
        let ghost goal = streaming_order(self.current_page, total, self.visible_pages@);

        append_below(&mut desired, &mut seen, &self.visible_pages, total);
        mention(&mut desired, &mut seen, current);
        proof {
            lemma_mention_one(first_mentions(visible), current);
            lemma_all_mentioned_concat(Seq::empty(), visible, seq![current]);
            lemma_all_mentioned_concat(
                Seq::empty(),
                visible + seq![current],
                interleaved(ahead, behind, count),
            );
            assert(goal == all_mentioned(desired@, interleaved(ahead, behind, count)));
            assert(ahead.skip(0) =~= ahead);
            assert(behind.skip(0) =~= behind);
            lemma_selected_contains(self.visible_pages@, |page: u32| page < total);
            lemma_all_mentioned(Seq::empty(), visible + seq![current]);
            assert forall|p: u32| #[trigger] desired@.contains(p) implies p < total by {
                lemma_concat_contains(visible, seq![current], p);
            }
        }

        let mut forward_offset: u32 = 1;
        let mut backward_offset: u32 = 1;
        while forward_offset <= forward_remaining || backward_offset <= backward_remaining
            invariant
                1 <= forward_offset <= forward_remaining + 1,
                1 <= backward_offset <= backward_remaining + 1,
                forward_remaining == total - current - 1,
                backward_remaining == current,
                current < total,
                1 <= forward_burst <= 12,
                count == forward_burst,
                ahead == pages_ahead(current, total),
                behind == pages_behind(current),
                seen@ == desired@.to_set(),
                desired@.no_duplicates(),
                forall|p: u32| #[trigger] desired@.contains(p) ==> p < total,
                goal == all_mentioned(
                    desired@,
                    interleaved(
                        ahead.skip(forward_offset - 1),
                        behind.skip(backward_offset - 1),
                        count,
                    ),
                ),
            ensures
                desired@ == goal,
            decreases
                    (forward_remaining + 1 - forward_offset) + (backward_remaining + 1
                        - backward_offset),
        {
            let ghost ahead_left = ahead.skip(forward_offset - 1);
            let ghost behind_left = behind.skip(backward_offset - 1);
            let ghost run: int = if ahead_left.len() < count {
                ahead_left.len() as int
            } else {
                count as int
            };
            let ghost back: int = if behind_left.len() > 0 {
                1
            } else {
                0
            };
            let ghost before = desired@;
            let ghost rest = interleaved(ahead_left.skip(run), behind_left.skip(back), count);
            let start_offset: u32 = forward_offset;
            let mut taken: u32 = 0;
            assert(ahead_left.take(0) =~= Seq::empty());
            while taken < forward_burst && forward_offset <= forward_remaining
                invariant
                    taken <= forward_burst <= 12,
                    count == forward_burst,
                    forward_offset == start_offset + taken,
                    1 <= start_offset,
                    forward_offset <= forward_remaining + 1,
                    forward_remaining == total - current - 1,
                    current < total,
                    taken <= run,
                    ahead == pages_ahead(current, total),
                    ahead_left == ahead.skip(start_offset - 1),
                    run == if ahead_left.len() < count {
                        ahead_left.len() as int
                    } else {
                        count as int
                    },
                    seen@ == desired@.to_set(),
                    desired@ == all_mentioned(before, ahead_left.take(taken as int)),
                decreases forward_burst - taken,
            {
                let next: u32 = current + forward_offset;
                assert(ahead_left[taken as int] == next);
                assert(ahead_left.take(taken + 1).drop_last() =~= ahead_left.take(taken as int));
                mention(&mut desired, &mut seen, next);
                forward_offset = forward_offset + 1;
                taken = taken + 1;
            }
            assert(taken == run);
            let ghost after_ahead = desired@;
            if backward_offset <= backward_remaining {
                let prev: u32 = current - backward_offset;
                assert(behind_left[0] == prev);
                assert(behind_left.take(1) =~= seq![prev]);
                mention(&mut desired, &mut seen, prev);
                proof {
                    lemma_mention_one(after_ahead, prev);
                }
                backward_offset = backward_offset + 1;
            } else {
                assert(behind_left.take(0) =~= Seq::<u32>::empty());
            }
            proof {
                let step = ahead_left.take(run) + behind_left.take(back);
                lemma_all_mentioned_concat(before, ahead_left.take(run), behind_left.take(back));
                lemma_all_mentioned_concat(before, step, rest);
                assert(ahead_left.skip(run) =~= ahead.skip(forward_offset - 1));
                assert(behind_left.skip(back) =~= behind.skip(backward_offset - 1));
                lemma_all_mentioned(before, step);
                assert forall|p: u32| #[trigger] desired@.contains(p) implies p < total by {
                    lemma_concat_contains(ahead_left.take(run), behind_left.take(back), p);
                }
            }
            if desired.len() >= total as usize {
                proof {
                    lemma_interleaved(
                        ahead.skip(forward_offset - 1),
                        behind.skip(backward_offset - 1),
                        count,
                    );
                    let left = interleaved(
                        ahead.skip(forward_offset - 1),
                        behind.skip(backward_offset - 1),
                        count,
                    );
                    assert forall|i: int| 0 <= i < left.len() implies (#[trigger] left[i])
                        < total by {
                        assert(left.contains(left[i]));
                    }
                    lemma_full_is_final(desired@, left, total);
                }
                break;
            }
        }
        desired
    }
}

/// The streaming order lists every page of the book exactly once.
pub proof fn law_streaming_order_lists_every_page(
    current_page: u32,
    total_pages: u32,
    visible: Seq<u32>,
)
    ensures
        streaming_order(current_page, total_pages, visible).no_duplicates(),
        forall|p: u32| #[trigger]
            streaming_order(current_page, total_pages, visible).contains(p) <==> p < total_pages,
{
    if total_pages > 0 {
        let current = page_in_book(current_page, total_pages);
        let shown = pages_below(visible, total_pages);
        let ahead = pages_ahead(current, total_pages);
        let behind = pages_behind(current);
        let count = burst((total_pages - current - 1) as nat);
        let tail = interleaved(ahead, behind, count);
        lemma_selected_contains(visible, |page: u32| page < total_pages);
        lemma_interleaved(ahead, behind, count);
        lemma_all_mentioned(Seq::empty(), shown + seq![current] + tail);
        let order = streaming_order(current_page, total_pages, visible);
        assert forall|p: u32| #[trigger] order.contains(p) <==> p < total_pages by {
            lemma_concat_contains(shown + seq![current], tail, p);
            lemma_concat_contains(shown, seq![current], p);
            if p < total_pages {
                if p > current {
                    assert(ahead[p - current - 1] == p);
                } else if p < current {
                    assert(behind[current - 1 - p] == p);
                } else {
                    assert(seq![current][0] == p);
                }
            }
        }
    } else {
        assert forall|p: u32| #[trigger]
            streaming_order(current_page, total_pages, visible).contains(p) <==> p < total_pages by {
        }
    }
}

/// The pages of the unit that holds `page`, or the page itself outside the plan; pages beyond
/// the book left out.
pub open spec fn unit_pages(plan: AutoSpreadPlan, page: u32, total_pages: u32) -> Seq<u32> {
    if page < plan.page_count() {
        let unit = plan.unit_of(page as int);
        match unit.second_page {
            Some(second) => pages_below(seq![unit.first_page, second], total_pages),
            None => pages_below(seq![unit.first_page], total_pages),
        }
    } else {
        pages_below(seq![page], total_pages)
    }
}

/// The anchors of the units behind the current page's unit, in reading order.
pub open spec fn anchors_ahead(plan: AutoSpreadPlan, page: u32) -> Seq<u32> {
    if page < plan.page_count() {
        let index = plan.page_to_unit@[page as int] as int;
        Seq::new(
            (plan.units@.len() - index - 1) as nat,
            |i: int| plan.units@[index + 1 + i].first_page,
        )
    } else {
        Seq::empty()
    }
}

/// The anchors of the units before the current page's unit, nearest first.
pub open spec fn anchors_behind(plan: AutoSpreadPlan, page: u32) -> Seq<u32> {
    if page < plan.page_count() {
        let index = plan.page_to_unit@[page as int] as int;
        Seq::new(index as nat, |i: int| plan.units@[index - 1 - i].first_page)
    } else {
        Seq::empty()
    }
}

/// The pages of the units with the given anchors.
pub open spec fn pages_of_units(plan: AutoSpreadPlan, anchors: Seq<u32>, total_pages: u32) -> Seq<
    u32,
>
    decreases anchors.len(),
{
    if anchors.len() == 0 {
        Seq::empty()
    } else {
        pages_of_units(plan, anchors.drop_last(), total_pages) + unit_pages(
            plan,
            anchors.last(),
            total_pages,
        )
    }
}

/// The pages in order of importance where pages are paired by a plan: those on screen, the
/// current unit, and then bursts of units ahead alternating with single units behind; each page
/// at its first mention.
pub open spec fn auto_streaming_order(
    plan: AutoSpreadPlan,
    current_page: u32,
    total_pages: u32,
    visible: Seq<u32>,
) -> Seq<u32> {
    if total_pages == 0 {
        Seq::empty()
    } else {
        let current = page_in_book(current_page, total_pages);
        let ahead = anchors_ahead(plan, current);
        first_mentions(
            pages_below(visible, total_pages) + unit_pages(plan, current, total_pages)
                + pages_of_units(
                plan,
                interleaved(ahead, anchors_behind(plan, current), burst(ahead.len())),
                total_pages,
            ),
        )
    }
}

pub proof fn lemma_pages_of_units_concat(
    plan: AutoSpreadPlan,
    a: Seq<u32>,
    b: Seq<u32>,
    total_pages: u32,
)
    ensures
        pages_of_units(plan, a + b, total_pages) == pages_of_units(plan, a, total_pages)
            + pages_of_units(plan, b, total_pages),
    decreases b.len(),
{
    if b.len() == 0 {
        assert(a + b =~= a);
        assert(pages_of_units(plan, a, total_pages) + Seq::<u32>::empty() =~= pages_of_units(
            plan,
            a,
            total_pages,
        ));
    } else {
        lemma_pages_of_units_concat(plan, a, b.drop_last(), total_pages);
        assert((a + b).drop_last() =~= a + b.drop_last());
        let last = unit_pages(plan, b.last(), total_pages);
        assert(pages_of_units(plan, a, total_pages) + pages_of_units(
            plan,
            b.drop_last(),
            total_pages,
        ) + last =~= pages_of_units(plan, a, total_pages) + (pages_of_units(
            plan,
            b.drop_last(),
            total_pages,
        ) + last));
    }
}

proof fn lemma_unit_pages_below(plan: AutoSpreadPlan, page: u32, total_pages: u32)
    ensures
        forall|p: u32| #[trigger]
            unit_pages(plan, page, total_pages).contains(p) ==> p < total_pages,
{
    let keep = |q: u32| q < total_pages;
    if page < plan.page_count() {
        let unit = plan.unit_of(page as int);
        match unit.second_page {
            Some(second) => lemma_selected_contains(seq![unit.first_page, second], keep),
            None => lemma_selected_contains(seq![unit.first_page], keep),
        }
    } else {
        lemma_selected_contains(seq![page], keep);
    }
}

proof fn lemma_pages_of_units_below(plan: AutoSpreadPlan, anchors: Seq<u32>, total_pages: u32)
    ensures
        forall|p: u32| #[trigger]
            pages_of_units(plan, anchors, total_pages).contains(p) ==> p < total_pages,
    decreases anchors.len(),
{
    if anchors.len() > 0 {
        lemma_pages_of_units_below(plan, anchors.drop_last(), total_pages);
        lemma_unit_pages_below(plan, anchors.last(), total_pages);
        assert forall|p: u32| #[trigger]
            pages_of_units(plan, anchors, total_pages).contains(p) implies p < total_pages by {
            lemma_concat_contains(
                pages_of_units(plan, anchors.drop_last(), total_pages),
                unit_pages(plan, anchors.last(), total_pages),
                p,
            );
        }
    }
}

/// The pages below `total_pages`, appended in order to what is noted already.
pub fn append_unique_physical_pages(
    desired: &mut Vec<u32>,
    seen: &mut HashSet<u32>,
    physical_pages: &Vec<u32>,
    total_pages: u32,
)
    requires
        old(seen)@ == old(desired)@.to_set(),
    ensures
        final(desired)@ == all_mentioned(old(desired)@, pages_below(physical_pages@, total_pages)),
        final(seen)@ == final(desired)@.to_set(),
{
    append_below(desired, seen, physical_pages, total_pages);
}

/// The pages of the unit that holds `logical_page`, appended to what is noted already.
pub fn append_auto_unit_pages(
    plan: &AutoSpreadPlan,
    desired: &mut Vec<u32>,
    seen: &mut HashSet<u32>,
    logical_page: u32,
    total_pages: u32,
)
    requires
        plan.wf(),
        old(seen)@ == old(desired)@.to_set(),
    ensures
        final(desired)@ == all_mentioned(
            old(desired)@,
            unit_pages(*plan, logical_page, total_pages),
        ),
        final(seen)@ == final(desired)@.to_set(),
{
    let mut pages: Vec<u32> = Vec::new();
    match plan.pages_for_logical_page(logical_page) {
        Some((first, second)) => {
            pages.push(first);
            match second {
                Some(second) => {
                    pages.push(second);
                    assert(pages@ =~= seq![first, second]);
                },
                None => {
                    assert(pages@ =~= seq![first]);
                },
            }
        },
        None => {
            pages.push(logical_page);
            assert(pages@ =~= seq![logical_page]);
        },
    }
    append_below(desired, seen, &pages, total_pages);
}

/// The anchors of the units behind the current page's unit.
fn collect_anchors_ahead(plan: &AutoSpreadPlan, current: u32) -> (anchors: Vec<u32>)
    requires
        plan.wf(),
    ensures
        anchors@ == anchors_ahead(*plan, current),
{
    let mut anchors: Vec<u32> = Vec::new();
    match plan.unit_index_for_logical_page(current) {
        Some(index) => {
            let mut i: usize = index;
            let ghost all = anchors_ahead(*plan, current);
            while i < plan.units.len() - 1
                invariant
                    index <= i < plan.units@.len(),
                    all == anchors_ahead(*plan, current),
                    current < plan.page_count(),
                    index == plan.page_to_unit@[current as int],
                    anchors@ == all.take(i - index),
                decreases plan.units@.len() - i,
            {
                i = i + 1;
                anchors.push(plan.units[i].first_page);
                assert(anchors@ =~= all.take(i - index));
            }
            assert(anchors@ =~= all);
        },
        None => {},
    }
    anchors
}

/// The anchors of the units before the current page's unit, nearest first.
fn collect_anchors_behind(plan: &AutoSpreadPlan, current: u32) -> (anchors: Vec<u32>)
    requires
        plan.wf(),
    ensures
        anchors@ == anchors_behind(*plan, current),
{
    let mut anchors: Vec<u32> = Vec::new();
    match plan.unit_index_for_logical_page(current) {
        Some(index) => {
            let mut i: usize = index;
            let ghost all = anchors_behind(*plan, current);
            while i > 0
                invariant
                    i <= index < plan.units@.len(),
                    all == anchors_behind(*plan, current),
                    current < plan.page_count(),
                    index == plan.page_to_unit@[current as int],
                    anchors@ == all.take(index - i),
                decreases i,
            {
                i = i - 1;
                anchors.push(plan.units[i].first_page);
                assert(anchors@ =~= all.take(index - i));
            }
            assert(anchors@ =~= all);
        },
        None => {},
    }
    anchors
}

pub fn desired_auto_streaming_sequence(
    plan: &AutoSpreadPlan,
    current_physical_page: u32,
    total_pages: u32,
    visible_pages: &Vec<u32>,
) -> (desired: Vec<u32>)
    requires
        plan.wf(),
    ensures
        desired@ == auto_streaming_order(
            *plan,
            current_physical_page,
            total_pages,
            visible_pages@,
        ),
{
    let mut desired: Vec<u32> = Vec::new();
    if total_pages == 0 {
        return desired;
    }
    let mut seen: HashSet<u32> = HashSet::new();
    assert(seen@ =~= desired@.to_set());
    let current: u32 = if current_physical_page < total_pages - 1 {
        current_physical_page
    } else {
        total_pages - 1
    };
    append_unique_physical_pages(&mut desired, &mut seen, visible_pages, total_pages);
    append_auto_unit_pages(plan, &mut desired, &mut seen, current, total_pages);
    let forward_units: Vec<u32> = collect_anchors_ahead(plan, current);
    let backward_units: Vec<u32> = collect_anchors_behind(plan, current);
    let sixth: usize = forward_units.len() / 6;
    let forward_burst: usize = if sixth < 1 {
        1
    } else if sixth > 12 {
        12
    } else {
        sixth
    };
    let ghost count = forward_burst as nat;
    let ghost visible = pages_below(visible_pages@, total_pages);
    let ghost own = unit_pages(*plan, current, total_pages);
    let ghost ahead = forward_units@;
    let ghost behind = backward_units@;
    let ghost goal = auto_streaming_order(
        *plan,
        current_physical_page,
        total_pages,
        visible_pages@,
    );
    proof {
        lemma_all_mentioned_concat(Seq::empty(), visible, own);
        lemma_all_mentioned_concat(
            Seq::empty(),
            visible + own,
            pages_of_units(*plan, interleaved(ahead, behind, count), total_pages),
        );
        assert(ahead.skip(0) =~= ahead);
        assert(behind.skip(0) =~= behind);
        lemma_selected_contains(visible_pages@, |page: u32| page < total_pages);
        lemma_unit_pages_below(*plan, current, total_pages);
        lemma_all_mentioned(Seq::empty(), visible + own);
        assert forall|p: u32| #[trigger] desired@.contains(p) implies p < total_pages by {
            lemma_concat_contains(visible, own, p);
        }
    }
    let mut forward_index: usize = 0;
    let mut backward_index: usize = 0;
    while forward_index < forward_units.len() || backward_index < backward_units.len()
        invariant
            plan.wf(),
            forward_index <= forward_units@.len(),
            backward_index <= backward_units@.len(),
            1 <= forward_burst <= 12,
            count == forward_burst,
            ahead == forward_units@,
            behind == backward_units@,
            seen@ == desired@.to_set(),
            desired@.no_duplicates(),
            forall|p: u32| #[trigger] desired@.contains(p) ==> p < total_pages,
            goal == all_mentioned(
                desired@,
                pages_of_units(
                    *plan,
                    interleaved(
                        ahead.skip(forward_index as int),
                        behind.skip(backward_index as int),
                        count,
                    ),
                    total_pages,
                ),
            ),
        ensures
            desired@ == goal,
        decreases
                (forward_units@.len() - forward_index) + (backward_units@.len() - backward_index),
    {
        let ghost ahead_left = ahead.skip(forward_index as int);
        let ghost behind_left = behind.skip(backward_index as int);
        let ghost run: int = if ahead_left.len() < count {
            ahead_left.len() as int
        } else {
            count as int
        };
        let ghost back: int = if behind_left.len() > 0 {
            1
        } else {
            0
        };
        let ghost before = desired@;
        let ghost rest = interleaved(ahead_left.skip(run), behind_left.skip(back), count);
        let start_index: usize = forward_index;
        let mut taken: usize = 0;
        assert(ahead_left.take(0) =~= Seq::empty());
        while taken < forward_burst && forward_index < forward_units.len()
            invariant
                plan.wf(),
                taken <= forward_burst <= 12,
                count == forward_burst,
                forward_index == start_index + taken,
                forward_index <= forward_units@.len(),
                taken <= run,
                ahead == forward_units@,
                ahead_left == ahead.skip(start_index as int),
                run == if ahead_left.len() < count {
                    ahead_left.len() as int
                } else {
                    count as int
                },
                seen@ == desired@.to_set(),
                desired@ == all_mentioned(
                    before,
                    pages_of_units(*plan, ahead_left.take(taken as int), total_pages),
                ),
            decreases forward_burst - taken,
        {
            let unit_anchor: u32 = forward_units[forward_index];
            assert(ahead_left[taken as int] == unit_anchor);
            assert(ahead_left.take(taken + 1).drop_last() =~= ahead_left.take(taken as int));
            append_auto_unit_pages(plan, &mut desired, &mut seen, unit_anchor, total_pages);
            proof {
                lemma_all_mentioned_concat(
                    before,
                    pages_of_units(*plan, ahead_left.take(taken as int), total_pages),
                    unit_pages(*plan, unit_anchor, total_pages),
                );
            }
            forward_index = forward_index + 1;
            taken = taken + 1;
        }
        assert(taken == run);
        let ghost after_ahead = desired@;
        if backward_index < backward_units.len() {
            let unit_anchor: u32 = backward_units[backward_index];
            assert(behind_left[0] == unit_anchor);
            assert(behind_left.take(1) =~= seq![unit_anchor]);
            append_auto_unit_pages(plan, &mut desired, &mut seen, unit_anchor, total_pages);
            proof {
                reveal_with_fuel(pages_of_units, 2);
                assert(seq![unit_anchor].drop_last() =~= Seq::<u32>::empty());
                assert(pages_of_units(*plan, seq![unit_anchor], total_pages) =~= unit_pages(
                    *plan,
                    unit_anchor,
                    total_pages,
                ));
            }
            backward_index = backward_index + 1;
        } else {
            assert(behind_left.take(0) =~= Seq::<u32>::empty());
        }
        proof {
            let step = ahead_left.take(run) + behind_left.take(back);
            let step_pages = pages_of_units(*plan, step, total_pages);
            lemma_pages_of_units_concat(
                *plan,
                ahead_left.take(run),
                behind_left.take(back),
                total_pages,
            );
            lemma_pages_of_units_concat(*plan, step, rest, total_pages);
            lemma_all_mentioned_concat(
                before,
                pages_of_units(*plan, ahead_left.take(run), total_pages),
                pages_of_units(*plan, behind_left.take(back), total_pages),
            );
            lemma_all_mentioned_concat(
                before,
                step_pages,
                pages_of_units(*plan, rest, total_pages),
            );
            assert(ahead_left.skip(run) =~= ahead.skip(forward_index as int));
            assert(behind_left.skip(back) =~= behind.skip(backward_index as int));
            lemma_all_mentioned(before, step_pages);
            lemma_pages_of_units_below(*plan, step, total_pages);
        }
        if desired.len() >= total_pages as usize {
            proof {
                let left = interleaved(
                    ahead.skip(forward_index as int),
                    behind.skip(backward_index as int),
                    count,
                );
                let left_pages = pages_of_units(*plan, left, total_pages);
                lemma_pages_of_units_below(*plan, left, total_pages);
                assert forall|i: int| 0 <= i < left_pages.len() implies (#[trigger] left_pages[i])
                    < total_pages by {
                    assert(left_pages.contains(left_pages[i]));
                }
                lemma_full_is_final(desired@, left_pages, total_pages);
            }
            break;
        }
    }
    desired
}

/// Where the plan covers the book, the order by units lists every page exactly once.
pub proof fn law_auto_streaming_order_lists_every_page(
    plan: AutoSpreadPlan,
    current_page: u32,
    total_pages: u32,
    visible: Seq<u32>,
)
    requires
        plan.wf(),
        plan.page_count() == total_pages,
    ensures
        auto_streaming_order(plan, current_page, total_pages, visible).no_duplicates(),
        forall|p: u32| #[trigger]
            auto_streaming_order(plan, current_page, total_pages, visible).contains(p) <==> p
                < total_pages,
{
    let order = auto_streaming_order(plan, current_page, total_pages, visible);
    if total_pages > 0 {
        let current = page_in_book(current_page, total_pages);
        let shown = pages_below(visible, total_pages);
        let own = unit_pages(plan, current, total_pages);
        let ahead = anchors_ahead(plan, current);
        let behind = anchors_behind(plan, current);
        let anchors = interleaved(ahead, behind, burst(ahead.len()));
        let tail = pages_of_units(plan, anchors, total_pages);
        lemma_selected_contains(visible, |page: u32| page < total_pages);
        lemma_unit_pages_below(plan, current, total_pages);
        lemma_pages_of_units_below(plan, anchors, total_pages);
        lemma_interleaved(ahead, behind, burst(ahead.len()));
        lemma_all_mentioned(Seq::empty(), shown + own + tail);
        assert forall|p: u32| #[trigger] order.contains(p) <==> p < total_pages by {
            lemma_concat_contains(shown + own, tail, p);
            lemma_concat_contains(shown, own, p);
            if p < total_pages {
                let index = plan.page_to_unit@[current as int] as int;
                let k = plan.page_to_unit@[p as int] as int;
                let unit = plan.units@[k];
                assert(unit.covers(p as int));
                assert(plan.units@[index].covers(current as int));
                assert(unit.end() <= plan.page_count());
                assert(unit.covers(unit.first_page as int));
                assert(plan.unit_of(unit.first_page as int) == unit);
                lemma_unit_pages_hold(plan, unit.first_page, p, total_pages);
                if k == index {
                    lemma_unit_pages_hold(plan, current, p, total_pages);
                } else {
                    if k > index {
                        assert(ahead[k - index - 1] == unit.first_page);
                    } else {
                        assert(behind[index - 1 - k] == unit.first_page);
                    }
                    assert(anchors.contains(unit.first_page));
                    lemma_pages_of_units_hold(plan, anchors, unit.first_page, p, total_pages);
                }
            }
        }
    } else {
        assert forall|p: u32| #[trigger] order.contains(p) <==> p < total_pages by {}
    }
}

pub proof fn lemma_unit_pages_hold(plan: AutoSpreadPlan, page: u32, p: u32, total_pages: u32)
    requires
        plan.wf(),
        page < plan.page_count(),
        plan.unit_of(page as int).covers(p as int),
        p < total_pages,
    ensures
        unit_pages(plan, page, total_pages).contains(p),
{
    let keep = |q: u32| q < total_pages;
    let unit = plan.unit_of(page as int);
    assert(unit.wf());
    match unit.second_page {
        Some(second) => {
            lemma_selected_contains(seq![unit.first_page, second], keep);
            let both = seq![unit.first_page, second];
            assert(both[0] == p || both[1] == p);
        },
        None => {
            lemma_selected_contains(seq![unit.first_page], keep);
            assert(seq![unit.first_page][0] == p);
        },
    }
}

pub proof fn lemma_pages_of_units_hold(
    plan: AutoSpreadPlan,
    anchors: Seq<u32>,
    anchor: u32,
    p: u32,
    total_pages: u32,
)
    requires
        anchors.contains(anchor),
        unit_pages(plan, anchor, total_pages).contains(p),
    ensures
        pages_of_units(plan, anchors, total_pages).contains(p),
    decreases anchors.len(),
{
    let front = anchors.drop_last();
    lemma_concat_contains(
        pages_of_units(plan, front, total_pages),
        unit_pages(plan, anchors.last(), total_pages),
        p,
    );
    if anchors.last() != anchor {
        let i = choose|i: int| 0 <= i < anchors.len() && anchors[i] == anchor;
        assert(front[i] == anchor);
        lemma_pages_of_units_hold(plan, front, anchor, p, total_pages);
    }
}

/// Whether the plan shows every page of the book by itself.
pub open spec fn shows_single_pages(plan: AutoSpreadPlan) -> bool {
    forall|p: int|
        0 <= p < plan.page_count() ==> (#[trigger] plan.unit_of(p)).first_page == p && plan.unit_of(
            p,
        ).second_page is None
}

proof fn lemma_single_unit(plan: AutoSpreadPlan, u: int)
    requires
        plan.wf(),
        shows_single_pages(plan),
        0 <= u < plan.units@.len(),
    ensures
        plan.units@[u].first_page == u,
        plan.units@[u].second_page is None,
    decreases u,
{
    let unit = plan.units@[u];
    assert(unit.wf());
    assert(unit.covers(unit.first_page as int));
    assert(plan.unit_of(unit.first_page as int) == unit);
    if u > 0 {
        lemma_single_unit(plan, u - 1);
        assert(plan.units@[u].first_page == plan.units@[u - 1].end());
    }
}

proof fn lemma_single_unit_pages(plan: AutoSpreadPlan, page: u32)
    requires
        shows_single_pages(plan),
        plan.page_count() <= u32::MAX,
        page < plan.page_count(),
    ensures
        unit_pages(plan, page, plan.page_count() as u32) == seq![page],
{
    let total = plan.page_count() as u32;
    assert(plan.unit_of(page as int).first_page == page);
    reveal_with_fuel(selected, 2);
    assert(seq![page].drop_last() =~= Seq::<u32>::empty());
    assert(pages_below(seq![page], total) =~= seq![page]);
}

proof fn lemma_single_units_pages(plan: AutoSpreadPlan, anchors: Seq<u32>)
    requires
        shows_single_pages(plan),
        plan.page_count() <= u32::MAX,
        forall|i: int| 0 <= i < anchors.len() ==> (#[trigger] anchors[i]) < plan.page_count(),
    ensures
        pages_of_units(plan, anchors, plan.page_count() as u32) == anchors,
    decreases anchors.len(),
{
    if anchors.len() > 0 {
        let front = anchors.drop_last();
        assert forall|i: int| 0 <= i < front.len() implies (#[trigger] front[i])
            < plan.page_count() by {
            assert(front[i] == anchors[i]);
        }
        lemma_single_units_pages(plan, front);
        assert(anchors[anchors.len() - 1] < plan.page_count());
        lemma_single_unit_pages(plan, anchors.last());
        assert(front + seq![anchors.last()] =~= anchors);
    } else {
        assert(anchors =~= Seq::empty());
    }
}

/// Where a plan shows every page by itself, the order by units is the order by pages.
pub proof fn law_single_pages_stream_in_the_plain_order(
    plan: AutoSpreadPlan,
    current_page: u32,
    total_pages: u32,
    visible: Seq<u32>,
)
    requires
        plan.wf(),
        plan.page_count() == total_pages,
        shows_single_pages(plan),
    ensures
        auto_streaming_order(plan, current_page, total_pages, visible) == streaming_order(
            current_page,
            total_pages,
            visible,
        ),
{
    if total_pages > 0 {
        let current = page_in_book(current_page, total_pages);
        let index = plan.page_to_unit@[current as int] as int;
        assert(plan.units@[index].covers(current as int));
        lemma_single_unit(plan, index);
        assert(index == current);
        lemma_single_unit(plan, plan.units@.len() - 1);
        assert(plan.units@.len() == total_pages);
        let ahead = anchors_ahead(plan, current);
        let behind = anchors_behind(plan, current);
        assert forall|i: int| 0 <= i < ahead.len() implies ahead[i] == pages_ahead(
            current,
            total_pages,
        )[i] by {
            lemma_single_unit(plan, index + 1 + i);
        }
        assert(ahead =~= pages_ahead(current, total_pages));
        assert forall|i: int| 0 <= i < behind.len() implies behind[i] == pages_behind(
            current,
        )[i] by {
            lemma_single_unit(plan, index - 1 - i);
        }
        assert(behind =~= pages_behind(current));
        lemma_single_unit_pages(plan, current);
        let anchors = interleaved(ahead, behind, burst(ahead.len()));
        lemma_interleaved(ahead, behind, burst(ahead.len()));
        assert forall|i: int| 0 <= i < anchors.len() implies (#[trigger] anchors[i])
            < plan.page_count() by {
            assert(anchors.contains(anchors[i]));
            if ahead.contains(anchors[i]) {
                let k = choose|k: int| 0 <= k < ahead.len() && ahead[k] == anchors[i];
                assert(ahead[k] == pages_ahead(current, total_pages)[k]);
            } else {
                let k = choose|k: int| 0 <= k < behind.len() && behind[k] == anchors[i];
                assert(behind[k] == pages_behind(current)[k]);
            }
        }
        lemma_single_units_pages(plan, anchors);
    }
}

/// The rank of each page of a sequence: its position, the last one where a page is repeated.
pub open spec fn ranks(sequence: Seq<u32>) -> Map<u32, usize>
    decreases sequence.len(),
{
    if sequence.len() == 0 {
        Map::empty()
    } else {
        ranks(sequence.drop_last()).insert(sequence.last(), (sequence.len() - 1) as usize)
    }
}

/// The rank of a page, or `lowest` for a page without one.
pub open spec fn rank_or(ranks: Map<u32, usize>, page: u32, lowest: usize) -> usize {
    if ranks.dom().contains(page) {
        ranks[page]
    } else {
        lowest
    }
}

/// A wanted sequence, as sets and ranks, next to the cached pages.
pub struct StreamingDesiredRankState {
    pub cache_pages: HashSet<u32>,
    pub desired_pages: HashSet<u32>,
    pub desired_ranks: HashMap<u32, usize>,
    pub lowest_priority_rank: usize,
}

/// The pages of a list, as a set.
pub fn set_of(pages: &[u32]) -> (set: HashSet<u32>)
    ensures
        set@ == pages@.to_set(),
{
    broadcast use vstd::std_specs::hash::group_hash_axioms;

    let mut set: HashSet<u32> = HashSet::new();
    let mut i: usize = 0;
    assert(set@ =~= pages@.take(0).to_set());
    while i < pages.len()
        invariant
            i <= pages@.len(),
            set@ == pages@.take(i as int).to_set(),
        decreases pages@.len() - i,
    {
        let page: u32 = pages[i];
        set.insert(page);
        proof {
            super::page_sequences::lemma_push_to_set(pages@.take(i as int), page);
            assert(pages@.take(i as int).push(page) =~= pages@.take(i + 1));
        }
        i = i + 1;
    }
    assert(pages@.take(i as int) =~= pages@);
    set
}

pub fn build_streaming_desired_rank_state(desired_sequence: &[u32], bg_cache_pages: &[u32]) -> (
state: StreamingDesiredRankState)
    ensures
        state.cache_pages@ == bg_cache_pages@.to_set(),
        state.desired_pages@ == desired_sequence@.to_set(),
        state.desired_ranks@ == ranks(desired_sequence@),
        state.lowest_priority_rank == desired_sequence@.len(),
{
    broadcast use vstd::std_specs::hash::group_hash_axioms;

    let mut desired_ranks: HashMap<u32, usize> = HashMap::new();
    let mut i: usize = 0;
    assert(desired_sequence@.take(0) =~= Seq::empty());
    assert(desired_ranks@ =~= Map::empty());
    while i < desired_sequence.len()
        invariant
            i <= desired_sequence@.len(),
            desired_ranks@ == ranks(desired_sequence@.take(i as int)),
        decreases desired_sequence@.len() - i,
    {
        assert(desired_sequence@.take(i + 1).drop_last() =~= desired_sequence@.take(i as int));
        desired_ranks.insert(desired_sequence[i], i);
        i = i + 1;
    }
    assert(desired_sequence@.take(i as int) =~= desired_sequence@);
    StreamingDesiredRankState {
        cache_pages: set_of(bg_cache_pages),
        desired_pages: set_of(desired_sequence),
        desired_ranks,
        lowest_priority_rank: desired_sequence.len(),
    }
}

pub fn rank_of_page(desired_ranks: &HashMap<u32, usize>, page: u32, lowest: usize) -> (rank: usize)
    ensures
        rank == rank_or(desired_ranks@, page, lowest),
{
    broadcast use vstd::std_specs::hash::group_hash_axioms;

    match desired_ranks.get(&page) {
        Some(rank) => *rank,
        None => lowest,
    }
}

/// What decides which cached pages may go.
pub struct StreamingEvictContext<'a> {
    pub bg_cache_pages: &'a [u32],
    pub desired_pages: &'a HashSet<u32>,
    pub desired_ranks: &'a HashMap<u32, usize>,
    pub lowest_priority_rank: usize,
    pub visible_pages: &'a HashSet<u32>,
    pub protected_pages: &'a HashSet<u32>,
    pub desired_sequence: &'a [u32],
    /// Only pages that rank behind this one may go.
    pub min_rank_exclusive: Option<usize>,
}

/// Whether a page may go: neither on screen nor protected, and behind the rank that is to be
/// kept.
pub open spec fn may_go(
    page_ranks: Map<u32, usize>,
    lowest: usize,
    visible: Set<u32>,
    protected: Set<u32>,
    min_rank_exclusive: Option<usize>,
    page: u32,
) -> bool {
    &&& !visible.contains(page)
    &&& !protected.contains(page)
    &&& match min_rank_exclusive {
        Some(rank) => rank_or(page_ranks, page, lowest) > rank,
        None => true,
    }
}

/// The pages that may go, the least wanted first: cached pages that nobody wants, in the
/// cache's order, and then the wanted pages from the last one back.
pub open spec fn evict_order(
    cached: Seq<u32>,
    desired: Seq<u32>,
    desired_set: Set<u32>,
    page_ranks: Map<u32, usize>,
    lowest: usize,
    visible: Set<u32>,
    protected: Set<u32>,
    min_rank_exclusive: Option<usize>,
) -> Seq<u32> {
    first_mentions(
        selected(
            cached,
            |page: u32|
                may_go(page_ranks, lowest, visible, protected, min_rank_exclusive, page)
                    && !desired_set.contains(page),
        ) + selected(
            desired.reverse(),
            |page: u32| may_go(page_ranks, lowest, visible, protected, min_rank_exclusive, page),
        ),
    )
}

impl<'a> StreamingEvictContext<'a> {
    pub open spec fn may_go(self, page: u32) -> bool {
        may_go(
            self.desired_ranks@,
            self.lowest_priority_rank,
            self.visible_pages@,
            self.protected_pages@,
            self.min_rank_exclusive,
            page,
        )
    }

    pub open spec fn candidates(self) -> Seq<u32> {
        evict_order(
            self.bg_cache_pages@,
            self.desired_sequence@,
            self.desired_pages@,
            self.desired_ranks@,
            self.lowest_priority_rank,
            self.visible_pages@,
            self.protected_pages@,
            self.min_rank_exclusive,
        )
    }

    fn page_may_go(&self, page: u32) -> (may_go: bool)
        ensures
            may_go == self.may_go(page),
    {
        broadcast use vstd::std_specs::hash::group_hash_axioms;

        if self.visible_pages.contains(&page) || self.protected_pages.contains(&page) {
            return false;
        }
        match self.min_rank_exclusive {
            Some(rank) => rank_of_page(self.desired_ranks, page, self.lowest_priority_rank) > rank,
            None => true,
        }
    }
}

pub fn build_streaming_evict_candidates(context: StreamingEvictContext<'_>) -> (candidates: Vec<
    u32,
>)
    ensures
        candidates@ == context.candidates(),
{
    broadcast use vstd::std_specs::hash::group_hash_axioms;

    let mut candidates: Vec<u32> = Vec::new();
    let mut seen: HashSet<u32> = HashSet::new();
    assert(seen@ =~= candidates@.to_set());
    let ghost page_ranks = context.desired_ranks@;
    let ghost lowest = context.lowest_priority_rank;
    let ghost visible = context.visible_pages@;
    let ghost protected = context.protected_pages@;
    let ghost min_rank_exclusive = context.min_rank_exclusive;
    let ghost desired_set = context.desired_pages@;
    let ghost unwanted = |page: u32|
        may_go(page_ranks, lowest, visible, protected, min_rank_exclusive, page)
            && !desired_set.contains(page);
    let ghost wanted = |page: u32|
        may_go(page_ranks, lowest, visible, protected, min_rank_exclusive, page);
    let mut i: usize = 0;
    assert(context.bg_cache_pages@.take(0) =~= Seq::empty());
    while i < context.bg_cache_pages.len()
        invariant
            i <= context.bg_cache_pages@.len(),
            forall|page: u32| #[trigger]
                unwanted(page) == (context.may_go(page) && !context.desired_pages@.contains(page)),
            seen@ == candidates@.to_set(),
            candidates@ == first_mentions(
                selected(context.bg_cache_pages@.take(i as int), unwanted),
            ),
        decreases context.bg_cache_pages@.len() - i,
    {
        let page: u32 = context.bg_cache_pages[i];
        let ghost before = context.bg_cache_pages@.take(i as int);
        assert(context.bg_cache_pages@.take(i + 1).drop_last() =~= before);
        assert(context.bg_cache_pages@.take(i + 1).last() == page);
        if context.page_may_go(page) && !context.desired_pages.contains(&page) {
            assert(selected(before, unwanted).push(page).drop_last() =~= selected(
                before,
                unwanted,
            ));
            mention(&mut candidates, &mut seen, page);
        }
        i = i + 1;
    }
    assert(context.bg_cache_pages@.take(i as int) =~= context.bg_cache_pages@);
    let ghost first_part = selected(context.bg_cache_pages@, unwanted);
    let ghost reversed = context.desired_sequence@.reverse();
    let mut k: usize = context.desired_sequence.len();
    let total: usize = context.desired_sequence.len();
    assert(reversed.take(0) =~= Seq::empty());
    assert(first_part + Seq::<u32>::empty() =~= first_part);
    while k > 0
        invariant
            k <= total == context.desired_sequence@.len(),
            reversed == context.desired_sequence@.reverse(),
            forall|page: u32| #[trigger] wanted(page) == context.may_go(page),
            seen@ == candidates@.to_set(),
            candidates@ == first_mentions(
                first_part + selected(reversed.take(total - k), wanted),
            ),
        decreases k,
    {
        k = k - 1;
        let page: u32 = context.desired_sequence[k];
        let ghost before = reversed.take(total - k - 1);
        assert(reversed.take(total - k).drop_last() =~= before);
        assert(reversed.take(total - k).last() == page);
        if context.page_may_go(page) {
            let ghost so_far = selected(before, wanted);
            assert((first_part + so_far.push(page)).drop_last() =~= first_part + so_far);
            mention(&mut candidates, &mut seen, page);
        }
    }
    assert(reversed.take(total as int) =~= reversed);
    candidates
}

/// The worst rank among the cached pages that are neither on screen nor protected.
pub open spec fn worst_rank(
    cache_pages: Seq<u32>,
    ranks: Map<u32, usize>,
    visible: Set<u32>,
    protected: Set<u32>,
    lowest: usize,
) -> Option<usize>
    decreases cache_pages.len(),
{
    if cache_pages.len() == 0 {
        None
    } else {
        let before = worst_rank(cache_pages.drop_last(), ranks, visible, protected, lowest);
        let page = cache_pages.last();
        if visible.contains(page) || protected.contains(page) {
            before
        } else {
            match before {
                Some(rank) => Some(
                    greatest(rank as int, rank_or(ranks, page, lowest) as int) as usize,
                ),
                None => Some(rank_or(ranks, page, lowest)),
            }
        }
    }
}

pub fn worst_evictable_rank(
    bg_cache_pages: &[u32],
    desired_ranks: &HashMap<u32, usize>,
    visible_pages: &HashSet<u32>,
    protected_pages: &HashSet<u32>,
    lowest_priority_rank: usize,
) -> (rank: Option<usize>)
    ensures
        rank == worst_rank(
            bg_cache_pages@,
            desired_ranks@,
            visible_pages@,
            protected_pages@,
            lowest_priority_rank,
        ),
{
    broadcast use vstd::std_specs::hash::group_hash_axioms;

    let mut worst: Option<usize> = None;
    let mut i: usize = 0;
    assert(bg_cache_pages@.take(0) =~= Seq::empty());
    while i < bg_cache_pages.len()
        invariant
            i <= bg_cache_pages@.len(),
            worst == worst_rank(
                bg_cache_pages@.take(i as int),
                desired_ranks@,
                visible_pages@,
                protected_pages@,
                lowest_priority_rank,
            ),
        decreases bg_cache_pages@.len() - i,
    {
        let page: u32 = bg_cache_pages[i];
        assert(bg_cache_pages@.take(i + 1).drop_last() =~= bg_cache_pages@.take(i as int));
        assert(bg_cache_pages@.take(i + 1).last() == page);
        if !visible_pages.contains(&page) && !protected_pages.contains(&page) {
            let rank: usize = rank_of_page(desired_ranks, page, lowest_priority_rank);
            worst = match worst {
                Some(before) => Some(max_usize(before, rank)),
                None => Some(rank),
            };
        }
        i = i + 1;
    }
    assert(bg_cache_pages@.take(i as int) =~= bg_cache_pages@);
    worst
}

/// Why a plan dispatches what it does.
#[derive(Clone, Copy, Debug, PartialEq, Eq, Structural)]
pub enum StreamingCacheStopReason {
    NoWorkerCapacity,
    CacheLimitUnavailable,
    CacheNotFullDispatch,
    PriorityImprovementDispatch,
    CacheFullNoPriorityImprovement,
    NoDispatchablePages,
}

/// What to decode next, and which pages may go for it.
pub struct StreamingCachePlan {
    pub dispatch_pages: Vec<u32>,
    pub evict_candidates: Vec<u32>,
    pub stop_reason: Option<StreamingCacheStopReason>,
}

/// A plan, as values.
pub struct StreamingPlan {
    pub dispatch: Seq<u32>,
    pub evict: Seq<u32>,
    pub stop_reason: StreamingCacheStopReason,
}

impl View for StreamingCachePlan {
    type V = StreamingPlan;

    open spec fn view(&self) -> StreamingPlan {
        StreamingPlan {
            dispatch: self.dispatch_pages@,
            evict: self.evict_candidates@,
            stop_reason: self.stop_reason->0,
        }
    }
}

/// Why a finished decode is not let in. It may be let in later, when the order has changed.
#[derive(Clone, Copy, Debug, PartialEq, Eq, Structural)]
pub enum StreamingCompletionDropReason {
    TooLargeForBgRgba,
    NotInDesiredSequence,
    NoPriorityImprovement,
    InsufficientLowPriorityCapacity,
}

pub struct StreamingCompletionAdmissionPlan {
    pub admitted: bool,
    pub drop_reason: Option<StreamingCompletionDropReason>,
    pub evict_candidates: Vec<u32>,
    pub completed_rank: Option<usize>,
    pub worst_evictable_rank: Option<usize>,
}

/// A finished decode and the state of the cache that it would enter.
pub struct StreamingCompletionAdmissionInput<'a> {
    pub desired_sequence: &'a [u32],
    pub cache_pages: &'a [u32],
    pub page_eviction_bytes: &'a HashMap<u32, usize>,
    pub cache_current_bytes: usize,
    pub cache_max_bytes: usize,
    pub completed_page: u32,
    pub completed_entry_bytes: usize,
    pub visible_pages: &'a HashSet<u32>,
    pub protected_pages: &'a HashSet<u32>,
}

/// The pages that may be dispatched: not cached, not in flight, not too large, not on screen and
/// not protected.
pub open spec fn dispatchable(
    page: u32,
    cached: Set<u32>,
    inflight: Set<u32>,
    too_large: Set<u32>,
    visible: Set<u32>,
    protected: Set<u32>,
) -> bool {
    &&& !cached.contains(page)
    &&& !inflight.contains(page)
    &&& !too_large.contains(page)
    &&& !visible.contains(page)
    &&& !protected.contains(page)
}

/// The pages to dispatch: the dispatchable ones in order, up to the limit; with a full cache
/// only the leading ones that rank before the worst page that could go.
pub open spec fn dispatch_order(
    desired: Seq<u32>,
    cached: Seq<u32>,
    full: bool,
    limit: nat,
    inflight: Set<u32>,
    too_large: Set<u32>,
    visible: Set<u32>,
    protected: Set<u32>,
) -> Seq<u32> {
    let open_pages = selected(
        desired,
        |page: u32| dispatchable(page, cached.to_set(), inflight, too_large, visible, protected),
    );
    if !full {
        at_most(open_pages, limit)
    } else {
        match worst_rank(cached, ranks(desired), visible, protected, desired.len() as usize) {
            Some(worst) => at_most(
                leading(
                    open_pages,
                    |page: u32| rank_or(ranks(desired), page, desired.len() as usize) < worst,
                ),
                limit,
            ),
            None => Seq::empty(),
        }
    }
}

/// The plan for a wanted order, a cache and the workers. Without a free worker or a cache limit
/// nothing is planned.
pub open spec fn streaming_plan(
    desired: Seq<u32>,
    cached: Seq<u32>,
    cache_current_bytes: usize,
    cache_max_bytes: usize,
    cache_saturated: bool,
    limit: nat,
    inflight: Set<u32>,
    too_large: Set<u32>,
    visible: Set<u32>,
    protected: Set<u32>,
    worker_capacity: usize,
) -> StreamingPlan {
    let full = cache_saturated || cache_current_bytes >= cache_max_bytes;
    let dispatch = dispatch_order(
        desired,
        cached,
        full,
        limit,
        inflight,
        too_large,
        visible,
        protected,
    );
    if worker_capacity == 0 {
        StreamingPlan {
            dispatch: Seq::empty(),
            evict: Seq::empty(),
            stop_reason: StreamingCacheStopReason::NoWorkerCapacity,
        }
    } else if cache_max_bytes == 0 {
        StreamingPlan {
            dispatch: Seq::empty(),
            evict: Seq::empty(),
            stop_reason: StreamingCacheStopReason::CacheLimitUnavailable,
        }
    } else {
        StreamingPlan {
            dispatch,
            evict: evict_order(
                cached,
                desired,
                desired.to_set(),
                ranks(desired),
                desired.len() as usize,
                visible,
                protected,
                None,
            ),
            stop_reason: if !full && dispatch.len() == 0 {
                StreamingCacheStopReason::NoDispatchablePages
            } else if !full {
                StreamingCacheStopReason::CacheNotFullDispatch
            } else if dispatch.len() == 0 {
                StreamingCacheStopReason::CacheFullNoPriorityImprovement
            } else {
                StreamingCacheStopReason::PriorityImprovementDispatch
            },
        }
    }
}

/// Decides what to decode next and what may be let in.
pub struct StreamingCachePlanner;

/// The pages that `keep` describes, in order, up to the limit and, with a worst rank given, up
/// to the first page that does not rank before it.
fn choose_dispatch_pages(
    desired_sequence: &Vec<u32>,
    state: &StreamingDesiredRankState,
    worst: Option<usize>,
    candidate_limit: usize,
    inflight_pages: &HashSet<u32>,
    too_large_pages: &HashSet<u32>,
    visible_pages: &HashSet<u32>,
    protected_pages: &HashSet<u32>,
) -> (pages: Vec<u32>)
    requires
        state.desired_ranks@ == ranks(desired_sequence@),
        state.lowest_priority_rank == desired_sequence@.len(),
    ensures
        ({
            let cached = state.cache_pages@;
            let inflight = inflight_pages@;
            let too_large = too_large_pages@;
            let visible = visible_pages@;
            let protected = protected_pages@;
            let desired = desired_sequence@;
            let open_pages = selected(
                desired,
                |page: u32| dispatchable(page, cached, inflight, too_large, visible, protected),
            );
            pages@ == match worst {
                Some(worst) => at_most(
                    leading(
                        open_pages,
                        |page: u32| rank_or(ranks(desired), page, desired.len() as usize) < worst,
                    ),
                    candidate_limit as nat,
                ),
                None => at_most(open_pages, candidate_limit as nat),
            }
        }),
{
    broadcast use vstd::std_specs::hash::group_hash_axioms;

    let ghost cached = state.cache_pages@;
    let ghost inflight = inflight_pages@;
    let ghost too_large = too_large_pages@;
    let ghost visible = visible_pages@;
    let ghost protected = protected_pages@;
    let ghost desired = desired_sequence@;
    let ghost keep = |page: u32|
        dispatchable(page, cached, inflight, too_large, visible, protected);
    let ghost bound: usize = match worst {
        Some(rank) => rank,
        None => 0,
    };
    let ghost better = |page: u32| rank_or(ranks(desired), page, desired.len() as usize) < bound;
    let ghost open_pages = selected(desired, keep);
    let mut pages: Vec<u32> = Vec::new();
    let mut i: usize = 0;
    assert(desired.take(0) =~= Seq::empty());
    while i < desired_sequence.len()
        invariant
            i <= desired_sequence@.len(),
            desired == desired_sequence@,
            open_pages == selected(desired, keep),
            forall|page: u32| #[trigger]
                keep(page) == dispatchable(
                    page,
                    state.cache_pages@,
                    inflight_pages@,
                    too_large_pages@,
                    visible_pages@,
                    protected_pages@,
                ),
            forall|page: u32| #[trigger]
                better(page) == (rank_or(ranks(desired), page, desired.len() as usize) < bound),
            worst matches Some(rank) ==> bound == rank,
            state.desired_ranks@ == ranks(desired),
            state.lowest_priority_rank == desired.len(),
            pages@ == selected(desired.take(i as int), keep),
            pages@.len() <= candidate_limit,
            worst is Some ==> forall|k: int| 0 <= k < pages@.len() ==> better(#[trigger] pages@[k]),
            i == desired.len() ==> pages@ == open_pages,
            i == desired.len() && worst is Some ==> leading(open_pages, better) == open_pages,
        ensures
            pages@ == if worst is Some {
                at_most(leading(open_pages, better), candidate_limit as nat)
            } else {
                at_most(open_pages, candidate_limit as nat)
            },
        decreases desired_sequence@.len() - i,
    {
        proof {
            assert(desired =~= desired.take(i as int) + desired.skip(i as int));
            lemma_selected_concat(desired.take(i as int), desired.skip(i as int), keep);
        }
        let ghost rest = selected(desired.skip(i as int), keep);
        if pages.len() >= candidate_limit {
            proof {
                if worst is Some {
                    lemma_leading_concat(pages@, rest, better);
                    assert((pages@ + leading(rest, better)).take(candidate_limit as int)
                        =~= pages@);
                }
                assert((pages@ + rest).take(candidate_limit as int) =~= pages@);
                if leading(rest, better).len() == 0 {
                    assert(pages@ + leading(rest, better) =~= pages@);
                }
                if rest.len() == 0 {
                    assert(pages@ + rest =~= pages@);
                }
            }
            break;
        }
        let page: u32 = desired_sequence[i];
        assert(desired.take(i + 1).drop_last() =~= desired.take(i as int));
        assert(desired.take(i + 1).last() == page);
        if !state.cache_pages.contains(&page) && !inflight_pages.contains(&page)
            && !too_large_pages.contains(&page) && !visible_pages.contains(&page)
            && !protected_pages.contains(&page) {
            match worst {
                Some(worst_rank) => {
                    if rank_of_page(&state.desired_ranks, page, state.lowest_priority_rank)
                        >= worst_rank {
                        proof {
                            let tail = desired.skip(i as int);
                            assert(tail =~= seq![page] + tail.drop_first());
                            lemma_selected_concat(seq![page], tail.drop_first(), keep);
                            reveal_with_fuel(selected, 2);
                            assert(seq![page].drop_last() =~= Seq::<u32>::empty());
                            assert(selected(seq![page], keep) =~= seq![page]);
                            assert(rest[0] == page);
                            assert(!better(page));
                            assert(leading(rest, better) =~= Seq::<u32>::empty());
                            lemma_leading_concat(pages@, rest, better);
                            assert(pages@ + leading(rest, better) =~= pages@);
                        }
                        break;
                    }
                },
                None => {},
            }
            let ghost before = pages@;
            pages.push(page);
        }
        i = i + 1;
        proof {
            if i == desired.len() {
                assert(desired.take(i as int) =~= desired);
                if worst is Some {
                    lemma_leading_concat(pages@, Seq::empty(), better);
                    assert(pages@ + Seq::<u32>::empty() =~= pages@);
                }
            }
        }
    }
    pages
}

impl StreamingCachePlanner {
    /// Plans the next dispatches. Without a free worker or a cache limit there are none; with
    /// room in the cache they are the first pages that are missing; with a full cache only pages
    /// that rank before something that could go.
    pub fn plan(
        desired_sequence: &Vec<u32>,
        bg_cache_pages: &[u32],
        cache_current_bytes: usize,
        cache_max_bytes: usize,
        cache_saturated: bool,
        candidate_limit: usize,
        inflight_pages: &HashSet<u32>,
        too_large_pages: &HashSet<u32>,
        visible_pages: &HashSet<u32>,
        protected_pages: &HashSet<u32>,
        worker_capacity: usize,
    ) -> (plan: StreamingCachePlan)
        ensures
            plan@ == streaming_plan(
                desired_sequence@,
                bg_cache_pages@,
                cache_current_bytes,
                cache_max_bytes,
                cache_saturated,
                candidate_limit as nat,
                inflight_pages@,
                too_large_pages@,
                visible_pages@,
                protected_pages@,
                worker_capacity,
            ),
            plan.stop_reason is Some,
    {
        if worker_capacity == 0 {
            return StreamingCachePlan {
                dispatch_pages: Vec::new(),
                evict_candidates: Vec::new(),
                stop_reason: Some(StreamingCacheStopReason::NoWorkerCapacity),
            };
        }
        if cache_max_bytes == 0 {
            return StreamingCachePlan {
                dispatch_pages: Vec::new(),
                evict_candidates: Vec::new(),
                stop_reason: Some(StreamingCacheStopReason::CacheLimitUnavailable),
            };
        }
        let state: StreamingDesiredRankState = build_streaming_desired_rank_state(
            desired_sequence.as_slice(),
            bg_cache_pages,
        );
        let cache_is_full: bool = cache_saturated || cache_current_bytes >= cache_max_bytes;
        let evict_candidates: Vec<u32> = build_streaming_evict_candidates(
            StreamingEvictContext {
                bg_cache_pages,
                desired_pages: &state.desired_pages,
                desired_ranks: &state.desired_ranks,
                lowest_priority_rank: state.lowest_priority_rank,
                visible_pages,
                protected_pages,
                desired_sequence: desired_sequence.as_slice(),
                min_rank_exclusive: None,
            },
        );
        if !cache_is_full {
            let dispatch_pages: Vec<u32> = choose_dispatch_pages(
                desired_sequence,
                &state,
                None,
                candidate_limit,
                inflight_pages,
                too_large_pages,
                visible_pages,
                protected_pages,
            );
            let stop_reason = if dispatch_pages.len() == 0 {
                Some(StreamingCacheStopReason::NoDispatchablePages)
            } else {
                Some(StreamingCacheStopReason::CacheNotFullDispatch)
            };
            return StreamingCachePlan { dispatch_pages, evict_candidates, stop_reason };
        }
        let worst: Option<usize> = worst_evictable_rank(
            bg_cache_pages,
            &state.desired_ranks,
            visible_pages,
            protected_pages,
            state.lowest_priority_rank,
        );
        let dispatch_pages: Vec<u32> = match worst {
            Some(_) => choose_dispatch_pages(
                desired_sequence,
                &state,
                worst,
                candidate_limit,
                inflight_pages,
                too_large_pages,
                visible_pages,
                protected_pages,
            ),
            None => Vec::new(),
        };
        let stop_reason = if dispatch_pages.len() == 0 {
            Some(StreamingCacheStopReason::CacheFullNoPriorityImprovement)
        } else {
            Some(StreamingCacheStopReason::PriorityImprovementDispatch)
        };
        StreamingCachePlan { dispatch_pages, evict_candidates, stop_reason }
    }

    /// Decides whether a finished decode enters the cache. It does where there is room, or where
    /// pages that rank behind it make room; a page that nobody wants any more, or that the cache
    /// could never hold, does not.
    pub fn plan_completion_admission(input: StreamingCompletionAdmissionInput<'_>) -> (plan:
        StreamingCompletionAdmissionPlan)
        ensures
            plan.completed_rank == input@.rank(),
            plan.worst_evictable_rank == input@.worst(),
            plan.drop_reason == input@.drop_reason(),
            plan.admitted == (plan.drop_reason is None),
            plan.evict_candidates@ == if plan.admitted && !input@.fits() {
                input@.chosen()
            } else {
                Seq::empty()
            },
    {
        broadcast use vstd::std_specs::hash::group_hash_axioms;

        let state: StreamingDesiredRankState = build_streaming_desired_rank_state(
            input.desired_sequence,
            input.cache_pages,
        );
        let completed_rank: Option<usize> = match state.desired_ranks.get(&input.completed_page) {
            Some(rank) => Some(*rank),
            None => None,
        };
        let worst_evictable_rank: Option<usize> = worst_evictable_rank(
            input.cache_pages,
            &state.desired_ranks,
            input.visible_pages,
            input.protected_pages,
            state.lowest_priority_rank,
        );
        if input.completed_entry_bytes > input.cache_max_bytes {
            return StreamingCompletionAdmissionPlan {
                admitted: false,
                drop_reason: Some(StreamingCompletionDropReason::TooLargeForBgRgba),
                evict_candidates: Vec::new(),
                completed_rank,
                worst_evictable_rank,
            };
        }
        let rank: usize = match completed_rank {
            Some(rank) => rank,
            None => {
                return StreamingCompletionAdmissionPlan {
                    admitted: false,
                    drop_reason: Some(StreamingCompletionDropReason::NotInDesiredSequence),
                    evict_candidates: Vec::new(),
                    completed_rank,
                    worst_evictable_rank,
                };
            },
        };
        let load: usize = input.cache_current_bytes.saturating_add(input.completed_entry_bytes);
        if load <= input.cache_max_bytes {
            return StreamingCompletionAdmissionPlan {
                admitted: true,
                drop_reason: None,
                evict_candidates: Vec::new(),
                completed_rank,
                worst_evictable_rank,
            };
        }
        let candidates: Vec<u32> = build_streaming_evict_candidates(
            StreamingEvictContext {
                bg_cache_pages: input.cache_pages,
                desired_pages: &state.desired_pages,
                desired_ranks: &state.desired_ranks,
                lowest_priority_rank: state.lowest_priority_rank,
                visible_pages: input.visible_pages,
                protected_pages: input.protected_pages,
                desired_sequence: input.desired_sequence,
                min_rank_exclusive: completed_rank,
            },
        );
        let (chosen, freed): (Vec<u32>, usize) = choose_evictions(
            &candidates,
            input.page_eviction_bytes,
            load,
            input.cache_max_bytes,
        );
        let enough: bool = freed > 0 && load.saturating_sub(freed) <= input.cache_max_bytes;
        let improves: bool = match worst_evictable_rank {
            Some(worst) => rank < worst,
            None => false,
        };
        if enough && improves {
            StreamingCompletionAdmissionPlan {
                admitted: true,
                drop_reason: None,
                evict_candidates: chosen,
                completed_rank,
                worst_evictable_rank,
            }
        } else {
            let reason = if !improves && freed != 0 {
                StreamingCompletionDropReason::NoPriorityImprovement
            } else {
                StreamingCompletionDropReason::InsufficientLowPriorityCapacity
            };
            StreamingCompletionAdmissionPlan {
                admitted: false,
                drop_reason: Some(reason),
                evict_candidates: Vec::new(),
                completed_rank,
                worst_evictable_rank,
            }
        }
    }
}

/// The bytes that go with a page.
pub open spec fn page_bytes(bytes: Map<u32, usize>, page: u32) -> nat {
    if bytes.dom().contains(page) {
        bytes[page] as nat
    } else {
        0
    }
}

/// The bytes that go with the pages together, cut off at the counter's range.
pub open spec fn bytes_freed(pages: Seq<u32>, bytes: Map<u32, usize>) -> nat
    decreases pages.len(),
{
    if pages.len() == 0 {
        0
    } else {
        capped(bytes_freed(pages.drop_last(), bytes) + page_bytes(bytes, pages.last()))
    }
}

/// The candidates that hold bytes, from the front, until what is left of the load fits.
pub open spec fn evictions_for(
    candidates: Seq<u32>,
    bytes: Map<u32, usize>,
    load: nat,
    max: nat,
    freed: nat,
) -> Seq<u32>
    decreases candidates.len(),
{
    if candidates.len() == 0 {
        Seq::empty()
    } else {
        let page = candidates[0];
        let more = capped(freed + page_bytes(bytes, page));
        if page_bytes(bytes, page) == 0 {
            evictions_for(candidates.drop_first(), bytes, load, max, freed)
        } else if monus(load, more) <= max {
            seq![page]
        } else {
            seq![page] + evictions_for(candidates.drop_first(), bytes, load, max, more)
        }
    }
}

fn choose_evictions(
    candidates: &Vec<u32>,
    page_eviction_bytes: &HashMap<u32, usize>,
    load: usize,
    max: usize,
) -> (chosen: (Vec<u32>, usize))
    ensures
        chosen.0@ == evictions_for(
            candidates@,
            page_eviction_bytes@,
            load as nat,
            max as nat,
            0,
        ),
        chosen.1 == bytes_freed(chosen.0@, page_eviction_bytes@),
{
    broadcast use vstd::std_specs::hash::group_hash_axioms;

    let mut pages: Vec<u32> = Vec::new();
    let mut freed: usize = 0;
    let ghost bytes = page_eviction_bytes@;
    let ghost whole = evictions_for(candidates@, bytes, load as nat, max as nat, 0);
    let mut i: usize = 0;
    assert(candidates@.skip(0) =~= candidates@);
    assert(pages@ + whole =~= whole);
    while i < candidates.len()
        invariant_except_break
            i <= candidates@.len(),
            freed == bytes_freed(pages@, bytes),
            whole == pages@ + evictions_for(
                candidates@.skip(i as int),
                bytes,
                load as nat,
                max as nat,
                freed as nat,
            ),
        invariant
            bytes == page_eviction_bytes@,
        ensures
            freed == bytes_freed(pages@, bytes),
            whole == pages@,
        decreases candidates@.len() - i,
    {
        let page: u32 = candidates[i];
        let ghost left = candidates@.skip(i as int);
        assert(left[0] == page);
        assert(left.drop_first() =~= candidates@.skip(i + 1));
        let size: usize = match page_eviction_bytes.get(&page) {
            Some(size) => *size,
            None => 0,
        };
        assert(size == page_bytes(bytes, page));
        i = i + 1;
        if size != 0 {
            let ghost before = pages@;
            pages.push(page);
            assert(pages@.drop_last() =~= before);
            freed = freed.saturating_add(size);
            assert(before + seq![page] =~= pages@);
            if load.saturating_sub(freed) <= max {
                break;
            }
            proof {
                let rest = evictions_for(
                    candidates@.skip(i as int),
                    bytes,
                    load as nat,
                    max as nat,
                    freed as nat,
                );
                assert(before + (seq![page] + rest) =~= pages@ + rest);
            }
        }
        proof {
            if i == candidates@.len() {
                assert(candidates@.skip(i as int) =~= Seq::empty());
                assert(pages@ + Seq::<u32>::empty() =~= pages@);
            }
        }
    }
    (pages, freed)
}

/// A finished decode and the state of the cache that it would enter, as values.
pub struct Admission {
    pub desired_sequence: Seq<u32>,
    pub cache_pages: Seq<u32>,
    pub page_eviction_bytes: Map<u32, usize>,
    pub cache_current_bytes: usize,
    pub cache_max_bytes: usize,
    pub completed_page: u32,
    pub completed_entry_bytes: usize,
    pub visible_pages: Set<u32>,
    pub protected_pages: Set<u32>,
}

impl<'a> View for StreamingCompletionAdmissionInput<'a> {
    type V = Admission;

    open spec fn view(&self) -> Admission {
        Admission {
            desired_sequence: self.desired_sequence@,
            cache_pages: self.cache_pages@,
            page_eviction_bytes: self.page_eviction_bytes@,
            cache_current_bytes: self.cache_current_bytes,
            cache_max_bytes: self.cache_max_bytes,
            completed_page: self.completed_page,
            completed_entry_bytes: self.completed_entry_bytes,
            visible_pages: self.visible_pages@,
            protected_pages: self.protected_pages@,
        }
    }
}

impl Admission {
    /// The rank of the decoded page, if it is still wanted.
    pub open spec fn rank(self) -> Option<usize> {
        let page_ranks = ranks(self.desired_sequence);
        if page_ranks.dom().contains(self.completed_page) {
            Some(page_ranks[self.completed_page])
        } else {
            None
        }
    }

    /// The worst rank that could go.
    pub open spec fn worst(self) -> Option<usize> {
        worst_rank(
            self.cache_pages,
            ranks(self.desired_sequence),
            self.visible_pages,
            self.protected_pages,
            self.desired_sequence.len() as usize,
        )
    }

    /// The bytes with the decoded page added.
    pub open spec fn load(self) -> nat {
        capped(self.cache_current_bytes as nat + self.completed_entry_bytes as nat)
    }

    pub open spec fn fits(self) -> bool {
        self.load() <= self.cache_max_bytes
    }

    /// The pages that may go for the decoded one.
    pub open spec fn candidates(self) -> Seq<u32> {
        evict_order(
            self.cache_pages,
            self.desired_sequence,
            self.desired_sequence.to_set(),
            ranks(self.desired_sequence),
            self.desired_sequence.len() as usize,
            self.visible_pages,
            self.protected_pages,
            self.rank(),
        )
    }

    /// The pages that would go.
    pub open spec fn chosen(self) -> Seq<u32> {
        evictions_for(
            self.candidates(),
            self.page_eviction_bytes,
            self.load(),
            self.cache_max_bytes as nat,
            0,
        )
    }

    pub open spec fn freed(self) -> nat {
        bytes_freed(self.chosen(), self.page_eviction_bytes)
    }

    pub open spec fn makes_room(self) -> bool {
        self.freed() > 0 && monus(self.load(), self.freed()) <= self.cache_max_bytes
    }

    pub open spec fn improves(self) -> bool {
        self.rank() is Some && self.worst() is Some && self.rank()->0 < self.worst()->0
    }

    /// Why the decoded page is not let in; `None` if it is.
    pub open spec fn drop_reason(self) -> Option<StreamingCompletionDropReason> {
        if self.completed_entry_bytes > self.cache_max_bytes {
            Some(StreamingCompletionDropReason::TooLargeForBgRgba)
        } else if self.rank() is None {
            Some(StreamingCompletionDropReason::NotInDesiredSequence)
        } else if self.fits() || (self.makes_room() && self.improves()) {
            None
        } else if !self.improves() && self.freed() > 0 {
            Some(StreamingCompletionDropReason::NoPriorityImprovement)
        } else {
            Some(StreamingCompletionDropReason::InsufficientLowPriorityCapacity)
        }
    }
}

/// Pages that are on screen or protected never may go, no page is listed twice, and a rank that
/// is to be kept keeps every page that does not rank behind it.
pub proof fn law_evict_order_spares(
    cached: Seq<u32>,
    desired: Seq<u32>,
    desired_set: Set<u32>,
    page_ranks: Map<u32, usize>,
    lowest: usize,
    visible: Set<u32>,
    protected: Set<u32>,
    min_rank_exclusive: Option<usize>,
)
    ensures
        ({
            let order = evict_order(
                cached,
                desired,
                desired_set,
                page_ranks,
                lowest,
                visible,
                protected,
                min_rank_exclusive,
            );
            &&& order.no_duplicates()
            &&& forall|p: u32| #[trigger]
                order.contains(p) ==> {
                    &&& !visible.contains(p)
                    &&& !protected.contains(p)
                    &&& cached.contains(p) || desired.contains(p)
                    &&& match min_rank_exclusive {
                        Some(rank) => rank_or(page_ranks, p, lowest) > rank,
                        None => true,
                    }
                }
        }),
{
    let unwanted = |page: u32|
        may_go(page_ranks, lowest, visible, protected, min_rank_exclusive, page)
            && !desired_set.contains(page);
    let wanted = |page: u32|
        may_go(page_ranks, lowest, visible, protected, min_rank_exclusive, page);
    lemma_selected_contains(cached, unwanted);
    lemma_selected_contains(desired.reverse(), wanted);
    let a = selected(cached, unwanted);
    let b = selected(desired.reverse(), wanted);
    lemma_all_mentioned(Seq::empty(), a + b);
    let order = evict_order(
        cached,
        desired,
        desired_set,
        page_ranks,
        lowest,
        visible,
        protected,
        min_rank_exclusive,
    );
    assert forall|p: u32| #[trigger] order.contains(p) implies {
        &&& !visible.contains(p)
        &&& !protected.contains(p)
        &&& cached.contains(p) || desired.contains(p)
        &&& match min_rank_exclusive {
            Some(rank) => rank_or(page_ranks, p, lowest) > rank,
            None => true,
        }
    } by {
        lemma_concat_contains(a, b, p);
        if b.contains(p) {
            let reversed = desired.reverse();
            let i = choose|i: int| 0 <= i < reversed.len() && reversed[i] == p;
            assert(desired[desired.len() - 1 - i] == p);
        }
    }
}

proof fn lemma_leading_contains(pages: Seq<u32>, keep: spec_fn(u32) -> bool, p: u32)
    ensures
        leading(pages, keep).contains(p) ==> pages.contains(p) && keep(p),
    decreases pages.len(),
{
    if pages.len() > 0 && keep(pages[0]) {
        lemma_leading_contains(pages.drop_first(), keep, p);
        lemma_concat_contains(seq![pages[0]], leading(pages.drop_first(), keep), p);
        lemma_concat_contains(seq![pages[0]], pages.drop_first(), p);
        assert(seq![pages[0]] + pages.drop_first() =~= pages);
    }
}

/// Only wanted pages are dispatched, never one that is cached, in flight, known to be too large,
/// on screen or protected, and never more than the limit.
pub proof fn law_dispatch_is_wanted_and_missing(
    desired: Seq<u32>,
    cached: Seq<u32>,
    full: bool,
    limit: nat,
    inflight: Set<u32>,
    too_large: Set<u32>,
    visible: Set<u32>,
    protected: Set<u32>,
)
    ensures
        ({
            let dispatch = dispatch_order(
                desired,
                cached,
                full,
                limit,
                inflight,
                too_large,
                visible,
                protected,
            );
            &&& dispatch.len() <= limit
            &&& forall|p: u32| #[trigger]
                dispatch.contains(p) ==> desired.contains(p) && dispatchable(
                    p,
                    cached.to_set(),
                    inflight,
                    too_large,
                    visible,
                    protected,
                )
        }),
{
    let keep = |page: u32|
        dispatchable(page, cached.to_set(), inflight, too_large, visible, protected);
    let open_pages = selected(desired, keep);
    lemma_selected_contains(desired, keep);
    let dispatch = dispatch_order(
        desired,
        cached,
        full,
        limit,
        inflight,
        too_large,
        visible,
        protected,
    );
    assert forall|p: u32| #[trigger] dispatch.contains(p) implies open_pages.contains(p) by {
        let i = choose|i: int| 0 <= i < dispatch.len() && dispatch[i] == p;
        if !full {
            assert(open_pages[i] == p);
        } else {
            match worst_rank(cached, ranks(desired), visible, protected, desired.len() as usize) {
                Some(worst) => {
                    let better = |page: u32|
                        rank_or(ranks(desired), page, desired.len() as usize) < worst;
                    assert(leading(open_pages, better)[i] == p);
                    lemma_leading_contains(open_pages, better, p);
                },
                None => {},
            }
        }
    }
}

/// With a full cache a page is dispatched only if it ranks before a cached page that could go.
pub proof fn law_full_cache_dispatch_improves(
    desired: Seq<u32>,
    cached: Seq<u32>,
    limit: nat,
    inflight: Set<u32>,
    too_large: Set<u32>,
    visible: Set<u32>,
    protected: Set<u32>,
    p: u32,
)
    requires
        dispatch_order(
            desired,
            cached,
            true,
            limit,
            inflight,
            too_large,
            visible,
            protected,
        ).contains(p),
    ensures
        worst_rank(cached, ranks(desired), visible, protected, desired.len() as usize) is Some,
        rank_or(ranks(desired), p, desired.len() as usize) < worst_rank(
            cached,
            ranks(desired),
            visible,
            protected,
            desired.len() as usize,
        )->0,
{
    let keep = |page: u32|
        dispatchable(page, cached.to_set(), inflight, too_large, visible, protected);
    let open_pages = selected(desired, keep);
    let dispatch = dispatch_order(
        desired,
        cached,
        true,
        limit,
        inflight,
        too_large,
        visible,
        protected,
    );
    let i = choose|i: int| 0 <= i < dispatch.len() && dispatch[i] == p;
    match worst_rank(cached, ranks(desired), visible, protected, desired.len() as usize) {
        Some(worst) => {
            let better = |page: u32| rank_or(ranks(desired), page, desired.len() as usize) < worst;
            assert(leading(open_pages, better)[i] == p);
            lemma_leading_contains(open_pages, better, p);
        },
        None => {},
    }
}

proof fn lemma_evictions_for_contains(
    candidates: Seq<u32>,
    bytes: Map<u32, usize>,
    load: nat,
    max: nat,
    freed: nat,
    p: u32,
)
    ensures
        evictions_for(candidates, bytes, load, max, freed).contains(p) ==> candidates.contains(p),
    decreases candidates.len(),
{
    if candidates.len() > 0 {
        let more = capped(freed + page_bytes(bytes, candidates[0]));
        let rest = candidates.drop_first();
        lemma_evictions_for_contains(rest, bytes, load, max, freed, p);
        lemma_evictions_for_contains(rest, bytes, load, max, more, p);
        lemma_concat_contains(
            seq![candidates[0]],
            evictions_for(rest, bytes, load, max, more),
            p,
        );
        assert(seq![candidates[0]] + rest =~= candidates);
        lemma_concat_contains(seq![candidates[0]], rest, p);
    }
}

/// A decode that is let in leaves the cache within its limit once the chosen pages have gone,
/// and none of those is on screen, protected, or as wanted as the decoded page.
pub proof fn law_admitted_decode_fits(input: Admission)
    requires
        input.drop_reason() is None,
    ensures
        input.fits() || monus(input.load(), input.freed()) <= input.cache_max_bytes,
        forall|p: u32| #[trigger]
            input.chosen().contains(p) ==> !input.visible_pages.contains(p)
                && !input.protected_pages.contains(p) && rank_or(
                ranks(input.desired_sequence),
                p,
                input.desired_sequence.len() as usize,
            ) > input.rank()->0,
{
    law_evict_order_spares(
        input.cache_pages,
        input.desired_sequence,
        input.desired_sequence.to_set(),
        ranks(input.desired_sequence),
        input.desired_sequence.len() as usize,
        input.visible_pages,
        input.protected_pages,
        input.rank(),
    );
    assert forall|p: u32| #[trigger] input.chosen().contains(p) implies input.candidates().contains(
        p,
    ) by {
        lemma_evictions_for_contains(
            input.candidates(),
            input.page_eviction_bytes,
            input.load(),
            input.cache_max_bytes as nat,
            0,
            p,
        );
    }
}

} // verus!
