//! What the order of background decoding promises: the pages on screen first, the page that reading
//! stands at next, and then the pages ahead and behind by how far away they are.
use vstd::prelude::*;

use super::auto_spread_plan::AutoSpreadPlan;
use super::page_sequences::{
    all_mentioned, first_mentions, lemma_all_mentioned,
    lemma_all_mentioned_concat, lemma_selected_concat, lemma_selected_contains, mentioned,
    pages_below, selected,
};
use super::streaming_cache::{
    anchors_ahead, anchors_behind, auto_streaming_order, burst, bytes_freed, dispatch_order,
    dispatchable, evict_order, evictions_for, interleaved, lemma_concat_contains,
    lemma_interleaved, lemma_pages_of_units_concat, lemma_pages_of_units_hold,
    lemma_unit_pages_hold, may_go, page_bytes, pages_ahead, pages_behind, pages_of_units, rank_or,
    ranks, streaming_order, streaming_plan, unit_pages, worst_rank, Admission,
    StreamingCacheStopReason, StreamingCompletionDropReason,
};
use crate::num::{capped, monus};

verus! {

/// `p` stands before `q` in a list of pages.
pub open spec fn before(order: Seq<u32>, p: u32, q: u32) -> bool {
    exists|i: int, j: int| 0 <= i < j < order.len() && order[i] == p && order[j] == q
}

/// `p` stands in a list of pages, and before it stand only pages of `shown`.
pub open spec fn first_but_for(order: Seq<u32>, shown: Seq<u32>, p: u32) -> bool {
    exists|k: int|
        0 <= k < order.len() && #[trigger] order[k] == p && forall|i: int|
            0 <= i < k ==> shown.contains(#[trigger] order[i])
}

/// A page of the first of two lists stands before one that only the second list holds.
proof fn lemma_before_split(a: Seq<u32>, b: Seq<u32>, p: u32, q: u32)
    requires
        a.contains(p),
        !a.contains(q),
        b.contains(q),
    ensures
        before(first_mentions(a + b), p, q),
{
    let head = first_mentions(a);
    let whole = first_mentions(a + b);
    lemma_all_mentioned(Seq::empty(), a);
    lemma_all_mentioned_concat(Seq::empty(), a, b);
    lemma_all_mentioned(head, b);
    assert(head.contains(p) && !head.contains(q) && whole.contains(q));
    let i = choose|i: int| 0 <= i < head.len() && head[i] == p;
    let j = choose|j: int| 0 <= j < whole.len() && whole[j] == q;
    assert(whole.take(head.len() as int)[i] == p);
    if j < head.len() {
        assert(whole.take(head.len() as int)[j] == q);
        assert(head.contains(q));
    }
    assert(whole[i] == p && whole[j] == q && i < j);
}

/// The first page that `shown` does not hold, where a list starts with `shown`.
proof fn lemma_first_but_for(shown: Seq<u32>, p: u32, rest: Seq<u32>)
    requires
        !shown.contains(p),
    ensures
        first_but_for(first_mentions(shown + (seq![p] + rest)), shown, p),
{
    let head = first_mentions(shown);
    let more = seq![p] + rest;
    let whole = first_mentions(shown + more);
    lemma_all_mentioned(Seq::empty(), shown);
    lemma_all_mentioned_concat(Seq::empty(), shown, more);
    lemma_all_mentioned_concat(head, seq![p], rest);
    reveal_with_fuel(all_mentioned, 2);
    assert(seq![p].drop_last() =~= Seq::<u32>::empty());
    let next = head.push(p);
    assert(all_mentioned(head, seq![p]) == mentioned(head, p));
    assert(!head.contains(p));
    lemma_all_mentioned(next, rest);
    let k = head.len() as int;
    assert(whole.take(next.len() as int) == next);
    assert(whole[k] == whole.take(next.len() as int)[k]);
    assert(whole[k] == p);
    assert forall|i: int| 0 <= i < k implies shown.contains(#[trigger] whole[i]) by {
        assert(whole[i] == whole.take(next.len() as int)[i]);
        assert(head[i] == whole[i]);
        assert(head.contains(whole[i]));
    }
}

/// Where an element of the first part of an interleaving stands.
proof fn lemma_ahead_at<T>(ahead: Seq<T>, behind: Seq<T>, count: nat, i: int) -> (pos: int)
    requires
        count > 0,
        0 <= i < ahead.len(),
    ensures
        0 <= pos < interleaved(ahead, behind, count).len(),
        interleaved(ahead, behind, count)[pos] == ahead[i],
        pos == i + if i / count as int <= behind.len() {
            i / count as int
        } else {
            behind.len() as int
        },
    decreases ahead.len() + behind.len(),
{
    let run = if ahead.len() < count {
        ahead.len() as int
    } else {
        count as int
    };
    let back: int = if behind.len() > 0 {
        1
    } else {
        0
    };
    let rest = interleaved(ahead.skip(run), behind.skip(back), count);
    let c = count as int;
    if i < run {
        assert(i / c == 0) by (nonlinear_arith)
            requires
                0 <= i < c,
        ;
        assert((ahead.take(run) + behind.take(back) + rest)[i] == ahead[i]);
        i
    } else {
        let later = lemma_ahead_at(ahead.skip(run), behind.skip(back), count, i - run);
        assert((i - c) / c == i / c - 1) by (nonlinear_arith)
            requires
                c > 0,
        ;
        assert(i / c >= 1) by (nonlinear_arith)
            requires
                i >= c,
                c > 0,
        ;
        assert((ahead.take(run) + behind.take(back) + rest)[run + back + later] == rest[later]);
        run + back + later
    }
}

/// Where an element of the second part of an interleaving stands.
proof fn lemma_behind_at<T>(ahead: Seq<T>, behind: Seq<T>, count: nat, j: int) -> (pos: int)
    requires
        count > 0,
        0 <= j < behind.len(),
    ensures
        0 <= pos < interleaved(ahead, behind, count).len(),
        interleaved(ahead, behind, count)[pos] == behind[j],
        pos == j + if (j + 1) * count <= ahead.len() {
            (j + 1) * count
        } else {
            ahead.len() as int
        },
    decreases ahead.len() + behind.len(),
{
    let run = if ahead.len() < count {
        ahead.len() as int
    } else {
        count as int
    };
    let rest = interleaved(ahead.skip(run), behind.skip(1), count);
    let c = count as int;
    if j == 0 {
        assert((ahead.take(run) + behind.take(1) + rest)[run] == behind[0]);
        assert((j + 1) * c == c) by (nonlinear_arith)
            requires
                j == 0,
        ;
        run
    } else {
        let later = lemma_behind_at(ahead.skip(run), behind.skip(1), count, j - 1);
        assert((j + 1) * c == j * c + c) by (nonlinear_arith);
        assert(j * c >= c) by (nonlinear_arith)
            requires
                j >= 1,
                c > 0,
        ;
        assert((ahead.take(run) + behind.take(1) + rest)[run + 1 + later] == rest[later]);
        run + 1 + later
    }
}

/// An interleaving of two lists that share nothing repeats nothing.
proof fn lemma_interleaved_once<T>(ahead: Seq<T>, behind: Seq<T>, count: nat)
    requires
        count > 0,
        ahead.no_duplicates(),
        behind.no_duplicates(),
        forall|i: int, j: int|
            0 <= i < ahead.len() && 0 <= j < behind.len() ==> #[trigger] ahead[i]
                != #[trigger] behind[j],
    ensures
        interleaved(ahead, behind, count).no_duplicates(),
    decreases ahead.len() + behind.len(),
{
    if ahead.len() + behind.len() > 0 {
        let run = if ahead.len() < count {
            ahead.len() as int
        } else {
            count as int
        };
        let back: int = if behind.len() > 0 {
            1
        } else {
            0
        };
        let more = ahead.skip(run);
        let less = behind.skip(back);
        assert forall|i: int, j: int| 0 <= i < more.len() && 0 <= j < less.len() implies
            #[trigger] more[i] != #[trigger] less[j] by {
            assert(ahead[run + i] != behind[back + j]);
        }
        lemma_interleaved_once(more, less, count);
        lemma_interleaved(more, less, count);
        let rest = interleaved(more, less, count);
        let head = ahead.take(run) + behind.take(back);
        assert forall|i: int, j: int| 0 <= i < head.len() && 0 <= j < rest.len() implies
            #[trigger] head[i] != #[trigger] rest[j] by {
            assert(rest.contains(rest[j]));
            if more.contains(rest[j]) {
                let k = choose|k: int| 0 <= k < more.len() && more[k] == rest[j];
                assert(ahead[run + k] == rest[j]);
            } else {
                let k = choose|k: int| 0 <= k < less.len() && less[k] == rest[j];
                assert(behind[back + k] == rest[j]);
            }
        }
        assert((head + rest).no_duplicates());
    }
}

/// How many steps ahead are taken for each step behind, where `ahead` steps are left ahead: a sixth
/// of them, but one where there are fewer than twelve and twelve where there are 72 or more.
pub open spec fn steps_ahead_for_one_behind(ahead: int) -> int {
    if ahead < 12 {
        1
    } else if ahead >= 72 {
        12
    } else {
        ahead / 6
    }
}

/// How two steps away from where reading stands compare: a step is ahead where it is positive and
/// behind where it is negative, and `first` comes before `second`.
pub open spec fn comes_first(first: int, second: int, ahead: int) -> bool {
    if first > 0 && second > 0 {
        first < second
    } else if first < 0 && second < 0 {
        first > second
    } else if first > 0 {
        first <= -second * steps_ahead_for_one_behind(ahead)
    } else {
        second > -first * steps_ahead_for_one_behind(ahead)
    }
}

/// The element at a step away from where reading stands.
spec fn at_step<T>(ahead: Seq<T>, behind: Seq<T>, step: int) -> T {
    if step > 0 {
        ahead[step - 1]
    } else {
        behind[-step - 1]
    }
}

proof fn lemma_steps_in_order<T>(ahead: Seq<T>, behind: Seq<T>, first: int, second: int) -> (at: (
    int,
    int,
))
    requires
        first != 0 && second != 0,
        -behind.len() <= first <= ahead.len(),
        -behind.len() <= second <= ahead.len(),
        comes_first(first, second, ahead.len() as int),
    ensures
        0 <= at.0 < at.1 < interleaved(ahead, behind, burst(ahead.len())).len(),
        interleaved(ahead, behind, burst(ahead.len()))[at.0] == at_step(ahead, behind, first),
        interleaved(ahead, behind, burst(ahead.len()))[at.1] == at_step(ahead, behind, second),
{
    let count = burst(ahead.len());
    let c = count as int;
    assert(c == steps_ahead_for_one_behind(ahead.len() as int));
    let x = if first > 0 {
        lemma_ahead_at(ahead, behind, count, first - 1)
    } else {
        lemma_behind_at(ahead, behind, count, -first - 1)
    };
    let y = if second > 0 {
        lemma_ahead_at(ahead, behind, count, second - 1)
    } else {
        lemma_behind_at(ahead, behind, count, -second - 1)
    };
    if first > 0 && second > 0 {
        assert((first - 1) / c <= (second - 1) / c) by (nonlinear_arith)
            requires
                first < second,
                c > 0,
        ;
    } else if first < 0 && second < 0 {
        assert(-first * c <= -second * c) by (nonlinear_arith)
            requires
                second < first,
                c > 0,
        ;
    } else if first > 0 {
        let (i, j) = (first - 1, -second);
        assert(i / c < j) by (nonlinear_arith)
            requires
                i < j * c,
                c > 0,
        ;
    } else {
        let (i, j) = (second - 1, -first);
        assert(i / c >= j) by (nonlinear_arith)
            requires
                i >= j * c,
                c > 0,
        ;
    }
    (x, y)
}

/// The first page of the order that is not on screen is the page that reading stands at.
pub proof fn law_current_page_is_decoded_first(current_page: u32, total_pages: u32, visible: Seq<u32>)
    requires
        current_page < total_pages,
        !visible.contains(current_page),
    ensures
        first_but_for(
            streaming_order(current_page, total_pages, visible),
            visible,
            current_page,
        ),
{
    let shown = pages_below(visible, total_pages);
    let tail = interleaved(
        pages_ahead(current_page, total_pages),
        pages_behind(current_page),
        burst((total_pages - current_page - 1) as nat),
    );
    lemma_selected_contains(visible, |page: u32| page < total_pages);
    lemma_first_but_for(shown, current_page, tail);
    assert(shown + seq![current_page] + tail =~= shown + (seq![current_page] + tail));
    let order = streaming_order(current_page, total_pages, visible);
    let k = choose|k: int|
        0 <= k < order.len() && #[trigger] order[k] == current_page && forall|i: int|
            0 <= i < k ==> shown.contains(#[trigger] order[i]);
    assert forall|i: int| 0 <= i < k implies visible.contains(#[trigger] order[i]) by {
        assert(shown.contains(order[i]));
    }
}

/// Pages on screen come before all others.
pub proof fn law_pages_on_screen_are_decoded_first(
    current_page: u32,
    total_pages: u32,
    visible: Seq<u32>,
    p: u32,
    q: u32,
)
    requires
        current_page < total_pages,
        p < total_pages && q < total_pages,
        visible.contains(p) && !visible.contains(q),
    ensures
        before(streaming_order(current_page, total_pages, visible), p, q),
{
    let shown = pages_below(visible, total_pages);
    let tail = interleaved(
        pages_ahead(current_page, total_pages),
        pages_behind(current_page),
        burst((total_pages - current_page - 1) as nat),
    );
    lemma_selected_contains(visible, |page: u32| page < total_pages);
    assert(shown + seq![current_page] + tail =~= shown + (seq![current_page] + tail));
    super::streaming_cache::law_streaming_order_lists_every_page(
        current_page,
        total_pages,
        visible,
    );
    lemma_all_mentioned(Seq::empty(), shown + (seq![current_page] + tail));
    lemma_concat_contains(shown, seq![current_page] + tail, q);
    assert(streaming_order(current_page, total_pages, visible).contains(q));
    lemma_before_split(shown, seq![current_page] + tail, p, q);
}

/// Of two pages that are not on screen, the order is told by their distance from the page that
/// reading stands at: pages ahead in reading order, pages behind nearest first, and for each page
/// behind a share of pages ahead.
pub proof fn law_pages_are_decoded_by_distance(
    current_page: u32,
    total_pages: u32,
    visible: Seq<u32>,
    p: u32,
    q: u32,
)
    requires
        current_page < total_pages,
        p < total_pages && q < total_pages,
        p != current_page && q != current_page,
        !visible.contains(q),
        comes_first(p - current_page, q - current_page, total_pages - current_page - 1),
    ensures
        before(streaming_order(current_page, total_pages, visible), p, q),
{
    let shown = pages_below(visible, total_pages);
    let ahead = pages_ahead(current_page, total_pages);
    let behind = pages_behind(current_page);
    let tail = interleaved(ahead, behind, burst(ahead.len()));
    lemma_selected_contains(visible, |page: u32| page < total_pages);
    let (x, y) = lemma_steps_in_order(ahead, behind, p - current_page, q - current_page);
    lemma_interleaved_once(ahead, behind, burst(ahead.len()));
    assert(tail[x] == p && tail[y] == q);
    let a = shown + seq![current_page] + tail.take(x + 1);
    let b = tail.skip(x + 1);
    assert(shown + seq![current_page] + tail =~= a + b);
    assert(tail.take(x + 1)[x] == p);
    assert(b[y - x - 1] == q);
    assert(!tail.take(x + 1).contains(q));
    lemma_concat_contains(shown + seq![current_page], tail.take(x + 1), p);
    lemma_concat_contains(shown + seq![current_page], tail.take(x + 1), q);
    lemma_concat_contains(shown, seq![current_page], q);
    lemma_before_split(a, b, p, q);
}

/// The pages of a unit are pages that it covers.
proof fn lemma_unit_pages_are_covered(plan: AutoSpreadPlan, page: u32, p: u32, total_pages: u32)
    requires
        plan.wf(),
        page < plan.page_count(),
        unit_pages(plan, page, total_pages).contains(p),
    ensures
        p < plan.page_count(),
        plan.page_to_unit@[p as int] == plan.page_to_unit@[page as int],
{
    let keep = |q: u32| q < total_pages;
    let unit = plan.unit_of(page as int);
    let index = plan.page_to_unit@[page as int] as int;
    assert(unit.wf() && unit.end() <= plan.page_count());
    match unit.second_page {
        Some(second) => lemma_selected_contains(seq![unit.first_page, second], keep),
        None => lemma_selected_contains(seq![unit.first_page], keep),
    }
    assert(plan.units@[index].covers(p as int));
}

/// A page of several units is a page of one of them.
proof fn lemma_page_of_some_unit(
    plan: AutoSpreadPlan,
    anchors: Seq<u32>,
    p: u32,
    total_pages: u32,
) -> (x: int)
    requires
        pages_of_units(plan, anchors, total_pages).contains(p),
    ensures
        0 <= x < anchors.len(),
        unit_pages(plan, anchors[x], total_pages).contains(p),
    decreases anchors.len(),
{
    let front = anchors.drop_last();
    lemma_concat_contains(
        pages_of_units(plan, front, total_pages),
        unit_pages(plan, anchors.last(), total_pages),
        p,
    );
    if unit_pages(plan, anchors.last(), total_pages).contains(p) {
        anchors.len() - 1
    } else {
        lemma_page_of_some_unit(plan, front, p, total_pages)
    }
}

/// The anchors ahead and behind are the first pages of their units, each unit once.
proof fn lemma_anchors(plan: AutoSpreadPlan, current: u32)
    requires
        plan.wf(),
        current < plan.page_count(),
    ensures
        ({
            let here = plan.page_to_unit@[current as int] as int;
            let ahead = anchors_ahead(plan, current);
            let behind = anchors_behind(plan, current);
            let anchors = interleaved(ahead, behind, burst(ahead.len()));
            &&& anchors.no_duplicates()
            &&& ahead.len() == plan.units@.len() - here - 1
            &&& behind.len() == here
            &&& forall|x: int|
                0 <= x < anchors.len() ==> (#[trigger] anchors[x]) < plan.page_count()
                    && plan.unit_of(anchors[x] as int).first_page == anchors[x]
        }),
{
    let here = plan.page_to_unit@[current as int] as int;
    let ahead = anchors_ahead(plan, current);
    let behind = anchors_behind(plan, current);
    let anchors = interleaved(ahead, behind, burst(ahead.len()));
    assert(plan.units@[here].covers(current as int));
    assert forall|u: int| 0 <= u < plan.units@.len() implies (
    #[trigger] plan.units@[u]).first_page < plan.page_count()
        && plan.page_to_unit@[plan.units@[u].first_page as int] == u by {
        assert(plan.units@[u].wf());
        assert(plan.units@[u].covers(plan.units@[u].first_page as int));
    }
    assert forall|i: int, j: int| 0 <= i < ahead.len() && 0 <= j < behind.len() implies
        #[trigger] ahead[i] != #[trigger] behind[j] by {
        assert(ahead[i] == plan.units@[here + 1 + i].first_page);
        assert(behind[j] == plan.units@[here - 1 - j].first_page);
    }
    assert forall|i: int, j: int| 0 <= i < ahead.len() && 0 <= j < ahead.len() && i != j implies
        ahead[i] != ahead[j] by {
        assert(ahead[i] == plan.units@[here + 1 + i].first_page);
        assert(ahead[j] == plan.units@[here + 1 + j].first_page);
    }
    assert forall|i: int, j: int| 0 <= i < behind.len() && 0 <= j < behind.len() && i != j implies
        behind[i] != behind[j] by {
        assert(behind[i] == plan.units@[here - 1 - i].first_page);
        assert(behind[j] == plan.units@[here - 1 - j].first_page);
    }
    lemma_interleaved_once(ahead, behind, burst(ahead.len()));
    lemma_interleaved(ahead, behind, burst(ahead.len()));
    assert forall|x: int| 0 <= x < anchors.len() implies (#[trigger] anchors[x])
        < plan.page_count() && plan.unit_of(anchors[x] as int).first_page == anchors[x] by {
        assert(anchors.contains(anchors[x]));
        if ahead.contains(anchors[x]) {
            let k = choose|k: int| 0 <= k < ahead.len() && ahead[k] == anchors[x];
            assert(anchors[x] == plan.units@[here + 1 + k].first_page);
        } else {
            let k = choose|k: int| 0 <= k < behind.len() && behind[k] == anchors[x];
            assert(anchors[x] == plan.units@[here - 1 - k].first_page);
        }
    }
}

/// By units, the first page that is not on screen is one that is shown together with the page that
/// reading stands at.
pub proof fn law_current_unit_is_decoded_first(
    plan: AutoSpreadPlan,
    current_page: u32,
    total_pages: u32,
    visible: Seq<u32>,
    p: u32,
    q: u32,
)
    requires
        plan.wf(),
        plan.page_count() == total_pages,
        current_page < total_pages,
        p < total_pages && q < total_pages,
        plan.page_to_unit@[p as int] == plan.page_to_unit@[current_page as int],
        plan.page_to_unit@[q as int] != plan.page_to_unit@[current_page as int],
        !visible.contains(q),
    ensures
        before(auto_streaming_order(plan, current_page, total_pages, visible), p, q),
{
    let shown = pages_below(visible, total_pages);
    let own = unit_pages(plan, current_page, total_pages);
    let ahead = anchors_ahead(plan, current_page);
    let behind = anchors_behind(plan, current_page);
    let tail = pages_of_units(
        plan,
        interleaved(ahead, behind, burst(ahead.len())),
        total_pages,
    );
    lemma_selected_contains(visible, |page: u32| page < total_pages);
    assert(plan.unit_of(current_page as int).covers(p as int));
    lemma_unit_pages_hold(plan, current_page, p, total_pages);
    if own.contains(q) {
        lemma_unit_pages_are_covered(plan, current_page, q, total_pages);
    }
    super::streaming_cache::law_auto_streaming_order_lists_every_page(
        plan,
        current_page,
        total_pages,
        visible,
    );
    assert(auto_streaming_order(plan, current_page, total_pages, visible).contains(q));
    lemma_all_mentioned(Seq::empty(), shown + own + tail);
    lemma_concat_contains(shown + own, tail, q);
    lemma_concat_contains(shown, own, q);
    lemma_concat_contains(shown, own, p);
    lemma_before_split(shown + own, tail, p, q);
}

/// By units, the order of two pages of different units is told by how many units away they are from
/// where reading stands.
pub proof fn law_units_are_decoded_by_distance(
    plan: AutoSpreadPlan,
    current_page: u32,
    total_pages: u32,
    visible: Seq<u32>,
    p: u32,
    q: u32,
)
    requires
        plan.wf(),
        plan.page_count() == total_pages,
        current_page < total_pages,
        p < total_pages && q < total_pages,
        plan.page_to_unit@[p as int] != plan.page_to_unit@[current_page as int],
        plan.page_to_unit@[q as int] != plan.page_to_unit@[current_page as int],
        !visible.contains(q),
        comes_first(
            plan.page_to_unit@[p as int] - plan.page_to_unit@[current_page as int],
            plan.page_to_unit@[q as int] - plan.page_to_unit@[current_page as int],
            plan.units@.len() - plan.page_to_unit@[current_page as int] - 1,
        ),
    ensures
        before(auto_streaming_order(plan, current_page, total_pages, visible), p, q),
{
    let shown = pages_below(visible, total_pages);
    let own = unit_pages(plan, current_page, total_pages);
    let ahead = anchors_ahead(plan, current_page);
    let behind = anchors_behind(plan, current_page);
    let anchors = interleaved(ahead, behind, burst(ahead.len()));
    let here = plan.page_to_unit@[current_page as int] as int;
    let up = plan.page_to_unit@[p as int] as int;
    let uq = plan.page_to_unit@[q as int] as int;
    lemma_selected_contains(visible, |page: u32| page < total_pages);
    lemma_anchors(plan, current_page);
    let (x, y) = lemma_steps_in_order(ahead, behind, up - here, uq - here);
    assert(anchors[x] == plan.units@[up].first_page);
    assert(anchors[y] == plan.units@[uq].first_page);
    assert(plan.units@[up].covers(p as int) && plan.units@[uq].covers(q as int));
    assert(plan.units@[up].covers(anchors[x] as int) && plan.units@[uq].covers(anchors[y] as int));
    lemma_unit_pages_hold(plan, anchors[x], p, total_pages);
    lemma_unit_pages_hold(plan, anchors[y], q, total_pages);
    let near = anchors.take(x + 1);
    let far = anchors.skip(x + 1);
    assert(near[x] == anchors[x]);
    assert(far[y - x - 1] == anchors[y]);
    lemma_pages_of_units_hold(plan, near, anchors[x], p, total_pages);
    lemma_pages_of_units_hold(plan, far, anchors[y], q, total_pages);
    assert(anchors =~= near + far);
    lemma_pages_of_units_concat(plan, near, far, total_pages);
    let nearer = pages_of_units(plan, near, total_pages);
    let farther = pages_of_units(plan, far, total_pages);
    if nearer.contains(q) {
        let z = lemma_page_of_some_unit(plan, near, q, total_pages);
        assert(near[z] == anchors[z]);
        lemma_unit_pages_are_covered(plan, anchors[z], q, total_pages);
        assert(plan.unit_of(anchors[z] as int) == plan.units@[uq]);
        assert(anchors[z] == anchors[y]);
    }
    if own.contains(q) {
        lemma_unit_pages_are_covered(plan, current_page, q, total_pages);
    }
    lemma_concat_contains(shown + own, nearer, p);
    lemma_concat_contains(shown + own, nearer, q);
    lemma_concat_contains(shown, own, q);
    assert(shown + own + pages_of_units(plan, anchors, total_pages) =~= (shown + own + nearer)
        + farther);
    lemma_before_split(shown + own + nearer, farther, p, q);
}

/// The rank of a wanted page is its place in the order; a page that is not wanted has none.
pub proof fn law_ranks_are_places(order: Seq<u32>, i: int, page: u32)
    requires
        order.no_duplicates(),
        order.len() <= usize::MAX,
    ensures
        0 <= i < order.len() ==> ranks(order).dom().contains(order[i]) && ranks(order)[order[i]]
            == i,
        ranks(order).dom().contains(page) <==> order.contains(page),
        !order.contains(page) ==> rank_or(ranks(order), page, order.len() as usize) == order.len(),
    decreases order.len(),
{
    if order.len() > 0 {
        let front = order.drop_last();
        let last = order.len() - 1;
        law_ranks_are_places(front, i, page);
        super::page_sequences::lemma_pushed_contains(front, order.last(), page);
        assert(front.push(order.last()) =~= order);
        if 0 <= i < last {
            assert(front[i] == order[i]);
            assert(order[i] != order[last]);
        }
    }
}

/// The worst rank among cached pages that may go is the rank of one of them, and none ranks behind
/// it.
pub proof fn law_worst_rank_is_the_last(
    cached: Seq<u32>,
    page_ranks: Map<u32, usize>,
    visible: Set<u32>,
    protected: Set<u32>,
    lowest: usize,
    i: int,
)
    requires
        0 <= i < cached.len(),
        !visible.contains(cached[i]),
        !protected.contains(cached[i]),
    ensures
        worst_rank(cached, page_ranks, visible, protected, lowest) matches Some(worst) && rank_or(
            page_ranks,
            cached[i],
            lowest,
        ) <= worst && exists|k: int|
            0 <= k < cached.len() && !visible.contains(#[trigger] cached[k]) && !protected.contains(
                cached[k],
            ) && rank_or(page_ranks, cached[k], lowest) == worst,
    decreases cached.len(),
{
    let front = cached.drop_last();
    let last = cached.len() - 1;
    let before_last = worst_rank(front, page_ranks, visible, protected, lowest);
    if i < last {
        assert(front[i] == cached[i]);
        law_worst_rank_is_the_last(front, page_ranks, visible, protected, lowest, i);
    } else if before_last is Some {
        lemma_worst_rank_is_of_a_page(front, page_ranks, visible, protected, lowest);
    }
    if before_last is Some {
        let k = choose|k: int|
            0 <= k < front.len() && !visible.contains(#[trigger] front[k]) && !protected.contains(
                front[k],
            ) && rank_or(page_ranks, front[k], lowest) == before_last->0;
        assert(cached[k] == front[k]);
    }
    assert(cached[last] == cached.last());
}

proof fn lemma_worst_rank_is_of_a_page(
    cached: Seq<u32>,
    page_ranks: Map<u32, usize>,
    visible: Set<u32>,
    protected: Set<u32>,
    lowest: usize,
)
    requires
        worst_rank(cached, page_ranks, visible, protected, lowest) is Some,
    ensures
        exists|k: int|
            0 <= k < cached.len() && !visible.contains(#[trigger] cached[k]) && !protected.contains(
                cached[k],
            ) && rank_or(page_ranks, cached[k], lowest) == worst_rank(
                cached,
                page_ranks,
                visible,
                protected,
                lowest,
            )->0,
    decreases cached.len(),
{
    let front = cached.drop_last();
    let last = cached.len() - 1;
    let worst = worst_rank(cached, page_ranks, visible, protected, lowest)->0;
    assert(cached[last] == cached.last());
    if worst_rank(front, page_ranks, visible, protected, lowest) is Some {
        lemma_worst_rank_is_of_a_page(front, page_ranks, visible, protected, lowest);
        let k = choose|k: int|
            0 <= k < front.len() && !visible.contains(#[trigger] front[k]) && !protected.contains(
                front[k],
            ) && rank_or(page_ranks, front[k], lowest) == worst_rank(
                front,
                page_ranks,
                visible,
                protected,
                lowest,
            )->0;
        assert(cached[k] == front[k]);
    }
}

/// With room in the cache, the first page of the order that is neither there nor on its way is the
/// first that is sent: one that is not cached, not in flight, not known to be too large, not on
/// screen and not protected.
pub proof fn law_first_missing_page_is_sent(
    desired: Seq<u32>,
    cached: Seq<u32>,
    limit: nat,
    inflight: Set<u32>,
    too_large: Set<u32>,
    visible: Set<u32>,
    protected: Set<u32>,
    k: int,
)
    requires
        0 <= k < desired.len(),
        limit > 0,
        !cached.contains(desired[k]),
        !inflight.contains(desired[k]),
        !too_large.contains(desired[k]),
        !visible.contains(desired[k]),
        !protected.contains(desired[k]),
        forall|i: int|
            0 <= i < k ==> cached.contains(#[trigger] desired[i]) || inflight.contains(desired[i])
                || too_large.contains(desired[i]) || visible.contains(desired[i])
                || protected.contains(desired[i]),
    ensures
        ({
            let sent = dispatch_order(
                desired,
                cached,
                false,
                limit,
                inflight,
                too_large,
                visible,
                protected,
            );
            sent.len() > 0 && sent[0] == desired[k]
        }),
{
    let keep = |page: u32|
        dispatchable(page, cached.to_set(), inflight, too_large, visible, protected);
    let a = desired.take(k);
    let b = desired.skip(k);
    assert(desired =~= a + b);
    lemma_selected_concat(a, b, keep);
    lemma_selected_contains(a, keep);
    assert(selected(a, keep).len() == 0) by {
        if selected(a, keep).len() > 0 {
            let p = selected(a, keep)[0];
            assert(selected(a, keep).contains(p));
            let i = choose|i: int| 0 <= i < a.len() && a[i] == p;
            assert(desired[i] == p);
        }
    }
    assert(!cached.to_set().contains(desired[k]));
    lemma_selected_first(b, keep);
    assert(selected(desired, keep) =~= selected(b, keep));
}

proof fn lemma_selected_first(pages: Seq<u32>, keep: spec_fn(u32) -> bool)
    requires
        pages.len() > 0,
        keep(pages[0]),
    ensures
        selected(pages, keep).len() > 0,
        selected(pages, keep)[0] == pages[0],
    decreases pages.len(),
{
    if pages.len() > 1 {
        lemma_selected_first(pages.drop_last(), keep);
    } else {
        assert(selected(pages.drop_last(), keep).len() == 0) by {
            lemma_selected_contains(pages.drop_last(), keep);
        }
    }
}

/// With room in the cache and in the limit, every page that is missing is sent.
pub proof fn law_all_missing_pages_are_sent(
    desired: Seq<u32>,
    cached: Seq<u32>,
    limit: nat,
    inflight: Set<u32>,
    too_large: Set<u32>,
    visible: Set<u32>,
    protected: Set<u32>,
    k: int,
)
    requires
        0 <= k < desired.len() <= limit,
        !cached.contains(desired[k]),
        !inflight.contains(desired[k]),
        !too_large.contains(desired[k]),
        !visible.contains(desired[k]),
        !protected.contains(desired[k]),
    ensures
        dispatch_order(
            desired,
            cached,
            false,
            limit,
            inflight,
            too_large,
            visible,
            protected,
        ).contains(desired[k]),
{
    let keep = |page: u32|
        dispatchable(page, cached.to_set(), inflight, too_large, visible, protected);
    lemma_selected_contains(desired, keep);
    assert(desired.contains(desired[k]));
    assert(!cached.to_set().contains(desired[k]));
    assert(selected(desired, keep).contains(desired[k]));
}

/// What is sent is missing, whatever the state of the cache.
pub proof fn law_only_missing_pages_are_sent(
    desired: Seq<u32>,
    cached: Seq<u32>,
    full: bool,
    limit: nat,
    inflight: Set<u32>,
    too_large: Set<u32>,
    visible: Set<u32>,
    protected: Set<u32>,
    page: u32,
)
    requires
        dispatch_order(
            desired,
            cached,
            full,
            limit,
            inflight,
            too_large,
            visible,
            protected,
        ).contains(page),
    ensures
        desired.contains(page),
        !cached.contains(page),
        !inflight.contains(page),
        !too_large.contains(page),
        !visible.contains(page),
        !protected.contains(page),
{
    super::streaming_cache::law_dispatch_is_wanted_and_missing(
        desired,
        cached,
        full,
        limit,
        inflight,
        too_large,
        visible,
        protected,
    );
}

/// Without a free worker or without a limit nothing is sent and nothing may go; a cache counts as
/// full once its limit is reached or a page has gone for another.
pub proof fn law_plans_need_workers_and_room(
    desired: Seq<u32>,
    cached: Seq<u32>,
    current: usize,
    max: usize,
    saturated: bool,
    limit: nat,
    inflight: Set<u32>,
    too_large: Set<u32>,
    visible: Set<u32>,
    protected: Set<u32>,
    workers: usize,
)
    ensures
        ({
            let plan = streaming_plan(
                desired,
                cached,
                current,
                max,
                saturated,
                limit,
                inflight,
                too_large,
                visible,
                protected,
                workers,
            );
            let reason = plan.stop_reason;
            &&& workers == 0 ==> plan.dispatch.len() == 0 && plan.evict.len() == 0 && reason
                == StreamingCacheStopReason::NoWorkerCapacity
            &&& workers > 0 && max == 0 ==> plan.dispatch.len() == 0 && plan.evict.len() == 0
                && reason == StreamingCacheStopReason::CacheLimitUnavailable
            &&& workers > 0 && max > 0 && !saturated && current < max ==> (if plan.dispatch.len()
                == 0 {
                reason == StreamingCacheStopReason::NoDispatchablePages
            } else {
                reason == StreamingCacheStopReason::CacheNotFullDispatch
            })
            &&& workers > 0 && max > 0 && (saturated || current >= max) ==> (if plan.dispatch.len()
                == 0 {
                reason == StreamingCacheStopReason::CacheFullNoPriorityImprovement
            } else {
                reason == StreamingCacheStopReason::PriorityImprovementDispatch
            })
        }),
{
}

/// Of two pages that may go, one that nobody wants goes before a wanted one, and of wanted pages
/// the one that comes later in the order goes first.
pub proof fn law_least_wanted_pages_go_first(
    cached: Seq<u32>,
    desired: Seq<u32>,
    visible: Set<u32>,
    protected: Set<u32>,
    p: u32,
    q: u32,
    i: int,
    j: int,
)
    requires
        desired.no_duplicates(),
        !visible.contains(p) && !protected.contains(p),
        !visible.contains(q) && !protected.contains(q),
        0 <= j < desired.len() && desired[j] == q,
        (cached.contains(p) && !desired.contains(p)) || (j < i < desired.len() && desired[i] == p),
    ensures
        before(
            evict_order(
                cached,
                desired,
                desired.to_set(),
                ranks(desired),
                desired.len() as usize,
                visible,
                protected,
                None,
            ),
            p,
            q,
        ),
{
    let lowest = desired.len() as usize;
    let unwanted = |page: u32|
        may_go(ranks(desired), lowest, visible, protected, None, page)
            && !desired.to_set().contains(page);
    let free = |page: u32| may_go(ranks(desired), lowest, visible, protected, None, page);
    let back = desired.reverse();
    let a = selected(cached, unwanted);
    let b = selected(back, free);
    lemma_selected_contains(cached, unwanted);
    assert(desired.to_set().contains(q));
    if cached.contains(p) && !desired.contains(p) {
        assert(!desired.to_set().contains(p));
        assert(a.contains(p));
        lemma_selected_contains(back, free);
        assert(back[desired.len() - 1 - j] == q);
        assert(back.contains(q));
        lemma_before_split(a, b, p, q);
    } else {
        let n = desired.len() as int;
        let cut = n - i;
        let near = back.take(cut);
        let far = back.skip(cut);
        assert(back =~= near + far);
        lemma_selected_concat(near, far, free);
        assert(near[n - 1 - i] == p);
        assert(far[n - 1 - j - cut] == q);
        assert(near.contains(p));
        assert(far.contains(q));
        assert(!near.contains(q)) by {
            if near.contains(q) {
                let k = choose|k: int| 0 <= k < near.len() && near[k] == q;
                assert(desired[n - 1 - k] == q);
            }
        }
        lemma_selected_contains(near, free);
        lemma_selected_contains(far, free);
        let x = a + selected(near, free);
        let y = selected(far, free);
        lemma_concat_contains(a, selected(near, free), p);
        lemma_concat_contains(a, selected(near, free), q);
        assert(a + b =~= x + y);
        lemma_before_split(x, y, p, q);
    }
}

/// A finished decode is refused where the cache could never hold it or where nobody wants it; it is
/// let in where it fits; and else only where a page that is wanted less makes room.
pub proof fn law_decodes_are_let_in_by_need(input: Admission)
    requires
        input.desired_sequence.no_duplicates(),
        input.desired_sequence.len() <= usize::MAX,
        input.cache_current_bytes + input.completed_entry_bytes <= usize::MAX,
    ensures
        ({
            let wanted = input.desired_sequence.contains(input.completed_page);
            let reason = input.drop_reason();
            let full = input.cache_current_bytes + input.completed_entry_bytes
                > input.cache_max_bytes;
            &&& input.completed_entry_bytes > input.cache_max_bytes <==> reason == Some(
                StreamingCompletionDropReason::TooLargeForBgRgba,
            )
            &&& input.completed_entry_bytes <= input.cache_max_bytes && !wanted <==> reason == Some(
                StreamingCompletionDropReason::NotInDesiredSequence,
            )
            &&& wanted && !full ==> reason is None
            &&& reason is None ==> wanted
            &&& reason is None && full ==> input.worst() is Some && (input.rank() matches Some(
                rank,
            ) && rank < input.worst()->0) && input.chosen().len() > 0
        }),
{
    law_ranks_are_places(input.desired_sequence, 0, input.completed_page);
    if input.chosen().len() == 0 {
        assert(bytes_freed(input.chosen(), input.page_eviction_bytes) == 0);
    }
}

/// No page goes for a decode in vain: without the last one that is chosen it would not fit.
pub proof fn law_no_page_is_chosen_in_vain(
    candidates: Seq<u32>,
    bytes: Map<u32, usize>,
    load: nat,
    max: nat,
    freed: nat,
)
    requires
        load > max + freed,
    ensures
        ({
            let chosen = evictions_for(candidates, bytes, load, max, freed);
            &&& chosen.len() > 0 ==> monus(
                load,
                freed_after(chosen.drop_last(), bytes, freed),
            ) > max
            &&& forall|k: int|
                0 <= k < chosen.len() ==> candidates.contains(#[trigger] chosen[k]) && page_bytes(
                    bytes,
                    chosen[k],
                ) > 0
        }),
    decreases candidates.len(),
{
    let chosen = evictions_for(candidates, bytes, load, max, freed);
    if candidates.len() > 0 {
        let page = candidates[0];
        let more = capped(freed + page_bytes(bytes, page));
        let rest = candidates.drop_first();
        assert forall|p: u32| rest.contains(p) implies candidates.contains(p) by {
            let i = choose|i: int| 0 <= i < rest.len() && rest[i] == p;
            assert(candidates[i + 1] == p);
        }
        assert(candidates.contains(page));
        if page_bytes(bytes, page) == 0 {
            law_no_page_is_chosen_in_vain(rest, bytes, load, max, freed);
        } else if monus(load, more) <= max {
            assert(chosen.drop_last() =~= Seq::empty());
        } else {
            law_no_page_is_chosen_in_vain(rest, bytes, load, max, more);
            let later = evictions_for(rest, bytes, load, max, more);
            assert(chosen =~= seq![page] + later);
            if later.len() > 0 {
                assert(chosen.drop_last() =~= seq![page] + later.drop_last());
                assert((seq![page] + later.drop_last()).drop_first() =~= later.drop_last());
            } else {
                assert(chosen.drop_last() =~= Seq::empty());
            }
            assert forall|k: int| 0 <= k < chosen.len() implies candidates.contains(
                #[trigger] chosen[k],
            ) && page_bytes(bytes, chosen[k]) > 0 by {
                if k > 0 {
                    assert(chosen[k] == later[k - 1]);
                }
            }
        }
    }
}

/// The bytes that are free once the pages have gone one after the other.
pub open spec fn freed_after(pages: Seq<u32>, bytes: Map<u32, usize>, freed: nat) -> nat
    decreases pages.len(),
{
    if pages.len() == 0 {
        freed
    } else {
        freed_after(pages.drop_first(), bytes, capped(freed + page_bytes(bytes, pages[0])))
    }
}

} // verus!
