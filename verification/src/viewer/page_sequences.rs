//! Sequences of page numbers: first mentions, selections and prefixes.
use vstd::prelude::*;

use std::collections::HashSet;

verus! {

/// The sequence with `page` appended, unless it is there already.
pub open spec fn mentioned(pages: Seq<u32>, page: u32) -> Seq<u32> {
    if pages.contains(page) {
        pages
    } else {
        pages.push(page)
    }
}

/// `start`, then each page of `more` that was not mentioned before.
pub open spec fn all_mentioned(start: Seq<u32>, more: Seq<u32>) -> Seq<u32>
    decreases more.len(),
{
    if more.len() == 0 {
        start
    } else {
        mentioned(all_mentioned(start, more.drop_last()), more.last())
    }
}

/// Each page at its first mention.
pub open spec fn first_mentions(pages: Seq<u32>) -> Seq<u32> {
    all_mentioned(Seq::empty(), pages)
}

/// The pages that `keep` accepts, in the same order.
pub open spec fn selected(pages: Seq<u32>, keep: spec_fn(u32) -> bool) -> Seq<u32>
    decreases pages.len(),
{
    if pages.len() == 0 {
        pages
    } else if keep(pages.last()) {
        selected(pages.drop_last(), keep).push(pages.last())
    } else {
        selected(pages.drop_last(), keep)
    }
}

/// The longest prefix whose pages `keep` accepts.
pub open spec fn leading(pages: Seq<u32>, keep: spec_fn(u32) -> bool) -> Seq<u32>
    decreases pages.len(),
{
    if pages.len() == 0 || !keep(pages[0]) {
        Seq::empty()
    } else {
        seq![pages[0]] + leading(pages.drop_first(), keep)
    }
}

/// The first `limit` pages, or all of them.
pub open spec fn at_most(pages: Seq<u32>, limit: nat) -> Seq<u32> {
    if pages.len() <= limit {
        pages
    } else {
        pages.take(limit as int)
    }
}

/// The pages below `total`, in the same order.
pub open spec fn pages_below(pages: Seq<u32>, total: u32) -> Seq<u32> {
    selected(pages, |page: u32| page < total)
}

/// Notes a page; `seen` holds the noted pages.
pub fn mention(desired: &mut Vec<u32>, seen: &mut HashSet<u32>, page: u32)
    requires
        old(seen)@ == old(desired)@.to_set(),
    ensures
        final(desired)@ == mentioned(old(desired)@, page),
        final(seen)@ == final(desired)@.to_set(),
{
    broadcast use vstd::std_specs::hash::group_hash_axioms;

    if seen.insert(page) {
        desired.push(page);
        proof {
            lemma_push_to_set(old(desired)@, page);
        }
    }
    assert(old(desired)@.contains(page) <==> old(desired)@.to_set().contains(page));
    assert(old(desired)@.contains(page) ==> old(seen)@.insert(page) =~= old(seen)@);
}

pub proof fn lemma_push_to_set(pages: Seq<u32>, page: u32)
    ensures
        pages.push(page).to_set() == pages.to_set().insert(page),
{
    let pushed = pages.push(page);
    assert forall|p: u32| pushed.to_set().contains(p) == pages.to_set().insert(page).contains(p) by {
        if pages.contains(p) {
            let i = choose|i: int| 0 <= i < pages.len() && pages[i] == p;
            assert(pushed[i] == p);
        }
        if p == page {
            assert(pushed[pages.len() as int] == p);
        }
        if pushed.contains(p) {
            let i = choose|i: int| 0 <= i < pushed.len() && pushed[i] == p;
            if i < pages.len() {
                assert(pages[i] == p);
            }
        }
    }
    assert(pushed.to_set() =~= pages.to_set().insert(page));
}

/// Appending page lists in two steps is the same as appending them at once.
pub proof fn lemma_all_mentioned_concat(start: Seq<u32>, a: Seq<u32>, b: Seq<u32>)
    ensures
        all_mentioned(start, a + b) == all_mentioned(all_mentioned(start, a), b),
    decreases b.len(),
{
    if b.len() == 0 {
        assert(a + b =~= a);
    } else {
        lemma_all_mentioned_concat(start, a, b.drop_last());
        assert((a + b).drop_last() =~= a + b.drop_last());
    }
}

/// Mentioning loses no page, adds only what was listed, and repeats none.
pub proof fn lemma_all_mentioned(start: Seq<u32>, more: Seq<u32>)
    ensures
        forall|p: u32| #[trigger]
            all_mentioned(start, more).contains(p) <==> start.contains(p) || more.contains(p),
        start.no_duplicates() ==> all_mentioned(start, more).no_duplicates(),
        all_mentioned(start, more).len() >= start.len(),
        all_mentioned(start, more).take(start.len() as int) == start,
    decreases more.len(),
{
    let result = all_mentioned(start, more);
    if more.len() == 0 {
        assert(result.take(start.len() as int) =~= start);
    } else {
        let front = more.drop_last();
        let before = all_mentioned(start, front);
        lemma_all_mentioned(start, front);
        assert forall|p: u32| #[trigger] result.contains(p) <==> start.contains(p)
            || more.contains(p) by {
            lemma_pushed_contains(before, more.last(), p);
            lemma_pushed_contains(front, more.last(), p);
            assert(front.push(more.last()) =~= more);
        }
        if start.no_duplicates() && !before.contains(more.last()) {
            assert(result == before.push(more.last()));
            assert(result.no_duplicates());
        }
        assert(result.take(start.len() as int) =~= before.take(start.len() as int));
    }
}

pub proof fn lemma_pushed_contains(pages: Seq<u32>, last: u32, p: u32)
    ensures
        pages.push(last).contains(p) <==> pages.contains(p) || last == p,
{
    assert(pages.push(last)[pages.len() as int] == last);
    if pages.contains(p) {
        let i = choose|i: int| 0 <= i < pages.len() && pages[i] == p;
        assert(pages.push(last)[i] == p);
    }
}

pub proof fn lemma_selected_contains(pages: Seq<u32>, keep: spec_fn(u32) -> bool)
    ensures
        forall|p: u32| #[trigger] selected(pages, keep).contains(p) <==> pages.contains(p) && keep(p),
        pages.no_duplicates() ==> selected(pages, keep).no_duplicates(),
        selected(pages, keep).len() <= pages.len(),
    decreases pages.len(),
{
    if pages.len() > 0 {
        let front = pages.drop_last();
        lemma_selected_contains(front, keep);
        assert(front.push(pages.last()) =~= pages);
        assert forall|p: u32| #[trigger] selected(pages, keep).contains(p) <==> pages.contains(p)
            && keep(p) by {
            lemma_pushed_contains(selected(front, keep), pages.last(), p);
            lemma_pushed_contains(front, pages.last(), p);
        }
        if pages.no_duplicates() && keep(pages.last()) {
            assert(!front.contains(pages.last())) by {
                if front.contains(pages.last()) {
                    let i = choose|i: int| 0 <= i < front.len() && front[i] == pages.last();
                    assert(pages[i] == pages[pages.len() - 1]);
                }
            }
            assert(front.no_duplicates());
            assert(!selected(front, keep).contains(pages.last()));
        }
    }
}

/// Distinct pages below `total`, as many as there are, are all of them.
pub proof fn lemma_full_sequence(pages: Seq<u32>, total: u32, p: u32)
    requires
        pages.no_duplicates(),
        forall|q: u32| pages.contains(q) ==> q < total,
        pages.len() >= total,
        p < total,
    ensures
        pages.contains(p),
        pages.len() == total,
{
    let all = vstd::set_lib::set_int_range(0, total as int);
    vstd::set_lib::lemma_int_range(0, total as int);
    let ints = pages.map_values(|q: u32| q as int);
    assert(ints.no_duplicates()) by {
        assert forall|i: int, j: int| 0 <= i < ints.len() && 0 <= j < ints.len() && i != j implies
            ints[i] != ints[j] by {
            assert(pages[i] != pages[j]);
        }
    }
    ints.unique_seq_to_set();
    assert(ints.to_set().subset_of(all)) by {
        assert forall|x: int| ints.to_set().contains(x) implies all.contains(x) by {
            let i = choose|i: int| 0 <= i < ints.len() && ints[i] == x;
            assert(pages.contains(pages[i]));
        }
    }
    vstd::set_lib::lemma_len_subset(ints.to_set(), all);
    vstd::set_lib::lemma_subset_equality(ints.to_set(), all);
    assert(all.contains(p as int));
    let i = choose|i: int| 0 <= i < ints.len() && ints[i] == p as int;
    assert(pages[i] == p);
}

/// Once every page is mentioned, further mentions change nothing.
pub proof fn lemma_full_is_final(pages: Seq<u32>, more: Seq<u32>, total: u32)
    requires
        pages.no_duplicates(),
        forall|q: u32| pages.contains(q) ==> q < total,
        pages.len() >= total,
        forall|i: int| 0 <= i < more.len() ==> (#[trigger] more[i]) < total,
    ensures
        all_mentioned(pages, more) == pages,
    decreases more.len(),
{
    if more.len() > 0 {
        assert forall|i: int| 0 <= i < more.drop_last().len() implies (
        #[trigger] more.drop_last()[i]) < total by {
            assert(more.drop_last()[i] == more[i]);
        }
        lemma_full_is_final(pages, more.drop_last(), total);
        assert(more[more.len() - 1] < total);
        lemma_full_sequence(pages, total, more.last());
    }
}

/// Selecting from a concatenation selects from its parts.
pub proof fn lemma_selected_concat(a: Seq<u32>, b: Seq<u32>, keep: spec_fn(u32) -> bool)
    ensures
        selected(a + b, keep) == selected(a, keep) + selected(b, keep),
    decreases b.len(),
{
    if b.len() == 0 {
        assert(a + b =~= a);
        assert(selected(a, keep) + b =~= selected(a, keep));
    } else {
        lemma_selected_concat(a, b.drop_last(), keep);
        assert((a + b).drop_last() =~= a + b.drop_last());
        assert(selected(a, keep) + selected(b.drop_last(), keep).push(b.last()) =~= (selected(
            a,
            keep,
        ) + selected(b.drop_last(), keep)).push(b.last()));
    }
}

/// A prefix that is accepted throughout leads the whole.
pub proof fn lemma_leading_concat(a: Seq<u32>, b: Seq<u32>, keep: spec_fn(u32) -> bool)
    requires
        forall|i: int| 0 <= i < a.len() ==> keep(#[trigger] a[i]),
    ensures
        leading(a + b, keep) == a + leading(b, keep),
    decreases a.len(),
{
    if a.len() == 0 {
        assert(a + b =~= b);
        assert(a + leading(b, keep) =~= leading(b, keep));
    } else {
        let rest = a.drop_first();
        assert forall|i: int| 0 <= i < rest.len() implies keep(#[trigger] rest[i]) by {
            assert(rest[i] == a[i + 1]);
        }
        lemma_leading_concat(rest, b, keep);
        assert((a + b).drop_first() =~= rest + b);
        assert((a + b)[0] == a[0]);
        assert(seq![a[0]] + (rest + leading(b, keep)) =~= a + leading(b, keep));
    }
}

} // verus!
