//! Stable sorting by an order of the element type.
use vstd::prelude::*;

verus! {

/// An order of a type: which of two values comes first. Neither comes first where the order
/// does not tell them apart.
pub trait Sortable: Sized {
    spec fn precedes(&self, other: &Self) -> bool;

    fn is_before(&self, other: &Self) -> (before: bool)
        ensures
            before == self.precedes(other),
            before ==> !other.precedes(self),
    ;
}

/// Smaller numbers first.
impl Sortable for usize {
    open spec fn precedes(&self, other: &Self) -> bool {
        *self < *other
    }

    fn is_before(&self, other: &Self) -> (before: bool) {
        *self < *other
    }
}

/// Where `x` goes in `sorted`: behind the last element that it does not precede.
pub open spec fn insertion_point<T: Sortable>(sorted: Seq<T>, x: T) -> int
    decreases sorted.len(),
{
    if sorted.len() == 0 {
        0
    } else if x.precedes(&sorted.last()) {
        insertion_point(sorted.drop_last(), x)
    } else {
        sorted.len() as int
    }
}

/// The elements in order; elements that the order does not tell apart stay as they were.
pub open spec fn stable_sorted<T: Sortable>(items: Seq<T>) -> Seq<T>
    decreases items.len(),
{
    if items.len() == 0 {
        items
    } else {
        let before = stable_sorted(items.drop_last());
        before.insert(insertion_point(before, items.last()), items.last())
    }
}

/// No element stands directly behind one that it precedes.
pub open spec fn in_order<T: Sortable>(items: Seq<T>) -> bool {
    forall|i: int| 1 <= i < items.len() ==> !(#[trigger] items[i]).precedes(&items[i - 1])
}

/// The elements as [`stable_sorted`] has them.
pub fn stable_sort<T: Sortable>(items: Vec<T>) -> (sorted: Vec<T>)
    ensures
        sorted@ == stable_sorted(items@),
        in_order(sorted@),
{
    let ghost all = items@;
    let mut rest: Vec<T> = items;
    let mut reversed: Vec<T> = Vec::new();
    while rest.len() > 0
        invariant
            rest@.len() + reversed@.len() == all.len(),
            rest@ == all.take(rest@.len() as int),
            forall|k: int|
                0 <= k < reversed@.len() ==> #[trigger] reversed@[k] == all[all.len() - 1 - k],
        decreases rest@.len(),
    {
        let ghost before = rest@;
        match rest.pop() {
            Some(x) => {
                reversed.push(x);
                assert(rest@ =~= all.take(rest@.len() as int));
            },
            None => {},
        }
    }
    let mut sorted: Vec<T> = Vec::new();
    let ghost mut done: int = 0;
    assert(all.take(0) =~= Seq::empty());
    while reversed.len() > 0
        invariant
            0 <= done,
            done + reversed@.len() == all.len(),
            sorted@ == stable_sorted(all.take(done)),
            in_order(sorted@),
            forall|k: int|
                0 <= k < reversed@.len() ==> #[trigger] reversed@[k] == all[all.len() - 1 - k],
        decreases reversed@.len(),
    {
        match reversed.pop() {
            Some(x) => {
                let mut k: usize = sorted.len();
                assert(sorted@.take(k as int) =~= sorted@);
                while k > 0 && x.is_before(&sorted[k - 1])
                    invariant
                        k <= sorted@.len(),
                        insertion_point(sorted@, x) == insertion_point(sorted@.take(k as int), x),
                        k < sorted@.len() ==> !sorted@[k as int].precedes(&x),
                    ensures
                        k <= sorted@.len(),
                        k == insertion_point(sorted@, x),
                        k < sorted@.len() ==> !sorted@[k as int].precedes(&x),
                        k > 0 ==> !x.precedes(&sorted@[k - 1]),
                    decreases k,
                {
                    assert(sorted@.take(k as int).drop_last() =~= sorted@.take(k - 1));
                    assert(sorted@.take(k as int).last() == sorted@[k - 1]);
                    k = k - 1;
                    if k == 0 {
                        assert(insertion_point(sorted@.take(0), x) == 0);
                    }
                }
                let ghost before = sorted@;
                sorted.insert(k, x);
                assert forall|i: int| 1 <= i < sorted@.len() implies !(
                #[trigger] sorted@[i]).precedes(&sorted@[i - 1]) by {
                    if i < k {
                        assert(!before[i].precedes(&before[i - 1]));
                    } else if i > k + 1 {
                        assert(!before[i - 1].precedes(&before[i - 2]));
                    }
                }
                proof {
                    assert(all.take(done + 1).drop_last() =~= all.take(done));
                    assert(all.take(done + 1).last() == x);
                    done = done + 1;
                }
            },
            None => {},
        }
    }
    assert(all.take(done) =~= all);
    sorted
}

pub proof fn lemma_insertion_point<T: Sortable>(sorted: Seq<T>, x: T)
    ensures
        0 <= insertion_point(sorted, x) <= sorted.len(),
        forall|k: int|
            insertion_point(sorted, x) <= k < sorted.len() ==> x.precedes(#[trigger] &sorted[k]),
        insertion_point(sorted, x) > 0 ==> !x.precedes(&sorted[insertion_point(sorted, x) - 1]),
    decreases sorted.len(),
{
    if sorted.len() > 0 && x.precedes(&sorted.last()) {
        lemma_insertion_point(sorted.drop_last(), x);
        assert forall|k: int| insertion_point(sorted, x) <= k < sorted.len() implies x.precedes(
            #[trigger] &sorted[k],
        ) by {
            if k < sorted.len() - 1 {
                assert(sorted.drop_last()[k] == sorted[k]);
            }
        }
    }
}

/// Sorting keeps the elements: each occurs as often as before.
pub proof fn law_sorting_keeps_the_elements<T: Sortable>(items: Seq<T>)
    ensures
        stable_sorted(items).to_multiset() == items.to_multiset(),
        stable_sorted(items).len() == items.len(),
    decreases items.len(),
{
    broadcast use vstd::seq_lib::group_to_multiset_ensures;

    if items.len() > 0 {
        let front = items.drop_last();
        law_sorting_keeps_the_elements(front);
        let before = stable_sorted(front);
        lemma_insertion_point(before, items.last());
        let k = insertion_point(before, items.last());
        assert(before.insert(k, items.last()) == before.take(k) + (seq![items.last()]
            + before.skip(k)));
        assert(before =~= before.take(k) + before.skip(k));
        assert(items =~= front.push(items.last()));
        lemma_insert_multiset(before, k, items.last());
    }
}

proof fn lemma_insert_multiset<T>(items: Seq<T>, k: int, x: T)
    requires
        0 <= k <= items.len(),
    ensures
        items.insert(k, x).to_multiset() == items.to_multiset().insert(x),
    decreases items.len() - k,
{
    broadcast use vstd::seq_lib::group_to_multiset_ensures;

    if k == items.len() {
        assert(items.insert(k, x) =~= items.push(x));
    } else {
        let front = items.drop_last();
        lemma_insert_multiset(front, k, x);
        assert(items.insert(k, x) =~= front.insert(k, x).push(items.last()));
        assert(items =~= front.push(items.last()));
        assert(front.to_multiset().insert(x).insert(items.last())
            =~= front.to_multiset().insert(items.last()).insert(x));
    }
}

/// The order tells values apart consistently: never both ways, and what does not precede is
/// passed on.
pub open spec fn is_weak_order<T: Sortable>() -> bool {
    &&& forall|a: T, b: T| #[trigger] a.precedes(&b) ==> !b.precedes(&a)
    &&& forall|a: T, b: T, c: T|
        !(#[trigger] b.precedes(&a)) && !(#[trigger] c.precedes(&b)) ==> !c.precedes(&a)
}

pub open spec fn is_sorted<T: Sortable>(items: Seq<T>) -> bool {
    forall|i: int, j: int|
        0 <= i < j < items.len() ==> !(#[trigger] items[j]).precedes(#[trigger] &items[i])
}

/// Sorting by a consistent order puts nothing behind what it precedes.
pub proof fn law_sorting_sorts<T: Sortable>(items: Seq<T>)
    requires
        is_weak_order::<T>(),
    ensures
        is_sorted(stable_sorted(items)),
    decreases items.len(),
{
    if items.len() > 0 {
        let x = items.last();
        let before = stable_sorted(items.drop_last());
        law_sorting_sorts(items.drop_last());
        lemma_insertion_point(before, x);
        let k = insertion_point(before, x);
        let after = before.insert(k, x);
        assert forall|i: int, j: int| 0 <= i < j < after.len() implies !(
        #[trigger] after[j]).precedes(#[trigger] &after[i]) by {
            if i < k && j < k {
                assert(after[i] == before[i] && after[j] == before[j]);
            } else if i < k && j == k {
                assert(after[j] == x && after[i] == before[i]);
                if i < k - 1 {
                    assert(!before[k - 1].precedes(&before[i]));
                }
            } else if i < k && j > k {
                assert(after[i] == before[i] && after[j] == before[j - 1]);
            } else if i == k {
                assert(after[i] == x && after[j] == before[j - 1]);
                assert(x.precedes(&before[j - 1]));
            } else {
                assert(after[i] == before[i - 1] && after[j] == before[j - 1]);
            }
        }
    }
}

/// Whether the order tells all the elements apart.
pub open spec fn all_told_apart<T: Sortable>(items: Seq<T>) -> bool {
    forall|i: int, j: int|
        0 <= i < j < items.len() ==> (#[trigger] items[i]).precedes(&items[j]) || (
        #[trigger] items[j]).precedes(&items[i])
}

/// Elements that a consistent order tells apart are sorted the same way, in whatever order they
/// are given.
pub proof fn law_sorting_forgets_the_order<T: Sortable>(a: Seq<T>, b: Seq<T>)
    requires
        is_weak_order::<T>(),
        all_told_apart(a),
        a.to_multiset() == b.to_multiset(),
    ensures
        stable_sorted(a) == stable_sorted(b),
{
    law_sorting_keeps_the_elements(a);
    law_sorting_keeps_the_elements(b);
    law_sorting_sorts(a);
    law_sorting_sorts(b);
    let sorted = stable_sorted(a);
    a.to_multiset_ensures();
    sorted.to_multiset_ensures();
    assert forall|x: T, y: T| sorted.contains(x) && sorted.contains(y) && x != y implies x.precedes(
        &y,
    ) || y.precedes(&x) by {
        assert(a.to_multiset().count(x) > 0 && a.to_multiset().count(y) > 0);
        assert(a.contains(x) && a.contains(y));
        let i = choose|i: int| 0 <= i < a.len() && a[i] == x;
        let j = choose|j: int| 0 <= j < a.len() && a[j] == y;
        if i < j {
            assert(a[i].precedes(&a[j]) || a[j].precedes(&a[i]));
        } else {
            assert(a[j].precedes(&a[i]) || a[i].precedes(&a[j]));
        }
    }
    lemma_sorted_once(sorted, stable_sorted(b));
}

/// There is one sorted order of elements that are told apart.
proof fn lemma_sorted_once<T: Sortable>(a: Seq<T>, b: Seq<T>)
    requires
        is_sorted(a),
        is_sorted(b),
        a.to_multiset() == b.to_multiset(),
        forall|x: T, y: T|
            #[trigger] a.contains(x) && #[trigger] a.contains(y) && x != y ==> x.precedes(&y)
                || y.precedes(&x),
    ensures
        a == b,
    decreases a.len(),
{
    a.to_multiset_ensures();
    b.to_multiset_ensures();
    assert(a.len() == b.len());
    if a.len() == 0 {
        assert(a =~= b);
    } else {
        let x = a.last();
        let y = b.last();
        assert(a.contains(x));
        assert(b.contains(y));
        assert(a.to_multiset().count(y) > 0);
        assert(b.to_multiset().count(x) > 0);
        assert(a.contains(y) && b.contains(x));
        if x != y {
            let i = choose|i: int| 0 <= i < a.len() && a[i] == y;
            let j = choose|j: int| 0 <= j < b.len() && b[j] == x;
            assert(i < a.len() - 1 && j < b.len() - 1);
            assert(!a[a.len() - 1].precedes(&a[i]));
            assert(!b[b.len() - 1].precedes(&b[j]));
            assert(x.precedes(&y) || y.precedes(&x));
        }
        let a_front = a.drop_last();
        let b_front = b.drop_last();
        assert(a =~= a_front.push(x));
        assert(b =~= b_front.push(y));
        a_front.to_multiset_ensures();
        b_front.to_multiset_ensures();
        assert(a_front.to_multiset() =~= b_front.to_multiset()) by {
            assert forall|z: T| a_front.to_multiset().count(z) == b_front.to_multiset().count(z) by {
                assert(a.to_multiset().count(z) == a_front.to_multiset().insert(x).count(z));
                assert(b.to_multiset().count(z) == b_front.to_multiset().insert(y).count(z));
            }
        }
        assert forall|u: T, v: T|
            #[trigger] a_front.contains(u) && #[trigger] a_front.contains(v) && u != v implies u.precedes(
            &v,
        ) || v.precedes(&u) by {
            let i = choose|i: int| 0 <= i < a_front.len() && a_front[i] == u;
            let j = choose|j: int| 0 <= j < a_front.len() && a_front[j] == v;
            assert(a[i] == u && a[j] == v);
            assert(a.contains(u) && a.contains(v));
        }
        assert(is_sorted(a_front)) by {
            assert forall|i: int, j: int| 0 <= i < j < a_front.len() implies !(
            #[trigger] a_front[j]).precedes(#[trigger] &a_front[i]) by {
                assert(!a[j].precedes(&a[i]));
            }
        }
        assert(is_sorted(b_front)) by {
            assert forall|i: int, j: int| 0 <= i < j < b_front.len() implies !(
            #[trigger] b_front[j]).precedes(#[trigger] &b_front[i]) by {
                assert(!b[j].precedes(&b[i]));
            }
        }
        lemma_sorted_once(a_front, b_front);
    }
}

} // verus!
