//! Walking through the grid with the keyboard, and the outcome of a frame.
use std::collections::{HashMap, HashSet};

use vstd::prelude::*;
use vstd::std_specs::iter::IteratorSpec;

use super::entries::{is_entry_openable, openable_at, BookViewState, LibraryEntry};
use crate::num::{least, min_usize, monus, saturating_mul_usize};
use crate::sorting::{
    is_weak_order, law_sorting_keeps_the_elements, law_sorting_sorts, stable_sort, Sortable,
};

verus! {

/// A click with a modifier key.
#[derive(Clone, Copy, Debug, PartialEq, Eq, Structural)]
pub enum MultiClick {
    Ctrl(usize),
    Shift(usize),
}

#[derive(Clone, Copy, Debug, PartialEq, Eq, Structural)]
pub enum KeyboardSelection {
    Plain(usize),
    Shift(usize),
}

impl KeyboardSelection {
    pub open spec fn index(self) -> usize {
        match self {
            KeyboardSelection::Plain(idx) => idx,
            KeyboardSelection::Shift(idx) => idx,
        }
    }

    pub fn idx(self) -> (idx: usize)
        ensures
            idx == self.index(),
    {
        match self {
            KeyboardSelection::Plain(idx) => idx,
            KeyboardSelection::Shift(idx) => idx,
        }
    }
}

/// The keys that a frame found pressed.
#[derive(Clone, Copy, Debug, PartialEq, Eq, Structural)]
pub struct GridNavInput {
    pub left: bool,
    pub right: bool,
    pub up: bool,
    pub down: bool,
    pub pgup: bool,
    pub pgdn: bool,
    pub home: bool,
    pub end: bool,
    pub enter: bool,
    pub shift: bool,
}

/// Rows and columns of the grid.
#[derive(Clone, Copy, Debug, PartialEq, Eq, Structural)]
pub struct GridLayout {
    pub cols: usize,
    pub rows: usize,
    pub visible_rows: usize,
}

/// How many rows of `cols` hold `count` entries.
pub open spec fn rows_for(count: nat, cols: nat) -> nat {
    if count % cols == 0 {
        count / cols
    } else {
        count / cols + 1
    }
}

/// The layout for `entry_count` entries; how many columns and rows fit, the caller measures.
pub fn build_grid_layout(entry_count: usize, cols: usize, visible_rows: usize) -> (layout:
    GridLayout)
    requires
        cols >= 1,
    ensures
        layout.cols == cols,
        layout.visible_rows == visible_rows,
        layout.rows == rows_for(entry_count as nat, cols as nat),
{
    let whole: usize = entry_count / cols;
    let rest: usize = entry_count % cols;
    assert(rest > 0 ==> whole < usize::MAX) by (nonlinear_arith)
        requires
            whole == entry_count / cols,
            rest == entry_count % cols,
            cols >= 1,
            entry_count <= usize::MAX,
    ;
    let rows: usize = if rest == 0 {
        whole
    } else {
        whole + 1
    };
    GridLayout { cols, rows, visible_rows }
}

/// Every entry has its place: its row is one of the rows of the grid.
pub proof fn law_rows_hold_all_entries(count: nat, cols: nat, idx: nat)
    requires
        cols >= 1,
        idx < count,
    ensures
        idx / cols < rows_for(count, cols),
        (idx / cols) * cols + idx % cols == idx,
{
    assert(idx / cols < rows_for(count, cols) && (idx / cols) * cols + idx % cols == idx)
        by (nonlinear_arith)
        requires
            cols >= 1,
            idx < count,
            rows_for(count, cols) == if count % cols == 0 {
                count / cols
            } else {
                count / cols + 1
            },
    ;
}

impl GridNavInput {
    pub open spec fn moves(self) -> bool {
        self.left || self.right || self.up || self.down || self.pgup || self.pgdn || self.home
            || self.end
    }

    /// Where the keys lead from an entry, within the grid. One key counts, in this order: right,
    /// left, down, up, page down, page up, end, home.
    pub open spec fn leads_to(self, from: nat, count: nat, layout: GridLayout) -> nat {
        let last = count - 1;
        let page = layout.cols as nat * layout.visible_rows as nat;
        (if self.right {
            least(from as int + 1, last)
        } else if self.left {
            monus(from, 1) as int
        } else if self.down {
            least(from as int + layout.cols, last)
        } else if self.up {
            monus(from, layout.cols as nat) as int
        } else if self.pgdn {
            least((from + page) as int, last)
        } else if self.pgup {
            monus(from, page) as int
        } else if self.end {
            last
        } else {
            0
        }) as nat
    }
}

/// The entry that the keys select.
pub open spec fn key_selection(
    input: GridNavInput,
    selected: Option<usize>,
    count: nat,
    layout: GridLayout,
) -> Option<KeyboardSelection> {
    if input.moves() && count > 0 {
        let from = match selected {
            Some(idx) => idx as nat,
            None => 0,
        };
        let idx = input.leads_to(from, count, layout) as usize;
        Some(
            if input.shift {
                KeyboardSelection::Shift(idx)
            } else {
                KeyboardSelection::Plain(idx)
            },
        )
    } else {
        None
    }
}

pub fn select_by_keys(
    input: &GridNavInput,
    selected_idx: Option<usize>,
    count: usize,
    layout: &GridLayout,
) -> (selection: Option<KeyboardSelection>)
    ensures
        selection == key_selection(*input, selected_idx, count as nat, *layout),
{
    let any: bool = input.left || input.right || input.up || input.down || input.pgup
        || input.pgdn || input.home || input.end;
    if !any || count == 0 {
        return None;
    }
    let from: usize = match selected_idx {
        Some(idx) => idx,
        None => 0,
    };
    let last: usize = count - 1;
    let page: usize = saturating_mul_usize(layout.cols, layout.visible_rows);
    let idx: usize = if input.right {
        min_usize(from.saturating_add(1), last)
    } else if input.left {
        from.saturating_sub(1)
    } else if input.down {
        min_usize(from.saturating_add(layout.cols), last)
    } else if input.up {
        from.saturating_sub(layout.cols)
    } else if input.pgdn {
        min_usize(from.saturating_add(page), last)
    } else if input.pgup {
        from.saturating_sub(page)
    } else if input.end {
        last
    } else {
        0
    };
    if input.shift {
        Some(KeyboardSelection::Shift(idx))
    } else {
        Some(KeyboardSelection::Plain(idx))
    }
}

/// From an entry of the grid the keys lead to an entry of the grid.
pub proof fn law_keys_stay_in_the_grid(
    input: GridNavInput,
    selected: Option<usize>,
    count: nat,
    layout: GridLayout,
)
    requires
        selected matches Some(idx) ==> idx < count,
        count <= usize::MAX,
    ensures
        key_selection(input, selected, count, layout) matches Some(selection)
            ==> selection.index() < count,
{
}

/// The entry that Enter opens: the one that the keys select, else the selected one, if it can be
/// opened.
pub open spec fn key_opened(
    input: GridNavInput,
    key_selected: Option<KeyboardSelection>,
    selected: Option<usize>,
    entries: Seq<LibraryEntry>,
    states: Map<u64, BookViewState>,
) -> Option<usize> {
    let idx = match key_selected {
        Some(selection) => Some(selection.index()),
        None => selected,
    };
    if input.enter && (idx matches Some(i) && openable_at(entries, states, i as int)) {
        idx
    } else {
        None
    }
}

pub fn opened_by_keys(
    input: &GridNavInput,
    key_selected: Option<KeyboardSelection>,
    selected_idx: Option<usize>,
    entries: &Vec<LibraryEntry>,
    book_states: &HashMap<u64, BookViewState>,
) -> (opened: Option<usize>)
    ensures
        opened == key_opened(*input, key_selected, selected_idx, entries@, book_states@),
{
    if !input.enter {
        return None;
    }
    let idx: Option<usize> = match key_selected {
        Some(selection) => Some(selection.idx()),
        None => selected_idx,
    };
    match idx {
        Some(i) => if is_entry_openable(entries, book_states, i) {
            idx
        } else {
            None
        },
        None => None,
    }
}

/// The row to bring into view after the keys selected an entry.
pub fn row_to_follow(key_selected: Option<KeyboardSelection>, layout: &GridLayout) -> (row: Option<
    usize,
>)
    requires
        layout.cols >= 1,
    ensures
        row == match key_selected {
            Some(selection) => Some((selection.index() / layout.cols) as usize),
            None => None,
        },
{
    match key_selected {
        Some(selection) => Some(selection.idx() / layout.cols),
        None => None,
    }
}

pub open spec fn ascending(targets: Seq<usize>) -> bool {
    forall|i: int, j: int| 0 <= i < j < targets.len() ==> targets[i] < targets[j]
}

/// Whether `targets` are the entries of the set and the selected one, in ascending order.
pub open spec fn are_targets(targets: Seq<usize>, selected: Option<usize>, set: Set<usize>) -> bool {
    &&& ascending(targets)
    &&& forall|idx: usize| #[trigger]
        targets.contains(idx) <==> set.contains(idx) || selected == Some(idx)
}

/// There is one list of targets.
pub proof fn law_targets_are_determined(
    a: Seq<usize>,
    b: Seq<usize>,
    selected: Option<usize>,
    set: Set<usize>,
)
    requires
        are_targets(a, selected, set),
        are_targets(b, selected, set),
    ensures
        a == b,
    decreases a.len(),
{
    if a.len() == 0 {
        if b.len() > 0 {
            assert(b.contains(b[0]));
            assert(a.contains(b[0]));
        }
        assert(a =~= b);
    } else {
        assert(a.contains(a.last()));
        assert(b.contains(a.last()));
        assert(b.contains(b.last()));
        assert(a.contains(b.last()));
        let i = choose|i: int| 0 <= i < b.len() && b[i] == a.last();
        let j = choose|j: int| 0 <= j < a.len() && a[j] == b.last();
        assert(i < b.len() - 1 ==> b[i] < b[b.len() - 1]);
        assert(j < a.len() - 1 ==> a[j] < a[a.len() - 1]);
        let last = a.last();
        assert(b.last() == last);
        let rest = Set::new(
            |idx: usize| idx != last && (set.contains(idx) || selected == Some(idx)),
        );
        lemma_targets_without_the_last(a, selected, set);
        lemma_targets_without_the_last(b, selected, set);
        law_targets_are_determined(a.drop_last(), b.drop_last(), None, rest);
        assert(a =~= a.drop_last().push(last));
        assert(b =~= b.drop_last().push(last));
    }
}

proof fn lemma_targets_without_the_last(
    targets: Seq<usize>,
    selected: Option<usize>,
    set: Set<usize>,
)
    requires
        are_targets(targets, selected, set),
        targets.len() > 0,
    ensures
        are_targets(
            targets.drop_last(),
            None,
            Set::new(
                |idx: usize|
                    idx != targets.last() && (set.contains(idx) || selected == Some(idx)),
            ),
        ),
{
    let front = targets.drop_last();
    assert forall|idx: usize| #[trigger] front.contains(idx) <==> idx != targets.last() && (
    set.contains(idx) || selected == Some(idx)) by {
        if front.contains(idx) {
            let i = choose|i: int| 0 <= i < front.len() && front[i] == idx;
            assert(targets[i] == idx);
            assert(targets[i] < targets[targets.len() - 1]);
            assert(targets.contains(idx));
        }
        if idx != targets.last() && targets.contains(idx) {
            let i = choose|i: int| 0 <= i < targets.len() && targets[i] == idx;
            assert(front[i] == idx);
        }
    }
}

/// The members of a set, in the order in which it is walked.
fn members(set: &HashSet<usize>) -> (list: Vec<usize>)
    ensures
        list@.no_duplicates(),
        list@.to_set() == set@,
        list@.len() == set@.len(),
{
    broadcast use vstd::std_specs::hash::group_hash_axioms;

    let mut list: Vec<usize> = Vec::new();
    let ghost all = set.iter().remaining().unref();
    for idx in walk: set.iter()
        invariant
            walk.seq().unref() == all,
            list@.len() == walk.index(),
            forall|k: int| 0 <= k < list@.len() ==> list@[k] == *walk.seq()[k],
    {
        list.push(*idx);
    }
    assert(list@ =~= all);
    list
}

/// The entries that a menu speaks of: the set and the selected one, in ascending order.
pub fn collect_context_targets(selected_idx: Option<usize>, selected_set: &HashSet<usize>) -> (targets:
    Vec<usize>)
    ensures
        are_targets(targets@, selected_idx, selected_set@),
        targets@.len() == selection_count(selected_idx, selected_set@),
{
    broadcast use vstd::std_specs::hash::group_hash_axioms;

    let mut found: Vec<usize> = members(selected_set);
    let ghost walked = found@;
    if let Some(primary) = selected_idx {
        if !selected_set.contains(&primary) {
            found.push(primary);
        }
    }
    let ghost all = found@;
    let targets: Vec<usize> = stable_sort(found);
    proof {
        assert(is_weak_order::<usize>());
        law_sorting_sorts(all);
        law_sorting_keeps_the_elements(all);
        all.to_multiset_ensures();
        targets@.to_multiset_ensures();
        assert forall|idx: usize| #[trigger]
            targets@.contains(idx) <==> selected_set@.contains(idx) || selected_idx == Some(
                idx,
            ) by {
            assert(targets@.contains(idx) <==> targets@.to_multiset().count(idx) > 0);
            assert(all.contains(idx) <==> all.to_multiset().count(idx) > 0);
            assert(walked.contains(idx) <==> walked.to_set().contains(idx));
            if all.contains(idx) {
                let i = choose|i: int| 0 <= i < all.len() && all[i] == idx;
                if i < walked.len() {
                    assert(walked[i] == idx);
                }
            }
            if walked.contains(idx) {
                let i = choose|i: int| 0 <= i < walked.len() && walked[i] == idx;
                assert(all[i] == idx);
            }
            if selected_idx == Some(idx) && !selected_set@.contains(idx) {
                assert(all[walked.len() as int] == idx);
            }
        }
        assert(all.no_duplicates()) by {
            assert forall|a: int, b: int|
                0 <= a < all.len() && 0 <= b < all.len() && a != b implies all[a] != all[b] by {
                if a < walked.len() && b < walked.len() {
                    assert(walked[a] != walked[b]);
                } else {
                    let k = if a < walked.len() {
                        a
                    } else {
                        b
                    };
                    assert(walked.contains(walked[k]));
                    assert(walked.to_set().contains(walked[k]));
                }
            }
        }
        all.lemma_multiset_has_no_duplicates();
        targets@.lemma_multiset_has_no_duplicates_conv();
        assert forall|i: int, j: int| 0 <= i < j < targets@.len() implies targets@[i]
            < targets@[j] by {
            assert(!targets@[j].precedes(&targets@[i]));
            assert(targets@[i] != targets@[j]);
        }
    }
    targets
}

/// How many entries are selected.
pub open spec fn selection_count(selected: Option<usize>, set: Set<usize>) -> nat {
    if selected matches Some(idx) && !set.contains(idx) {
        set.len() + 1
    } else {
        set.len()
    }
}

/// How many entries are selected, as far as can be counted.
pub fn count_selected(selected_idx: Option<usize>, selected_set: &HashSet<usize>) -> (count: usize)
    requires
        selected_set@.len() < usize::MAX,
    ensures
        count == selection_count(selected_idx, selected_set@),
{
    broadcast use vstd::std_specs::hash::group_hash_axioms;

    match selected_idx {
        Some(idx) => if selected_set.contains(&idx) {
            selected_set.len()
        } else {
            selected_set.len() + 1
        },
        None => selected_set.len(),
    }
}

/// Whether keys are for the grid: it is live, has entries, and no text field or menu takes them.
pub fn takes_keys(
    interaction_enabled: bool,
    has_text_focus: bool,
    has_entries: bool,
    popup_input_blocked: bool,
) -> (takes: bool)
    ensures
        takes == (interaction_enabled && !has_text_focus && has_entries && !popup_input_blocked),
{
    interaction_enabled && !has_text_focus && has_entries && !popup_input_blocked
}

/// The rows of a grid hold all entries, and the last of them holds one at least.
pub proof fn law_no_row_is_empty(count: nat, cols: nat)
    requires
        cols >= 1,
    ensures
        count <= rows_for(count, cols) * cols,
        count > 0 ==> rows_for(count, cols) > 0 && (rows_for(count, cols) - 1) * cols < count,
        count == 0 ==> rows_for(count, cols) == 0,
{
    let q = count / cols;
    let r = count % cols;
    assert(count == q * cols + r && r < cols) by (nonlinear_arith)
        requires
            q == count / cols,
            r == count % cols,
            cols >= 1,
    ;
    assert((q + 1) * cols == q * cols + cols) by (nonlinear_arith);
    if r == 0 && count > 0 {
        assert(q > 0) by (nonlinear_arith)
            requires
                count == q * cols,
                count > 0,
        ;
        assert((q - 1) * cols == q * cols - cols) by (nonlinear_arith);
    }
}

/// Where a single key leads from an entry of the grid: one entry aside, one row up or down, one
/// screen of rows up or down, or to an end; never beyond an end.
pub proof fn law_keys_lead_where_they_say(from: nat, count: nat, layout: GridLayout)
    requires
        from < count,
    ensures
        ({
            let still = GridNavInput {
                left: false,
                right: false,
                up: false,
                down: false,
                pgup: false,
                pgdn: false,
                home: false,
                end: false,
                enter: false,
                shift: false,
            };
            let right = (GridNavInput { right: true, ..still }).leads_to(from, count, layout);
            let left = (GridNavInput { left: true, ..still }).leads_to(from, count, layout);
            let down = (GridNavInput { down: true, ..still }).leads_to(from, count, layout);
            let up = (GridNavInput { up: true, ..still }).leads_to(from, count, layout);
            let pgdn = (GridNavInput { pgdn: true, ..still }).leads_to(from, count, layout);
            let pgup = (GridNavInput { pgup: true, ..still }).leads_to(from, count, layout);
            let home = (GridNavInput { home: true, ..still }).leads_to(from, count, layout);
            let end = (GridNavInput { end: true, ..still }).leads_to(from, count, layout);
            let page = layout.cols * layout.visible_rows;
            &&& from + 1 < count ==> right == from + 1
            &&& from + 1 == count ==> right == from
            &&& from > 0 ==> left == from - 1
            &&& from == 0 ==> left == 0
            &&& from + layout.cols < count ==> down == from + layout.cols
            &&& from + layout.cols >= count ==> down == count - 1
            &&& from >= layout.cols ==> up == from - layout.cols
            &&& from < layout.cols ==> up == 0
            &&& from + page < count ==> pgdn == from + page
            &&& from + page >= count ==> pgdn == count - 1
            &&& from >= page ==> pgup == from - page
            &&& from < page ==> pgup == 0
            &&& home == 0 && end == count - 1
        }),
{
    assert(layout.cols * layout.visible_rows >= 0) by (nonlinear_arith);
}

/// Keys that move select an entry, from the first one on where none is selected; with shift the
/// selection is extended.
pub proof fn law_moving_keys_select(
    input: GridNavInput,
    selected: Option<usize>,
    count: nat,
    layout: GridLayout,
)
    ensures
        input.shift ==> !(key_selection(input, selected, count, layout) matches Some(selection)
            && selection is Plain),
        !input.shift ==> !(key_selection(input, selected, count, layout) matches Some(selection)
            && selection is Shift),
        count == 0 ==> key_selection(input, selected, count, layout) is None,
        !input.left && !input.right && !input.up && !input.down && !input.pgup && !input.pgdn
            && !input.home && !input.end ==> key_selection(input, selected, count, layout) is None,
        key_selection(input, None, count, layout) == key_selection(input, Some(0), count, layout),
        count > 0 && (input.left || input.right || input.up || input.down || input.pgup
            || input.pgdn || input.home || input.end) ==> key_selection(
            input,
            selected,
            count,
            layout,
        ) is Some,
{
}

/// Enter opens the entry that the keys lead to, else the selected one, and only one that can be
/// opened.
pub proof fn law_enter_opens_the_selected_entry(
    input: GridNavInput,
    led_to: KeyboardSelection,
    selected: usize,
    entries: Seq<LibraryEntry>,
    states: Map<u64, BookViewState>,
)
    ensures
        !input.enter ==> key_opened(input, Some(led_to), Some(selected), entries, states) is None,
        input.enter && openable_at(entries, states, led_to.index() as int) ==> key_opened(
            input,
            Some(led_to),
            Some(selected),
            entries,
            states,
        ) == Some(led_to.index()),
        input.enter && openable_at(entries, states, selected as int) ==> key_opened(
            input,
            None,
            Some(selected),
            entries,
            states,
        ) == Some(selected),
        key_opened(input, None, None, entries, states) is None,
        key_opened(input, Some(led_to), Some(selected), entries, states) matches Some(idx) ==> idx
            == led_to.index() && idx < entries.len(),
{
}

/// An entry that is selected and in the set counts once.
pub proof fn law_selected_entries_count_once(selected: usize, set: Set<usize>)
    requires
        set.finite(),
    ensures
        set.contains(selected) ==> selection_count(Some(selected), set) == set.len(),
        !set.contains(selected) ==> selection_count(Some(selected), set) == set.len() + 1,
        selection_count(None, set) == set.len(),
        selection_count(Some(selected), set) == set.insert(selected).len(),
{
}

} // verus!
