//! From one book of a directory to the next.
use std::cmp::Ordering;

use vstd::prelude::*;
use vstd::string::*;

use super::archive_path::{
    is_supported_archive_path, is_supported_image_path, possibly_archive, possibly_image,
    surely_archive, surely_image,
};
use super::natural_sort::{is_naturally_before, natural_order};
use super::path_text::{
    alike, file_name, is_read, path_file_name, same_path, text_of, told_apart,
};
use crate::sorting::{
    in_order, law_sorting_keeps_the_elements, stable_sort, stable_sorted, Sortable,
};
use crate::text::texts;

verus! {

#[derive(Clone, Copy, Debug, PartialEq, Eq, Structural)]
pub enum NavDirection {
    Previous,
    Next,
}

/// The book to move to from the book at `current` in a row of `len`: none at either end, but
/// that the first follows the last where the row wraps.
pub open spec fn move_target(
    len: nat,
    current: nat,
    direction: NavDirection,
    wrap_next: bool,
) -> Option<nat> {
    if len <= 1 || current >= len {
        None
    } else {
        match direction {
            NavDirection::Previous => if current > 0 {
                Some((current - 1) as nat)
            } else {
                None
            },
            NavDirection::Next => if current + 1 < len {
                Some(current + 1)
            } else if wrap_next {
                Some(0)
            } else {
                None
            },
        }
    }
}

pub fn move_target_index(
    len: usize,
    current_index: usize,
    direction: NavDirection,
    wrap_next: bool,
) -> (target: Option<usize>)
    ensures
        target == match move_target(len as nat, current_index as nat, direction, wrap_next) {
            Some(index) => Some(index as usize),
            None => None,
        },
        target matches Some(index) ==> index < len,
{
    if len <= 1 || current_index >= len {
        return None;
    }
    match direction {
        NavDirection::Previous => if current_index > 0 {
            Some(current_index - 1)
        } else {
            None
        },
        NavDirection::Next => if current_index + 1 < len {
            Some(current_index + 1)
        } else if wrap_next {
            Some(0)
        } else {
            None
        },
    }
}

/// A step to the next book that does not wrap is undone by a step to the previous one, and the
/// other way round.
pub proof fn law_steps_undo_each_other(len: nat, current: nat, wrap_next: bool)
    requires
        current < len,
    ensures
        current + 1 < len ==> (move_target(len, current, NavDirection::Next, wrap_next) matches Some(
            next,
        ) && move_target(len, next, NavDirection::Previous, wrap_next) == Some(current)),
        move_target(len, current, NavDirection::Previous, wrap_next) matches Some(previous)
            ==> move_target(len, previous, NavDirection::Next, wrap_next) == Some(current),
{
}

/// The first position at which `same` holds of the path there and `current`.
pub open spec fn first_same(
    paths: Seq<Seq<char>>,
    current: Seq<char>,
    same: spec_fn(Seq<char>, Seq<char>) -> bool,
) -> Option<int>
    decreases paths.len(),
{
    if paths.len() == 0 {
        None
    } else {
        match first_same(paths.drop_last(), current, same) {
            Some(i) => Some(i),
            None => if same(paths.last(), current) {
                Some(paths.len() - 1)
            } else {
                None
            },
        }
    }
}

/// The first position of a path that is `current` on every platform.
pub open spec fn first_index(paths: Seq<Seq<char>>, current: Seq<char>) -> Option<int> {
    first_same(paths, current, |a: Seq<char>, b: Seq<char>| alike(a, b))
}

proof fn lemma_first_same(
    paths: Seq<Seq<char>>,
    current: Seq<char>,
    same: spec_fn(Seq<char>, Seq<char>) -> bool,
)
    ensures
        match first_same(paths, current, same) {
            Some(i) => 0 <= i < paths.len() && same(paths[i], current) && forall|j: int|
                0 <= j < i ==> !same(#[trigger] paths[j], current),
            None => forall|j: int| 0 <= j < paths.len() ==> !same(#[trigger] paths[j], current),
        },
    decreases paths.len(),
{
    if paths.len() > 0 {
        let front = paths.drop_last();
        lemma_first_same(front, current, same);
        assert forall|j: int| 0 <= j < front.len() implies #[trigger] paths[j] == front[j] by {}
    }
}

/// Whether every path is `current` on every platform, or another path on every platform.
pub open spec fn tells(paths: Seq<Seq<char>>, current: Seq<char>) -> bool {
    forall|i: int|
        0 <= i < paths.len() ==> alike(#[trigger] paths[i], current) || told_apart(
            paths[i],
            current,
        )
}

/// Whether `same` can be what a platform takes for the same path.
pub open spec fn is_path_equality(same: spec_fn(Seq<char>, Seq<char>) -> bool) -> bool {
    &&& forall|a: Seq<char>, b: Seq<char>| alike(a, b) ==> #[trigger] same(a, b)
    &&& forall|a: Seq<char>, b: Seq<char>| told_apart(a, b) ==> !#[trigger] same(a, b)
}

/// Whether `current` may be found at this position: a path that could be the same, with none before
/// it that is the same on every platform. It is found where there is such a path.
pub open spec fn may_find(paths: Seq<Seq<char>>, current: Seq<char>, found: Option<int>) -> bool {
    match found {
        Some(i) => {
            &&& 0 <= i < paths.len()
            &&& !told_apart(paths[i], current)
            &&& forall|j: int| 0 <= j < i ==> !alike(#[trigger] paths[j], current)
        },
        None => forall|j: int| 0 <= j < paths.len() ==> !alike(#[trigger] paths[j], current),
    }
}

/// What a platform finds may be found, and where the paths are told from `current` it is the first
/// that is the same on every platform.
pub proof fn law_what_is_found(
    paths: Seq<Seq<char>>,
    current: Seq<char>,
    same: spec_fn(Seq<char>, Seq<char>) -> bool,
)
    requires
        is_path_equality(same),
    ensures
        may_find(paths, current, first_same(paths, current, same)),
        tells(paths, current) ==> first_same(paths, current, same) == first_index(paths, current),
{
    lemma_first_same(paths, current, same);
    let found = first_same(paths, current, same);
    assert forall|j: int| 0 <= j < paths.len() && !same(#[trigger] paths[j], current) implies !alike(
        paths[j],
        current,
    ) by {}
    if let Some(i) = found {
        assert(same(paths[i], current));
    }
    assert(may_find(paths, current, found));
    if tells(paths, current) {
        lemma_found(paths, current, found);
    }
}

proof fn lemma_found(paths: Seq<Seq<char>>, current: Seq<char>, found: Option<int>)
    requires
        tells(paths, current),
        may_find(paths, current, found),
    ensures
        found == first_index(paths, current),
{
    let equal = |a: Seq<char>, b: Seq<char>| alike(a, b);
    lemma_first_same(paths, current, equal);
    match (found, first_index(paths, current)) {
        (Some(i), Some(k)) => {
            assert(alike(paths[i], current));
            assert(equal(paths[k], current));
            if k < i {
                assert(!alike(paths[k], current));
            } else if i < k {
                assert(!equal(paths[i], current));
            }
        },
        (Some(i), None) => {
            assert(alike(paths[i], current));
            assert(!equal(paths[i], current));
        },
        (None, Some(k)) => {
            assert(equal(paths[k], current));
            assert(!alike(paths[k], current));
        },
        (None, None) => {},
    }
}

/// The position of the first path that has the same components as `current`.
fn position_of(paths: &Vec<String>, current: &str) -> (index: Option<usize>)
    ensures
        may_find(texts(paths@), current@, position(index)),
{
    let mut i: usize = 0;
    while i < paths.len()
        invariant
            i <= paths@.len(),
            forall|j: int| 0 <= j < i ==> !alike(#[trigger] texts(paths@)[j], current@),
        decreases paths@.len() - i,
    {
        assert(texts(paths@)[i as int] == paths@[i as int]@);
        if same_path(paths[i].as_str(), current) {
            return Some(i);
        }
        i = i + 1;
    }
    None
}

pub open spec fn position(index: Option<usize>) -> Option<int> {
    match index {
        Some(i) => Some(i as int),
        None => None,
    }
}

/// The path at an index that may lie outside.
pub open spec fn path_at(paths: Seq<Seq<char>>, index: int) -> Option<Seq<char>> {
    if 0 <= index < paths.len() {
        Some(paths[index])
    } else {
        None
    }
}

/// The neighbours of what stands at a position, if it was found.
pub open spec fn beside(paths: Seq<Seq<char>>, found: Option<int>) -> (
    Option<Seq<char>>,
    Option<Seq<char>>,
) {
    match found {
        Some(i) => (path_at(paths, i - 1), path_at(paths, i + 1)),
        None => (None, None),
    }
}

/// The neighbours of a path in a row that tells it from all others.
pub open spec fn neighbours(paths: Seq<Seq<char>>, current: Seq<char>) -> (
    Option<Seq<char>>,
    Option<Seq<char>>,
) {
    beside(paths, first_index(paths, current))
}

/// The neighbours of the path at a position, if it was found.
pub fn paths_beside(paths: &Vec<String>, found: Option<usize>) -> (adjacent: (
    Option<String>,
    Option<String>,
))
    requires
        found matches Some(index) ==> index < paths@.len(),
    ensures
        (text_of(adjacent.0), text_of(adjacent.1)) == beside(texts(paths@), position(found)),
{
    let index: usize = match found {
        Some(index) => index,
        None => {
            return (None, None);
        },
    };
    let previous: Option<String> = if index > 0 {
        Some(paths[index - 1].clone())
    } else {
        None
    };
    let next: Option<String> = if paths.len() - index > 1 {
        Some(paths[index + 1].clone())
    } else {
        None
    };
    (previous, next)
}

/// The paths before and behind `current`; none where it does not occur.
pub fn adjacent_paths(paths: &Vec<String>, current: &str) -> (adjacent: (
    Option<String>,
    Option<String>,
))
    ensures
        exists|found: Option<int>| #[trigger]
            may_find(texts(paths@), current@, found) && (text_of(adjacent.0), text_of(adjacent.1))
                == beside(texts(paths@), found),
        tells(texts(paths@), current@) ==> (text_of(adjacent.0), text_of(adjacent.1)) == neighbours(
            texts(paths@),
            current@,
        ),
{
    let found: Option<usize> = position_of(paths, current);
    assert(texts(paths@).len() == paths@.len());
    let adjacent = paths_beside(paths, found);
    proof {
        assert(may_find(texts(paths@), current@, position(found)));
        if tells(texts(paths@), current@) {
            lemma_found(texts(paths@), current@, position(found));
        }
    }
    adjacent
}

/// The path to move to from what stands at a position, if it was found.
pub open spec fn moved(
    paths: Seq<Seq<char>>,
    found: Option<int>,
    direction: NavDirection,
    wrap_next: bool,
) -> Option<Seq<char>> {
    match found {
        Some(i) => match move_target(paths.len(), i as nat, direction, wrap_next) {
            Some(k) => Some(paths[k as int]),
            None => None,
        },
        None => None,
    }
}

/// The path to move to from the path at a position, if it was found.
pub fn move_target_path_at(
    paths: &Vec<String>,
    found: Option<usize>,
    direction: NavDirection,
    wrap_next: bool,
) -> (target: Option<String>)
    requires
        found matches Some(index) ==> index < paths@.len(),
    ensures
        text_of(target) == moved(texts(paths@), position(found), direction, wrap_next),
{
    match found {
        Some(index) => {
            assert(texts(paths@).len() == paths@.len());
            match move_target_index(paths.len(), index, direction, wrap_next) {
                Some(k) => {
                    assert(texts(paths@)[k as int] == paths@[k as int]@);
                    Some(paths[k].clone())
                },
                None => None,
            }
        },
        None => None,
    }
}

/// The path to move to from `current`.
pub fn move_target_path(
    paths: &Vec<String>,
    current: &str,
    direction: NavDirection,
    wrap_next: bool,
) -> (target: Option<String>)
    ensures
        exists|found: Option<int>| #[trigger]
            may_find(texts(paths@), current@, found) && text_of(target) == moved(
                texts(paths@),
                found,
                direction,
                wrap_next,
            ),
        tells(texts(paths@), current@) ==> text_of(target) == moved(
            texts(paths@),
            first_index(texts(paths@), current@),
            direction,
            wrap_next,
        ),
{
    let found: Option<usize> = position_of(paths, current);
    assert(texts(paths@).len() == paths@.len());
    let target: Option<String> = move_target_path_at(paths, found, direction, wrap_next);
    proof {
        assert(may_find(texts(paths@), current@, position(found)));
        if tells(texts(paths@), current@) {
            lemma_found(texts(paths@), current@, position(found));
        }
    }
    target
}

/// Whatever a platform takes for the same path, a step back leads to the neighbour before, and a step
/// forward to the one behind; but that a row that wraps leads from its last path to its first.
pub proof fn law_steps_lead_to_the_neighbours(
    paths: Seq<Seq<char>>,
    current: Seq<char>,
    same: spec_fn(Seq<char>, Seq<char>) -> bool,
    wrap_next: bool,
)
    ensures
        ({
            let found = first_same(paths, current, same);
            &&& moved(paths, found, NavDirection::Previous, wrap_next) == beside(paths, found).0
            &&& moved(paths, found, NavDirection::Next, false) == beside(paths, found).1
            &&& moved(paths, found, NavDirection::Next, true) == if paths.len() > 1 && found == Some(
                paths.len() - 1,
            ) {
                Some(paths[0])
            } else {
                beside(paths, found).1
            }
        }),
{
    lemma_first_same(paths, current, same);
}

/// Whether no two of the paths are the same for a platform.
pub open spec fn none_twice(
    paths: Seq<Seq<char>>,
    same: spec_fn(Seq<char>, Seq<char>) -> bool,
) -> bool {
    forall|i: int, j: int|
        0 <= i < paths.len() && 0 <= j < paths.len() && i != j ==> !same(
            #[trigger] paths[i],
            #[trigger] paths[j],
        )
}

/// Whatever a platform takes for the same path: in a row without equal paths, a path stands behind
/// another exactly where that one stands before it; the first has none before it, and the last none
/// behind it.
pub proof fn law_neighbours_are_mutual(
    paths: Seq<Seq<char>>,
    c: Seq<char>,
    n: Seq<char>,
    same: spec_fn(Seq<char>, Seq<char>) -> bool,
)
    requires
        is_path_equality(same),
        none_twice(paths, same),
        paths.contains(c),
        paths.contains(n),
    ensures
        ({
            let behind = beside(paths, first_same(paths, c, same)).1;
            let before = beside(paths, first_same(paths, n, same)).0;
            &&& (behind == Some(n)) <==> (before == Some(c))
            &&& (behind == Some(n)) <==> exists|i: int|
                0 <= i < paths.len() - 1 && #[trigger] paths[i] == c && paths[i + 1] == n
        }),
        beside(paths, first_same(paths, paths[0], same)).0 is None,
        beside(paths, first_same(paths, paths.last(), same)).1 is None,
{
    let i = choose|i: int| 0 <= i < paths.len() && paths[i] == c;
    let k = choose|k: int| 0 <= k < paths.len() && paths[k] == n;
    lemma_found_at_its_place(paths, i, same);
    lemma_found_at_its_place(paths, k, same);
    lemma_found_at_its_place(paths, 0, same);
    lemma_found_at_its_place(paths, paths.len() - 1, same);
    if beside(paths, first_same(paths, c, same)).1 == Some(n) {
        assert(paths[i + 1] == n);
        lemma_one_place(paths, i + 1, k, same);
    }
    if beside(paths, first_same(paths, n, same)).0 == Some(c) {
        assert(paths[k - 1] == c);
        lemma_one_place(paths, k - 1, i, same);
        assert(paths[i] == c && paths[i + 1] == n);
    }
    if exists|j: int| 0 <= j < paths.len() - 1 && #[trigger] paths[j] == c && paths[j + 1] == n {
        let j = choose|j: int|
            0 <= j < paths.len() - 1 && #[trigger] paths[j] == c && paths[j + 1] == n;
        lemma_one_place(paths, j, i, same);
    }
}

proof fn lemma_one_place(
    paths: Seq<Seq<char>>,
    i: int,
    j: int,
    same: spec_fn(Seq<char>, Seq<char>) -> bool,
)
    requires
        is_path_equality(same),
        none_twice(paths, same),
        0 <= i < paths.len(),
        0 <= j < paths.len(),
        paths[i] == paths[j],
    ensures
        i == j,
{
    assert(alike(paths[i], paths[j]));
    assert(same(paths[i], paths[j]));
}

proof fn lemma_found_at_its_place(
    paths: Seq<Seq<char>>,
    i: int,
    same: spec_fn(Seq<char>, Seq<char>) -> bool,
)
    requires
        is_path_equality(same),
        none_twice(paths, same),
        0 <= i < paths.len(),
    ensures
        first_same(paths, paths[i], same) == Some(i),
{
    lemma_first_same(paths, paths[i], same);
    assert(alike(paths[i], paths[i]));
    assert(same(paths[i], paths[i]));
    match first_same(paths, paths[i], same) {
        Some(k) => {
            if k != i {
                assert(!same(paths[k], paths[i]));
            }
        },
        None => {
            assert(!same(paths[i], paths[i]));
        },
    }
}

/// A path that is not in the row has no neighbours in it, whatever a platform takes for the same
/// path.
pub proof fn law_strangers_have_no_neighbours(
    paths: Seq<Seq<char>>,
    current: Seq<char>,
    same: spec_fn(Seq<char>, Seq<char>) -> bool,
)
    requires
        forall|i: int| 0 <= i < paths.len() ==> !same(#[trigger] paths[i], current),
    ensures
        beside(paths, first_same(paths, current, same)) == (None::<Seq<char>>, None::<Seq<char>>),
{
    lemma_first_same(paths, current, same);
}

/// The path to move to from a place between two paths: the one before `insertion_index`, or the
/// one at it.
pub open spec fn insertion_target(
    paths: Seq<Seq<char>>,
    insertion_index: int,
    direction: NavDirection,
    wrap_next: bool,
) -> Option<Seq<char>> {
    match direction {
        NavDirection::Previous => path_at(paths, insertion_index - 1),
        NavDirection::Next => if insertion_index < paths.len() {
            path_at(paths, insertion_index)
        } else if wrap_next {
            path_at(paths, 0)
        } else {
            None
        },
    }
}

pub fn move_target_path_from_insertion_index(
    paths: &Vec<String>,
    insertion_index: usize,
    direction: NavDirection,
    wrap_next: bool,
) -> (target: Option<String>)
    ensures
        text_of(target) == insertion_target(
            texts(paths@),
            insertion_index as int,
            direction,
            wrap_next,
        ),
{
    match direction {
        NavDirection::Previous => if insertion_index > 0 && insertion_index - 1 < paths.len() {
            Some(paths[insertion_index - 1].clone())
        } else {
            None
        },
        NavDirection::Next => if insertion_index < paths.len() {
            Some(paths[insertion_index].clone())
        } else if wrap_next && paths.len() > 0 {
            Some(paths[0].clone())
        } else {
            None
        },
    }
}

/// Taking the current book out of a row without equal paths does not change where the steps from it
/// lead, whatever a platform takes for the same path.
pub proof fn law_deletion_keeps_the_targets(
    paths: Seq<Seq<char>>,
    i: int,
    same: spec_fn(Seq<char>, Seq<char>) -> bool,
    direction: NavDirection,
    wrap_next: bool,
)
    requires
        is_path_equality(same),
        none_twice(paths, same),
        0 <= i < paths.len(),
    ensures
        insertion_target(paths.remove(i), i, direction, wrap_next) == moved(
            paths,
            first_same(paths, paths[i], same),
            direction,
            wrap_next,
        ),
{
    lemma_found_at_its_place(paths, i, same);
}

/// Whether one of the files is an image on every platform.
pub open spec fn any_sure_image(files: Seq<Seq<char>>) -> bool {
    exists|i: int| 0 <= i < files.len() && surely_image(#[trigger] files[i])
}

/// Whether one of the files may be an image on some platform.
pub open spec fn any_possible_image(files: Seq<Seq<char>>) -> bool {
    exists|i: int| 0 <= i < files.len() && possibly_image(#[trigger] files[i])
}

/// Whether a directory with these files holds an image.
pub fn dir_contains_supported_images(files: &Vec<String>) -> (found: bool)
    ensures
        any_sure_image(texts(files@)) ==> found,
        found ==> any_possible_image(texts(files@)),
{
    let mut i: usize = 0;
    while i < files.len()
        invariant
            i <= files@.len(),
            forall|j: int| 0 <= j < i ==> !surely_image(#[trigger] texts(files@)[j]),
        decreases files@.len() - i,
    {
        assert(texts(files@)[i as int] == files@[i as int]@);
        if is_supported_image_path(files[i].as_str()) {
            return true;
        }
        i = i + 1;
    }
    false
}

/// Whether a path is a book to move to: an archive file, or a directory that holds an image.
/// The caller tells what the path is on disk, and the files of the directory.
pub fn is_supported_navigation_book_path(
    path: &str,
    is_file: bool,
    is_dir: bool,
    dir_files: &Vec<String>,
) -> (supported: bool)
    ensures
        is_file && surely_archive(path@) ==> supported,
        is_dir && any_sure_image(texts(dir_files@)) ==> supported,
        supported ==> is_file && possibly_archive(path@) || is_dir && any_possible_image(
            texts(dir_files@),
        ),
{
    (is_file && is_supported_archive_path(path)) || (is_dir && dir_contains_supported_images(
        dir_files,
    ))
}

/// Where it is certain of every file whether it is an image, it is certain of the directory.
pub proof fn law_certain_files_tell_of_images(files: Seq<Seq<char>>)
    requires
        forall|i: int|
            0 <= i < files.len() && possibly_image(#[trigger] files[i]) ==> surely_image(files[i]),
    ensures
        any_sure_image(files) == any_possible_image(files),
{
    if any_possible_image(files) {
        let i = choose|i: int| 0 <= i < files.len() && possibly_image(#[trigger] files[i]);
        assert(surely_image(files[i]));
    }
    if any_sure_image(files) {
        let i = choose|i: int| 0 <= i < files.len() && surely_image(#[trigger] files[i]);
        assert(possibly_image(files[i]));
    }
}

/// A path and the name that it is sorted by.
pub struct NamedPath {
    pub path: String,
    pub name: String,
}

impl Sortable for NamedPath {
    open spec fn precedes(&self, other: &Self) -> bool {
        natural_order(self.name@, other.name@) == Ordering::Less
    }

    fn is_before(&self, other: &Self) -> (before: bool) {
        is_naturally_before(self.name.as_str(), other.name.as_str())
    }
}

/// The name to sort by; empty where a path has no file name.
pub open spec fn name_or_empty(name: Option<Seq<char>>) -> Seq<char> {
    match name {
        Some(name) => name,
        None => Seq::empty(),
    }
}

/// Whether a path is sorted by this name: its file name, in one of the two readings of paths.
pub open spec fn sorts_by(path: Seq<char>, name: Seq<char>) -> bool {
    name == name_or_empty(file_name(path, false)) || (is_read(path, true) ==> name == name_or_empty(
        file_name(path, true),
    ))
}

fn with_name(path: String) -> (named: NamedPath)
    ensures
        named.path == path,
        sorts_by(path@, named.name@),
{
    let name: String = match path_file_name(path.as_str()) {
        Some(name) => name,
        None => String::new(),
    };
    NamedPath { path, name }
}

/// The paths of the items.
pub open spec fn item_paths(items: Seq<NamedPath>) -> Seq<Seq<char>> {
    items.map_values(|item: NamedPath| item.path@)
}

/// Whether the items are the paths with the names that they are sorted by.
pub open spec fn names_of(items: Seq<NamedPath>, paths: Seq<Seq<char>>) -> bool {
    &&& item_paths(items) == paths
    &&& forall|i: int| 0 <= i < items.len() ==> sorts_by(#[trigger] paths[i], items[i].name@)
}

/// Whether `sorted` is the paths in natural order of their file names; those with equal names stay
/// as they were.
pub open spec fn sorted_from(sorted: Seq<Seq<char>>, paths: Seq<Seq<char>>) -> bool {
    exists|items: Seq<NamedPath>| #[trigger]
        names_of(items, paths) && sorted == item_paths(stable_sorted(items)) && in_order(
            stable_sorted(items),
        )
}

/// The paths in natural order of the names beside them; those with equal names stay as they were.
pub fn sort_named_books(items: Vec<NamedPath>) -> (sorted: Vec<String>)
    ensures
        texts(sorted@) == item_paths(stable_sorted(items@)),
        in_order(stable_sorted(items@)),
{
    let ordered: Vec<NamedPath> = stable_sort(items);
    let mut sorted: Vec<String> = Vec::new();
    let mut k: usize = 0;
    assert(texts(sorted@) =~= item_paths(ordered@).take(0));
    while k < ordered.len()
        invariant
            k <= ordered@.len(),
            texts(sorted@) == item_paths(ordered@).take(k as int),
        decreases ordered@.len() - k,
    {
        let ghost before = sorted@;
        sorted.push(ordered[k].path.clone());
        assert(item_paths(ordered@)[k as int] == ordered@[k as int].path@);
        k = k + 1;
        assert(texts(sorted@) =~= texts(before).push(item_paths(ordered@)[k - 1]));
        assert(item_paths(ordered@).take(k as int) =~= item_paths(ordered@).take(k - 1).push(
            item_paths(ordered@)[k - 1],
        ));
        assert(texts(sorted@) =~= item_paths(ordered@).take(k as int));
    }
    assert(item_paths(ordered@).take(k as int) =~= item_paths(ordered@));
    sorted
}

/// The paths in natural order of their file names; those with equal names stay as they were.
pub fn sort_books(paths: Vec<String>) -> (sorted: Vec<String>)
    ensures
        sorted_from(texts(sorted@), texts(paths@)),
{
    let ghost given = texts(paths@);
    let mut items: Vec<NamedPath> = Vec::new();
    let mut i: usize = 0;
    assert(item_paths(items@) =~= given.take(0));
    while i < paths.len()
        invariant
            i <= paths@.len(),
            given == texts(paths@),
            names_of(items@, given.take(i as int)),
        decreases paths@.len() - i,
    {
        let ghost before = items@;
        items.push(with_name(paths[i].clone()));
        assert(given[i as int] == paths@[i as int]@);
        i = i + 1;
        assert(item_paths(items@) =~= item_paths(before).push(given[i - 1]));
        assert(given.take(i as int) =~= given.take(i - 1).push(given[i - 1]));
        assert(item_paths(items@) =~= given.take(i as int));
        assert forall|k: int| 0 <= k < items@.len() implies sorts_by(
            #[trigger] given.take(i as int)[k],
            items@[k].name@,
        ) by {
            if k < before.len() {
                assert(given.take(i - 1)[k] == given[k]);
                assert(items@[k] == before[k]);
            }
        }
    }
    assert(given.take(i as int) =~= given);
    let ghost all = items@;
    let sorted: Vec<String> = sort_named_books(items);
    assert(names_of(all, texts(paths@)));
    sorted
}

/// The items that are marked, in their order.
pub open spec fn chosen(items: Seq<Seq<char>>, marks: Seq<bool>) -> Seq<Seq<char>>
    decreases items.len(),
{
    if items.len() == 0 {
        Seq::empty()
    } else if marks[items.len() - 1] {
        chosen(items.drop_last(), marks).push(items.last())
    } else {
        chosen(items.drop_last(), marks)
    }
}

/// Whether the marks are on the archives; of a file whose extension depends on the platform the
/// platform decides.
pub open spec fn marks_archives(files: Seq<Seq<char>>, marks: Seq<bool>) -> bool {
    &&& marks.len() == files.len()
    &&& forall|i: int|
        0 <= i < files.len() ==> (surely_archive(#[trigger] files[i]) ==> marks[i]) && (marks[i]
            ==> possibly_archive(files[i]))
}

proof fn lemma_chosen_prefix(items: Seq<Seq<char>>, marks: Seq<bool>, more: Seq<bool>)
    requires
        items.len() <= marks.len(),
        marks.len() <= more.len(),
        forall|i: int| 0 <= i < items.len() ==> marks[i] == more[i],
    ensures
        chosen(items, marks) == chosen(items, more),
    decreases items.len(),
{
    if items.len() > 0 {
        lemma_chosen_prefix(items.drop_last(), marks, more);
    }
}

/// What is chosen is what is marked: nothing else, everything, and nothing twice where nothing was
/// there twice.
proof fn lemma_chosen(items: Seq<Seq<char>>, marks: Seq<bool>)
    requires
        marks.len() >= items.len(),
    ensures
        forall|p: Seq<char>| #[trigger]
            chosen(items, marks).contains(p) ==> exists|i: int|
                0 <= i < items.len() && marks[i] && #[trigger] items[i] == p,
        forall|i: int|
            0 <= i < items.len() && marks[i] ==> chosen(items, marks).contains(#[trigger] items[i]),
        items.no_duplicates() ==> chosen(items, marks).no_duplicates(),
    decreases items.len(),
{
    if items.len() > 0 {
        let front = items.drop_last();
        lemma_chosen(front, marks);
        let before = chosen(front, marks);
        let all = chosen(items, marks);
        let last = items.len() - 1;
        assert forall|p: Seq<char>| #[trigger] all.contains(p) implies exists|i: int|
            0 <= i < items.len() && marks[i] && #[trigger] items[i] == p by {
            if before.contains(p) {
                let i = choose|i: int|
                    0 <= i < front.len() && marks[i] && #[trigger] front[i] == p;
                assert(items[i] == p);
            } else {
                let k = choose|k: int| 0 <= k < all.len() && all[k] == p;
                if k < before.len() {
                    assert(before[k] == p);
                }
                assert(items[last] == p);
            }
        }
        assert forall|i: int| 0 <= i < items.len() && marks[i] implies all.contains(
            #[trigger] items[i],
        ) by {
            if i < last {
                assert(front[i] == items[i]);
                let k = choose|k: int| 0 <= k < before.len() && before[k] == items[i];
                assert(all[k] == items[i]);
            } else {
                assert(all[before.len() as int] == items[i]);
            }
        }
        if items.no_duplicates() {
            assert(front.no_duplicates());
            if marks[last] {
                assert(!before.contains(items[last])) by {
                    if before.contains(items[last]) {
                        let i = choose|i: int|
                            0 <= i < front.len() && marks[i] && #[trigger] front[i] == items[last];
                        assert(items[i] == items[last]);
                    }
                }
                assert forall|a: int, b: int|
                    0 <= a < all.len() && 0 <= b < all.len() && a != b implies all[a] != all[b] by {
                    if a < before.len() && b < before.len() {
                        assert(before[a] != before[b]);
                    } else if a < before.len() {
                        assert(before[a] == all[a]);
                    } else {
                        assert(before[b] == all[b]);
                    }
                }
            }
        }
    }
}

/// Sorting keeps the paths, and puts none there twice that was there once.
proof fn lemma_sorted_from(sorted: Seq<Seq<char>>, paths: Seq<Seq<char>>)
    requires
        sorted_from(sorted, paths),
    ensures
        forall|p: Seq<char>| #[trigger] sorted.contains(p) <==> paths.contains(p),
        paths.no_duplicates() ==> sorted.no_duplicates(),
{
    let items = choose|items: Seq<NamedPath>| #[trigger]
        names_of(items, paths) && sorted == item_paths(stable_sorted(items)) && in_order(
            stable_sorted(items),
        );
    let ordered = stable_sorted(items);
    law_sorting_keeps_the_elements(items);
    items.to_multiset_ensures();
    ordered.to_multiset_ensures();
    assert forall|item: NamedPath| ordered.contains(item) <==> items.contains(item) by {
        assert(ordered.to_multiset().count(item) == items.to_multiset().count(item));
    }
    assert forall|p: Seq<char>| #[trigger] sorted.contains(p) <==> paths.contains(p) by {
        if sorted.contains(p) {
            let i = choose|i: int| 0 <= i < sorted.len() && sorted[i] == p;
            assert(ordered.contains(ordered[i]));
            let k = choose|k: int| 0 <= k < items.len() && items[k] == ordered[i];
            assert(item_paths(items)[k] == p);
        }
        if paths.contains(p) {
            let k = choose|k: int| 0 <= k < paths.len() && paths[k] == p;
            assert(item_paths(items)[k] == p);
            assert(items.contains(items[k]));
            let i = choose|i: int| 0 <= i < ordered.len() && ordered[i] == items[k];
            assert(sorted[i] == p);
        }
    }
    if paths.no_duplicates() {
        assert forall|a: int, b: int|
            0 <= a < items.len() && 0 <= b < items.len() && a != b implies items[a]
            != items[b] by {
            assert(item_paths(items)[a] != item_paths(items)[b]);
        }
        items.lemma_multiset_has_no_duplicates();
        ordered.lemma_multiset_has_no_duplicates_conv();
        assert forall|a: int, b: int|
            0 <= a < sorted.len() && 0 <= b < sorted.len() && a != b implies sorted[a]
            != sorted[b] by {
            assert(ordered.contains(ordered[a]) && ordered.contains(ordered[b]));
            let j = choose|j: int| 0 <= j < items.len() && items[j] == ordered[a];
            let k = choose|k: int| 0 <= k < items.len() && items[k] == ordered[b];
            assert(ordered[a] != ordered[b]);
            assert(item_paths(items)[j] != item_paths(items)[k]);
        }
    }
}

/// The archives among the files of a directory, in the order given.
pub fn supported_books(files: &Vec<String>) -> (books: Vec<String>)
    ensures
        exists|marks: Seq<bool>| #[trigger]
            marks_archives(texts(files@), marks) && texts(books@) == chosen(texts(files@), marks),
{
    let ghost given = texts(files@);
    let ghost mut marks: Seq<bool> = Seq::empty();
    let mut books: Vec<String> = Vec::new();
    let mut i: usize = 0;
    assert(texts(books@) =~= Seq::empty());
    while i < files.len()
        invariant
            i <= files@.len(),
            given == texts(files@),
            marks_archives(given.take(i as int), marks),
            texts(books@) == chosen(given.take(i as int), marks),
        decreases files@.len() - i,
    {
        assert(given[i as int] == files@[i as int]@);
        assert(given.take(i + 1).drop_last() =~= given.take(i as int));
        assert(given.take(i + 1).last() == given[i as int]);
        let ghost before = books@;
        let supported: bool = is_supported_archive_path(files[i].as_str());
        if supported {
            books.push(files[i].clone());
            assert(texts(books@) =~= texts(before).push(given[i as int]));
        }
        proof {
            let more = marks.push(supported);
            lemma_chosen_prefix(given.take(i as int), marks, more);
            assert forall|k: int| 0 <= k < given.take(i + 1).len() implies (surely_archive(
                #[trigger] given.take(i + 1)[k],
            ) ==> more[k]) && (more[k] ==> possibly_archive(given.take(i + 1)[k])) by {
                if k < i {
                    assert(given.take(i as int)[k] == given.take(i + 1)[k]);
                }
            }
            marks = more;
        }
        i = i + 1;
    }
    assert(given.take(i as int) =~= given);
    books
}

/// Whether `books` are the archives among the files of a directory, in natural order.
pub open spec fn lists_archives(books: Seq<Seq<char>>, files: Seq<Seq<char>>) -> bool {
    exists|marks: Seq<bool>| #[trigger]
        marks_archives(files, marks) && sorted_from(books, chosen(files, marks))
}

proof fn lemma_lists_archives(books: Seq<Seq<char>>, files: Seq<Seq<char>>)
    requires
        lists_archives(books, files),
    ensures
        forall|p: Seq<char>| #[trigger]
            books.contains(p) ==> files.contains(p) && possibly_archive(p),
        forall|i: int|
            0 <= i < files.len() && surely_archive(#[trigger] files[i]) ==> books.contains(files[i]),
        files.no_duplicates() ==> books.no_duplicates(),
{
    let marks = choose|marks: Seq<bool>| #[trigger]
        marks_archives(files, marks) && sorted_from(books, chosen(files, marks));
    lemma_chosen(files, marks);
    lemma_sorted_from(books, chosen(files, marks));
    assert forall|p: Seq<char>| #[trigger] books.contains(p) implies files.contains(p)
        && possibly_archive(p) by {
        assert(chosen(files, marks).contains(p));
        let i = choose|i: int| 0 <= i < files.len() && marks[i] && #[trigger] files[i] == p;
        assert(files[i] == p);
    }
    assert forall|i: int| 0 <= i < files.len() && surely_archive(
        #[trigger] files[i],
    ) implies books.contains(files[i]) by {
        assert(marks[i]);
        assert(chosen(files, marks).contains(files[i]));
    }
}

/// The archives among the files of a book's directory, in natural order of their names.
pub fn list_supported_books_in_dir(files: &Vec<String>) -> (books: Vec<String>)
    ensures
        lists_archives(texts(books@), texts(files@)),
        forall|p: Seq<char>| #[trigger]
            texts(books@).contains(p) ==> texts(files@).contains(p) && possibly_archive(p),
        forall|i: int|
            0 <= i < files@.len() && surely_archive(#[trigger] texts(files@)[i]) ==> texts(
                books@,
            ).contains(texts(files@)[i]),
        texts(files@).no_duplicates() ==> texts(books@).no_duplicates(),
{
    let found: Vec<String> = supported_books(files);
    let ghost given = texts(found@);
    let books: Vec<String> = sort_books(found);
    proof {
        let marks = choose|marks: Seq<bool>| #[trigger]
            marks_archives(texts(files@), marks) && given == chosen(texts(files@), marks);
        assert(marks_archives(texts(files@), marks) && sorted_from(
            texts(books@),
            chosen(texts(files@), marks),
        ));
        lemma_lists_archives(texts(books@), texts(files@));
    }
    books
}

/// A directory beside a book, with the files in it.
pub struct DirListing {
    pub path: String,
    pub files: Vec<String>,
}

/// The paths of the directories.
pub open spec fn dir_paths(dirs: Seq<DirListing>) -> Seq<Seq<char>> {
    dirs.map_values(|dir: DirListing| dir.path@)
}

/// Whether no book could be the same path on any platform.
pub open spec fn apart_from_all(books: Seq<Seq<char>>, path: Seq<char>) -> bool {
    forall|k: int| 0 <= k < books.len() ==> told_apart(#[trigger] books[k], path)
}

/// Whether no book is the same path on every platform.
pub open spec fn none_alike(books: Seq<Seq<char>>, path: Seq<char>) -> bool {
    forall|k: int| 0 <= k < books.len() ==> !alike(#[trigger] books[k], path)
}

/// Whether the marks are on the directories that hold an image and are not among `books`.
pub open spec fn marks_dirs(
    dirs: Seq<DirListing>,
    books: Seq<Seq<char>>,
    marks: Seq<bool>,
) -> bool {
    &&& marks.len() == dirs.len()
    &&& forall|i: int|
        #![trigger dirs[i]]
        0 <= i < dirs.len() ==> {
            &&& any_sure_image(texts(dirs[i].files@)) && apart_from_all(books, dirs[i].path@)
                ==> marks[i]
            &&& marks[i] ==> any_possible_image(texts(dirs[i].files@)) && none_alike(
                books,
                dirs[i].path@,
            )
        }
}

/// What the platform decided: the archives, in order, and the marks on the directories.
pub struct Picked {
    pub archives: Seq<Seq<char>>,
    pub dirs: Seq<bool>,
}

/// Whether `books` are the archives and the directories that hold an image, in natural order.
pub open spec fn lists_books(
    books: Seq<Seq<char>>,
    files: Seq<Seq<char>>,
    dirs: Seq<DirListing>,
    picked: Picked,
) -> bool {
    &&& lists_archives(picked.archives, files)
    &&& marks_dirs(dirs, picked.archives, picked.dirs)
    &&& sorted_from(books, picked.archives + chosen(dir_paths(dirs), picked.dirs))
}

proof fn lemma_lists_books(
    books: Seq<Seq<char>>,
    files: Seq<Seq<char>>,
    dirs: Seq<DirListing>,
    picked: Picked,
)
    requires
        lists_books(books, files, dirs, picked),
    ensures
        forall|p: Seq<char>| #[trigger]
            books.contains(p) ==> is_book_beside(p, files, dirs),
        forall|i: int|
            0 <= i < files.len() && surely_archive(#[trigger] files[i]) ==> books.contains(files[i]),
        forall|i: int|
            0 <= i < dirs.len() && any_sure_image(texts((#[trigger] dirs[i]).files@))
                && apart_from_all(files, dirs[i].path@) ==> books.contains(dirs[i].path@),
        files.no_duplicates() && dir_paths(dirs).no_duplicates() ==> books.no_duplicates(),
{
    let first = picked.archives;
    let paths = dir_paths(dirs);
    let second = chosen(paths, picked.dirs);
    let all = first + second;
    lemma_lists_archives(first, files);
    lemma_chosen(paths, picked.dirs);
    lemma_sorted_from(books, all);
    assert forall|p: Seq<char>| #[trigger] books.contains(p) implies is_book_beside(
        p,
        files,
        dirs,
    ) by {
        assert(all.contains(p));
        let k = choose|k: int| 0 <= k < all.len() && all[k] == p;
        if k < first.len() {
            assert(first[k] == p);
            assert(first.contains(p));
        } else {
            assert(second[k - first.len()] == p);
            assert(second.contains(p));
            let i = choose|i: int| 0 <= i < paths.len() && picked.dirs[i] && #[trigger] paths[i] == p;
            assert(dirs[i].path@ == p);
        }
    }
    assert forall|i: int| 0 <= i < files.len() && surely_archive(
        #[trigger] files[i],
    ) implies books.contains(files[i]) by {
        assert(first.contains(files[i]));
        let k = choose|k: int| 0 <= k < first.len() && first[k] == files[i];
        assert(all[k] == files[i]);
        assert(all.contains(files[i]));
    }
    assert forall|i: int|
        0 <= i < dirs.len() && any_sure_image(texts((#[trigger] dirs[i]).files@)) && apart_from_all(
            files,
            dirs[i].path@,
        ) implies books.contains(dirs[i].path@) by {
        assert(apart_from_all(first, dirs[i].path@)) by {
            assert forall|k: int| 0 <= k < first.len() implies told_apart(
                #[trigger] first[k],
                dirs[i].path@,
            ) by {
                assert(first.contains(first[k]));
                let j = choose|j: int| 0 <= j < files.len() && files[j] == first[k];
                assert(told_apart(files[j], dirs[i].path@));
            }
        }
        assert(paths[i] == dirs[i].path@);
        assert(second.contains(paths[i]));
        let k = choose|k: int| 0 <= k < second.len() && second[k] == paths[i];
        assert(all[first.len() + k] == paths[i]);
        assert(all.contains(paths[i]));
    }
    if files.no_duplicates() && paths.no_duplicates() {
        assert forall|a: int, b: int|
            0 <= a < all.len() && 0 <= b < all.len() && a != b implies all[a] != all[b] by {
            if a < first.len() && b < first.len() {
                assert(first[a] != first[b]);
            } else if a >= first.len() && b >= first.len() {
                assert(second[a - first.len()] != second[b - first.len()]);
            } else {
                let (x, y) = if a < first.len() {
                    (a, b)
                } else {
                    (b, a)
                };
                assert(second.contains(second[y - first.len()]));
                let i = choose|i: int|
                    0 <= i < paths.len() && picked.dirs[i] && #[trigger] paths[i] == second[y
                        - first.len()];
                assert(dirs[i].path@ == all[y]);
                assert(!alike(first[x], dirs[i].path@));
            }
        }
    }
}

/// Whether a path is that of a file that may be an archive, or of a directory that may hold an
/// image.
pub open spec fn is_book_beside(
    path: Seq<char>,
    files: Seq<Seq<char>>,
    dirs: Seq<DirListing>,
) -> bool {
    ||| files.contains(path) && possibly_archive(path)
    ||| exists|i: int|
        0 <= i < dirs.len() && (#[trigger] dirs[i]).path@ == path && any_possible_image(
            texts(dirs[i].files@),
        )
}

/// The books beside a book, in natural order of their names: the archives, and the directories
/// that hold an image. A directory that could be the same path as a file is left to the platform.
pub fn list_supported_navigation_books_in_dir(files: &Vec<String>, dirs: &Vec<DirListing>) -> (books:
    Vec<String>)
    ensures
        exists|picked: Picked| #[trigger]
            lists_books(texts(books@), texts(files@), dirs@, picked),
        forall|p: Seq<char>| #[trigger]
            texts(books@).contains(p) ==> is_book_beside(p, texts(files@), dirs@),
        forall|i: int|
            0 <= i < files@.len() && surely_archive(#[trigger] texts(files@)[i]) ==> texts(
                books@,
            ).contains(texts(files@)[i]),
        forall|i: int|
            0 <= i < dirs@.len() && any_sure_image(texts((#[trigger] dirs@[i]).files@))
                && apart_from_all(texts(files@), dirs@[i].path@) ==> texts(books@).contains(
                dirs@[i].path@,
            ),
        texts(files@).no_duplicates() && dir_paths(dirs@).no_duplicates() ==> texts(
            books@,
        ).no_duplicates(),
{
    let mut books: Vec<String> = list_supported_books_in_dir(files);
    let ghost first = texts(books@);
    let ghost paths = dir_paths(dirs@);
    let ghost mut marks: Seq<bool> = Seq::empty();
    let mut found: Vec<String> = Vec::new();
    let mut i: usize = 0;
    assert(texts(found@) =~= Seq::empty());
    while i < dirs.len()
        invariant
            i <= dirs@.len(),
            first == texts(books@),
            paths == dir_paths(dirs@),
            marks_dirs(dirs@.take(i as int), first, marks),
            texts(found@) == chosen(paths.take(i as int), marks),
        decreases dirs@.len() - i,
    {
        assert(paths[i as int] == dirs@[i as int].path@);
        assert(paths.take(i + 1).drop_last() =~= paths.take(i as int));
        assert(paths.take(i + 1).last() == paths[i as int]);
        let ghost before = found@;
        let mut taken: bool = false;
        if dir_contains_supported_images(&dirs[i].files) {
            match position_of(&books, dirs[i].path.as_str()) {
                Some(k) => {
                    assert(!told_apart(first[k as int], dirs@[i as int].path@));
                },
                None => {
                    taken = true;
                    found.push(dirs[i].path.clone());
                    assert(texts(found@) =~= texts(before).push(paths[i as int]));
                },
            }
        }
        proof {
            let more = marks.push(taken);
            lemma_chosen_prefix(paths.take(i as int), marks, more);
            let now = dirs@.take(i + 1);
            assert forall|k: int| #![trigger now[k]] 0 <= k < now.len() implies {
                &&& any_sure_image(texts(now[k].files@)) && apart_from_all(first, now[k].path@)
                    ==> more[k]
                &&& more[k] ==> any_possible_image(texts(now[k].files@)) && none_alike(
                    first,
                    now[k].path@,
                )
            } by {
                if k < i {
                    assert(dirs@.take(i as int)[k] == now[k]);
                }
            }
            marks = more;
        }
        i = i + 1;
    }
    assert(dirs@.take(i as int) =~= dirs@);
    assert(paths.take(i as int) =~= paths);
    let mut k: usize = 0;
    assert(first + texts(found@).take(0) =~= first);
    while k < found.len()
        invariant
            k <= found@.len(),
            texts(books@) == first + texts(found@).take(k as int),
        decreases found@.len() - k,
    {
        let ghost before = books@;
        books.push(found[k].clone());
        assert(texts(found@)[k as int] == found@[k as int]@);
        assert(texts(books@) =~= texts(before).push(texts(found@)[k as int]));
        k = k + 1;
        assert(texts(books@) =~= first + texts(found@).take(k as int));
    }
    assert(texts(found@).take(k as int) =~= texts(found@));
    let sorted: Vec<String> = sort_books(books);
    proof {
        let picked = Picked { archives: first, dirs: marks };
        lemma_lists_books(texts(sorted@), texts(files@), dirs@, picked);
    }
    sorted
}

/// A step leads one book on or back: none before the first book and none behind the last, but that
/// a row that wraps leads from the last to the first. A row of one book leads nowhere.
pub proof fn law_steps_lead_one_book_on(len: nat, current: nat, wrap_next: bool)
    ensures
        current + 1 < len ==> move_target(len, current, NavDirection::Next, wrap_next) == Some(
            current + 1,
        ),
        0 < current < len ==> move_target(len, current, NavDirection::Previous, wrap_next) == Some(
            (current - 1) as nat,
        ),
        move_target(len, 0, NavDirection::Previous, wrap_next) is None,
        len > 1 && current + 1 == len ==> move_target(len, current, NavDirection::Next, true)
            == Some(0nat) && move_target(len, current, NavDirection::Next, false) is None,
        len <= 1 || current >= len ==> move_target(len, current, NavDirection::Next, wrap_next)
            is None && move_target(len, current, NavDirection::Previous, wrap_next) is None,
{
}

/// From a place between two books a step back leads to the one before it and a step on to the one
/// behind.
pub proof fn law_places_between_books_lead_to_both(
    paths: Seq<Seq<char>>,
    at: int,
    wrap_next: bool,
)
    requires
        0 <= at <= paths.len(),
    ensures
        at > 0 ==> insertion_target(paths, at, NavDirection::Previous, wrap_next) == Some(
            paths[at - 1],
        ),
        at == 0 ==> insertion_target(paths, at, NavDirection::Previous, wrap_next) is None,
        at < paths.len() ==> insertion_target(paths, at, NavDirection::Next, wrap_next) == Some(
            paths[at],
        ),
        at == paths.len() && paths.len() > 0 ==> insertion_target(
            paths,
            at,
            NavDirection::Next,
            true,
        ) == Some(paths[0]),
        at == paths.len() ==> insertion_target(paths, at, NavDirection::Next, false) is None,
{
}

/// Sorted books are the same books, and no book stands directly behind one that its name comes
/// before in natural order.
pub proof fn law_sorted_books_are_the_same_books(
    sorted: Seq<Seq<char>>,
    paths: Seq<Seq<char>>,
    path: Seq<char>,
)
    requires
        sorted_from(sorted, paths),
    ensures
        sorted.contains(path) <==> paths.contains(path),
        sorted.len() == paths.len(),
        paths.no_duplicates() ==> sorted.no_duplicates(),
        exists|items: Seq<NamedPath>| #[trigger]
            item_paths(items) == sorted && forall|i: int|
                1 <= i < items.len() ==> natural_order(
                    (#[trigger] items[i]).name@,
                    items[i - 1].name@,
                ) != Ordering::Less,
{
    lemma_sorted_from(sorted, paths);
    let items = choose|items: Seq<NamedPath>| #[trigger]
        names_of(items, paths) && sorted == item_paths(stable_sorted(items)) && in_order(
            stable_sorted(items),
        );
    law_sorting_keeps_the_elements(items);
    let ordered = stable_sorted(items);
    assert(item_paths(ordered) == sorted);
    assert forall|i: int| 1 <= i < ordered.len() implies natural_order(
        (#[trigger] ordered[i]).name@,
        ordered[i - 1].name@,
    ) != Ordering::Less by {
        assert(!ordered[i].precedes(&ordered[i - 1]));
    }
    assert(paths.len() == items.len());
}

} // verus!
