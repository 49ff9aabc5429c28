//! Paths as text. Paths are read in one of two ways: on some platforms `/` alone parts components,
//! on others `\` does as well and a path may start with a drive or a share.
use vstd::prelude::*;
use vstd::string::*;

use crate::text::ascii_lower;

verus! {

/// What stands behind the last occurrence of `mark`; all of the text where there is none.
pub open spec fn after_last(text: Seq<char>, mark: char) -> Seq<char>
    decreases text.len(),
{
    if text.len() == 0 || text.last() == mark {
        Seq::empty()
    } else {
        after_last(text.drop_last(), mark).push(text.last())
    }
}

/// Whether a character parts components.
pub open spec fn is_slash(c: char, with_drives: bool) -> bool {
    c == '/' || with_drives && c == '\\'
}

/// The stretches of a text between slashes, empty ones among them.
pub open spec fn split_at_slashes(text: Seq<char>, with_drives: bool) -> Seq<Seq<char>>
    decreases text.len(),
{
    if text.len() == 0 {
        seq![Seq::empty()]
    } else {
        let before = split_at_slashes(text.drop_last(), with_drives);
        if is_slash(text.last(), with_drives) {
            before.push(Seq::empty())
        } else {
            before.drop_last().push(before.last().push(text.last()))
        }
    }
}

/// The components of a text: the stretches between slashes that are neither empty nor `.`.
pub open spec fn components(text: Seq<char>, with_drives: bool) -> Seq<Seq<char>> {
    split_at_slashes(text, with_drives).filter(
        |part: Seq<char>| part.len() > 0 && part != seq!['.'],
    )
}

/// Whether a path starts with the letter of a drive.
pub open spec fn has_drive(path: Seq<char>) -> bool {
    path.len() >= 2 && 'a' <= ascii_lower(path[0]) <= 'z' && path[1] == ':'
}

/// A path behind its drive.
pub open spec fn behind_the_drive(path: Seq<char>, with_drives: bool) -> Seq<char> {
    if with_drives && has_drive(path) {
        path.skip(2)
    } else {
        path
    }
}

/// A path that may start with a share or a device.
pub open spec fn starts_with_two_slashes(path: Seq<char>) -> bool {
    path.len() >= 2 && is_slash(path[0], true) && is_slash(path[1], true)
}

/// A path on a share or a device, below the two parts that name it; no part is empty, and the last
/// one is not `.`.
pub open spec fn is_below_a_share(path: Seq<char>) -> bool {
    &&& starts_with_two_slashes(path)
    &&& path.len() > 2
    &&& !is_slash(path[2], true)
    &&& path[2] != '?'
    &&& !is_slash(path.last(), true)
    &&& split_at_slashes(path, true).last() != seq!['.']
    &&& forall|i: int|
        #![trigger path[i]]
        2 <= i < path.len() - 1 && is_slash(path[i], true) ==> !is_slash(path[i + 1], true)
    &&& exists|i: int, j: int|
        2 < i < j < path.len() && is_slash(#[trigger] path[i], true) && is_slash(
            #[trigger] path[j],
            true,
        )
}

/// A verbatim path below a drive; in it `\` alone parts components.
pub open spec fn is_below_a_verbatim_drive(path: Seq<char>) -> bool {
    &&& path.len() > 7
    &&& path.take(4) == seq!['\\', '\\', '?', '\\']
    &&& has_drive(path.skip(4))
    &&& path[6] == '\\'
    &&& path.last() != '\\'
    &&& after_last(path, '\\') != seq!['.']
}

/// Whether the reading of a path is stated: all paths where there are no drives; else those that do
/// not start with two slashes, or are below a share or a verbatim drive.
pub open spec fn is_read(path: Seq<char>, with_drives: bool) -> bool {
    !with_drives || !starts_with_two_slashes(path) || is_below_a_share(path)
        || is_below_a_verbatim_drive(path)
}

/// The last component of a path.
pub open spec fn last_component(path: Seq<char>, with_drives: bool) -> Option<Seq<char>> {
    if with_drives && is_below_a_verbatim_drive(path) {
        Some(after_last(path, '\\'))
    } else {
        let parts = components(behind_the_drive(path, with_drives), with_drives);
        if parts.len() > 0 {
            Some(parts.last())
        } else {
            None
        }
    }
}

/// The name that a path ends in; `..` is no name.
pub open spec fn file_name(path: Seq<char>, with_drives: bool) -> Option<Seq<char>> {
    match last_component(path, with_drives) {
        Some(last) if last != seq!['.', '.'] => Some(last),
        _ => None,
    }
}

/// What stands behind the last dot of a file name. A name without a dot, or with none but a
/// leading one, has no extension.
pub open spec fn name_extension(name: Seq<char>) -> Option<Seq<char>> {
    if name.len() > 0 && name.skip(1).contains('.') {
        Some(after_last(name, '.'))
    } else {
        None
    }
}

/// The extension of the name that a path ends in.
pub open spec fn extension(path: Seq<char>, with_drives: bool) -> Option<Seq<char>> {
    match file_name(path, with_drives) {
        Some(name) => name_extension(name),
        None => None,
    }
}

/// Whether this may be the file name: that of one of the two readings.
pub open spec fn may_be_named(path: Seq<char>, name: Option<Seq<char>>) -> bool {
    name == file_name(path, false) || (is_read(path, true) ==> name == file_name(path, true))
}

/// Whether this may be the extension: that of one of the two readings.
pub open spec fn may_have_extension(path: Seq<char>, found: Option<Seq<char>>) -> bool {
    found == extension(path, false) || (is_read(path, true) ==> found == extension(path, true))
}

/// What two paths are compared by: the drive, whether they are absolute, whether they start with
/// `.`, and their components.
pub struct PathKey {
    pub drive: Option<char>,
    pub absolute: bool,
    pub starts_here: bool,
    pub components: Seq<Seq<char>>,
}

pub open spec fn path_key(path: Seq<char>, with_drives: bool) -> PathKey {
    let rest = behind_the_drive(path, with_drives);
    let absolute = rest.len() > 0 && is_slash(rest[0], with_drives);
    PathKey {
        drive: if with_drives && has_drive(path) {
            Some(ascii_lower(path[0]))
        } else {
            None
        },
        absolute,
        starts_here: rest.len() > 0 && rest[0] == '.' && (rest.len() == 1 || is_slash(
            rest[1],
            with_drives,
        )),
        components: components(rest, with_drives),
    }
}

/// A path with letters before a `:` in lower case: the letter of a drive may be written either
/// way.
pub open spec fn with_small_drives(path: Seq<char>) -> Seq<char> {
    Seq::new(
        path.len(),
        |i: int|
            if i + 1 < path.len() && path[i + 1] == ':' {
                ascii_lower(path[i])
            } else {
                path[i]
            },
    )
}

/// What is left of a path once everything is dropped that some platform passes over when it
/// compares paths: how often and with which slash components are parted, and components `.`.
pub open spec fn essence(path: Seq<char>) -> Seq<Seq<char>> {
    components(with_small_drives(path), true)
}

/// Whether two paths are the same on every platform.
pub open spec fn alike(a: Seq<char>, b: Seq<char>) -> bool {
    ||| a == b
    ||| !starts_with_two_slashes(a) && !starts_with_two_slashes(b) && path_key(a, false) == path_key(
        b,
        false,
    ) && path_key(a, true) == path_key(b, true)
}

/// Whether two paths are different on every platform.
pub open spec fn told_apart(a: Seq<char>, b: Seq<char>) -> bool {
    &&& a != b
    &&& essence(a) != essence(b) || !starts_with_two_slashes(a) && !starts_with_two_slashes(b)
        && path_key(a, false) != path_key(b, false) && path_key(a, true) != path_key(b, true)
}

/// The text of an optional string.
pub open spec fn text_of(text: Option<String>) -> Option<Seq<char>> {
    match text {
        Some(text) => Some(text@),
        None => None,
    }
}

/// `std::path::Path::file_name`: the final component of a path once trailing slashes and `.` are
/// dropped, none where it ends in `..`. Which of the two readings is taken depends on the platform;
/// of a path that may start with a share or a device, the reading with drives is stated only below
/// a share or a verbatim drive.
#[verifier::external_body]
pub(crate) fn path_file_name(path: &str) -> (name: Option<String>)
    ensures
        may_be_named(path@, text_of(name)),
{
    std::path::Path::new(path).file_name().and_then(|name| name.to_str()).map(|name| name.to_owned())
}

/// `std::path::Path::extension`: what stands behind the last dot of the file name, none where
/// there is no file name, no dot, or only a leading one. Which of the two readings of the file name
/// is taken depends on the platform.
#[verifier::external_body]
pub(crate) fn path_extension(path: &str) -> (found: Option<String>)
    ensures
        may_have_extension(path@, text_of(found)),
{
    std::path::Path::new(path).extension().and_then(|found| found.to_str()).map(
        |found| found.to_owned(),
    )
}

/// The equality of `std::path::Path`: two paths are equal if they have the same components. Which
/// of the two readings is taken depends on the platform; of a path that may start with a share or
/// a device, it is stated that a path is equal to itself, and that equal paths have the same
/// essence.
#[verifier::external_body]
pub(crate) fn same_path(a: &str, b: &str) -> (same: bool)
    ensures
        alike(a@, b@) ==> same,
        told_apart(a@, b@) ==> !same,
{
    std::path::Path::new(a) == std::path::Path::new(b)
}

} // verus!
