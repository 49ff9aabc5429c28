//! When two paths stand for the same book.
use vstd::prelude::*;
use vstd::string::*;

use crate::text::{chars_of, lower, lower_text, string_of};

verus! {

/// The text with every `from` put as `to`.
pub open spec fn with_char(text: Seq<char>, from: char, to: char) -> Seq<char> {
    text.map_values(
        |c: char|
            if c == from {
                to
            } else {
                c
            },
    )
}

pub open spec fn starts_with(text: Seq<char>, prefix: Seq<char>) -> bool {
    prefix.len() <= text.len() && text.take(prefix.len() as int) == prefix
}

pub open spec fn verbatim_prefix() -> Seq<char> {
    seq!['\\', '\\', '?', '\\']
}

pub open spec fn verbatim_unc_prefix() -> Seq<char> {
    seq!['\\', '\\', '?', '\\', 'U', 'N', 'C', '\\']
}

/// A path without the prefix that marks it as verbatim: `\\?\UNC\server` is `\\server`.
pub open spec fn without_verbatim_prefix(path: Seq<char>) -> Seq<char> {
    if starts_with(path, verbatim_unc_prefix()) {
        seq!['\\', '\\'] + path.skip(8)
    } else if starts_with(path, verbatim_prefix()) {
        path.skip(4)
    } else {
        path
    }
}

/// The form in which paths are told apart. On Windows: no verbatim prefix, backslashes, lower
/// case. Elsewhere: slashes.
pub open spec fn selection_form(path: Seq<char>, windows: bool) -> Seq<char> {
    if windows {
        lower(with_char(without_verbatim_prefix(path), '/', '\\'))
    } else {
        with_char(path, '\\', '/')
    }
}

fn replace_char(chars: &Vec<char>, start: usize, from: char, to: char) -> (text: Vec<char>)
    requires
        start <= chars@.len(),
    ensures
        text@ == with_char(chars@.skip(start as int), from, to),
{
    let mut text: Vec<char> = Vec::new();
    let mut i: usize = start;
    while i < chars.len()
        invariant
            start <= i <= chars@.len(),
            text@ == with_char(chars@.skip(start as int), from, to).take(i - start),
        decreases chars@.len() - i,
    {
        let c: char = chars[i];
        text.push(if c == from {
            to
        } else {
            c
        });
        i = i + 1;
        assert(text@ =~= with_char(chars@.skip(start as int), from, to).take(i - start));
    }
    assert(text@ =~= with_char(chars@.skip(start as int), from, to));
    text
}

/// Whether a path starts with `\\?\`.
fn is_verbatim(chars: &Vec<char>) -> (verbatim: bool)
    ensures
        verbatim == starts_with(chars@, verbatim_prefix()),
{
    let verbatim: bool = chars.len() >= 4 && chars[0] == '\\' && chars[1] == '\\' && chars[2] == '?'
        && chars[3] == '\\';
    assert(verbatim ==> chars@.take(4) =~= verbatim_prefix());
    assert(starts_with(chars@, verbatim_prefix()) ==> forall|i: int|
        0 <= i < 4 ==> chars@[i] == #[trigger] verbatim_prefix()[i]) by {
        if starts_with(chars@, verbatim_prefix()) {
            assert forall|i: int| 0 <= i < 4 implies chars@[i] == #[trigger] verbatim_prefix()[i] by {
                assert(chars@.take(4)[i] == chars@[i]);
            }
        }
    }
    assert(verbatim_prefix()[0] == '\\' && verbatim_prefix()[1] == '\\' && verbatim_prefix()[2]
        == '?' && verbatim_prefix()[3] == '\\');
    verbatim
}

/// Whether a path starts with `\\?\UNC\`.
fn is_verbatim_unc(chars: &Vec<char>) -> (verbatim: bool)
    ensures
        verbatim == starts_with(chars@, verbatim_unc_prefix()),
{
    let verbatim: bool = chars.len() >= 8 && chars[0] == '\\' && chars[1] == '\\' && chars[2] == '?'
        && chars[3] == '\\' && chars[4] == 'U' && chars[5] == 'N' && chars[6] == 'C' && chars[7]
        == '\\';
    assert(verbatim ==> chars@.take(8) =~= verbatim_unc_prefix());
    assert(starts_with(chars@, verbatim_unc_prefix()) ==> forall|i: int|
        0 <= i < 8 ==> chars@[i] == #[trigger] verbatim_unc_prefix()[i]) by {
        if starts_with(chars@, verbatim_unc_prefix()) {
            assert forall|i: int| 0 <= i < 8 implies chars@[i]
                == #[trigger] verbatim_unc_prefix()[i] by {
                assert(chars@.take(8)[i] == chars@[i]);
            }
        }
    }
    let ghost p = verbatim_unc_prefix();
    assert(p[0] == '\\' && p[1] == '\\' && p[2] == '?' && p[3] == '\\' && p[4] == 'U' && p[5] == 'N'
        && p[6] == 'C' && p[7] == '\\');
    verbatim
}

/// The form of a path in which selections are compared; `windows` tells the platform's rules.
pub fn normalize_path_for_selection(path: &str, windows: bool) -> (form: String)
    ensures
        form@ == selection_form(path@, windows),
{
    let chars: Vec<char> = chars_of(path);
    assert(chars@.skip(0) =~= chars@);
    if !windows {
        return string_of(&replace_char(&chars, 0, '\\', '/'));
    }
    if is_verbatim_unc(&chars) {
        let rest: Vec<char> = replace_char(&chars, 8, '/', '\\');
        let mut text: String = String::new();
        text.push('\\');
        text.push('\\');
        let tail: String = string_of(&rest);
        text.append(tail.as_str());
        assert(text@ =~= with_char(without_verbatim_prefix(path@), '/', '\\'));
        return lower_text(text.as_str());
    }
    let start: usize = if is_verbatim(&chars) {
        4
    } else {
        0
    };
    let text: String = string_of(&replace_char(&chars, start, '/', '\\'));
    lower_text(text.as_str())
}

/// The form of a path in which overrides are keyed: that of selections.
pub fn normalize_path_for_override(path: &str, windows: bool) -> (form: String)
    ensures
        form@ == selection_form(path@, windows),
{
    normalize_path_for_selection(path, windows)
}

/// Whether two paths stand for the same book.
pub fn paths_equivalent_for_selection(a: &str, b: &str, windows: bool) -> (same: bool)
    ensures
        same == (selection_form(a@, windows) == selection_form(b@, windows)),
{
    normalize_path_for_selection(a, windows) == normalize_path_for_selection(b, windows)
}

/// Away from Windows, a path in selection form is in selection form already.
pub proof fn law_selection_form_is_stable(path: Seq<char>)
    ensures
        selection_form(selection_form(path, false), false) == selection_form(path, false),
{
    assert(selection_form(selection_form(path, false), false) =~= selection_form(path, false));
}

/// On Windows neither letter case nor the kind of slash tells two paths apart, unless the path
/// starts with a backslash or slash, where the prefix of a verbatim path could arise or vanish.
pub proof fn law_case_and_slashes_do_not_matter(path: Seq<char>)
    requires
        path.len() > 0,
        path[0] != '\\',
        path[0] != '/',
    ensures
        selection_form(lower(path), true) == selection_form(path, true),
        selection_form(with_char(path, '/', '\\'), true) == selection_form(path, true),
        selection_form(selection_form(path, true), true) == selection_form(path, true),
{
    let slashed = with_char(path, '/', '\\');
    assert(!starts_with(path, verbatim_prefix()) && !starts_with(path, verbatim_unc_prefix())) by {
        lemma_other_start(path);
    }
    lemma_other_start(lower(path));
    lemma_other_start(slashed);
    lemma_other_start(selection_form(path, true));
    assert(selection_form(lower(path), true) =~= selection_form(path, true));
    assert(selection_form(slashed, true) =~= selection_form(path, true));
    assert(selection_form(selection_form(path, true), true) =~= selection_form(path, true));
}

proof fn lemma_other_start(path: Seq<char>)
    requires
        path.len() > 0,
        path[0] != '\\',
    ensures
        !starts_with(path, verbatim_prefix()),
        !starts_with(path, verbatim_unc_prefix()),
{
    if starts_with(path, verbatim_prefix()) {
        assert(path.take(4)[0] == verbatim_prefix()[0]);
    }
    if starts_with(path, verbatim_unc_prefix()) {
        assert(path.take(8)[0] == verbatim_unc_prefix()[0]);
    }
}

/// A verbatim Windows path stands for the same book as the path without the prefix.
pub proof fn law_verbatim_prefix_does_not_matter(path: Seq<char>)
    requires
        !starts_with(path, verbatim_prefix()),
        !starts_with(path, seq!['U', 'N', 'C', '\\']),
    ensures
        selection_form(verbatim_prefix() + path, true) == selection_form(path, true),
{
    let long = verbatim_prefix() + path;
    assert(long.take(4) =~= verbatim_prefix());
    assert(long.skip(4) =~= path);
    if starts_with(long, verbatim_unc_prefix()) {
        assert(path.take(4) =~= seq!['U', 'N', 'C', '\\']) by {
            assert forall|i: int| 0 <= i < 4 implies path.take(4)[i] == seq!['U', 'N', 'C', '\\'][i] by {
                assert(long.take(8)[i + 4] == verbatim_unc_prefix()[i + 4]);
            }
        }
    }
    if starts_with(path, verbatim_unc_prefix()) {
        assert(path.take(4) =~= verbatim_prefix()) by {
            assert forall|i: int| 0 <= i < 4 implies path.take(4)[i] == verbatim_prefix()[i] by {
                assert(path.take(8)[i] == verbatim_unc_prefix()[i]);
            }
        }
    }
}

/// Away from Windows two paths stand for the same book where they agree character by character, a
/// slash of either kind counting as the same, and letter case as it is written.
pub proof fn law_only_slashes_are_alike_away_from_windows(a: Seq<char>, b: Seq<char>)
    ensures
        selection_form(a, false) == selection_form(b, false) <==> a.len() == b.len() && forall|i: int|
            0 <= i < a.len() ==> #[trigger] a[i] == b[i] || ((a[i] == '/' || a[i] == '\\') && (b[i]
                == '/' || b[i] == '\\')),
{
    let (x, y) = (selection_form(a, false), selection_form(b, false));
    if x == y {
        assert(x.len() == a.len() && y.len() == b.len());
        assert forall|i: int| 0 <= i < a.len() implies #[trigger] a[i] == b[i] || ((a[i] == '/'
            || a[i] == '\\') && (b[i] == '/' || b[i] == '\\')) by {
            assert(x[i] == y[i]);
        }
    }
    if a.len() == b.len() && forall|i: int|
        0 <= i < a.len() ==> #[trigger] a[i] == b[i] || ((a[i] == '/' || a[i] == '\\') && (b[i]
            == '/' || b[i] == '\\')) {
        assert forall|i: int| 0 <= i < x.len() implies x[i] == y[i] by {
            assert(a[i] == b[i] || ((a[i] == '/' || a[i] == '\\') && (b[i] == '/' || b[i]
                == '\\')));
        }
        assert(x =~= y);
    }
}

} // verus!
