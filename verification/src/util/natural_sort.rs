//! Natural order of names: runs of digits count as numbers.
use std::cmp::Ordering;

use vstd::prelude::*;

verus! {

/// What `natord::compare` returns for two texts.
pub uninterp spec fn natural_order(a: Seq<char>, b: Seq<char>) -> Ordering;

/// `natord::compare`: case-sensitive order that passes over white space and takes a run of
/// decimal digits as a number. Its result depends on the two texts alone, a text is equal to
/// itself, and two texts the other way round give the opposite result.
#[verifier::external_body]
pub fn compare(a: &str, b: &str) -> (order: Ordering)
    ensures
        order == natural_order(a@, b@),
        a@ == b@ ==> order == Ordering::Equal,
        (order == Ordering::Less) == (natural_order(b@, a@) == Ordering::Greater),
        (order == Ordering::Greater) == (natural_order(b@, a@) == Ordering::Less),
{
    natord::compare(a, b)
}

/// Whether the first of two names stands before the second.
pub fn is_naturally_before(a: &str, b: &str) -> (before: bool)
    ensures
        before == (natural_order(a@, b@) == Ordering::Less),
        before ==> natural_order(b@, a@) != Ordering::Less,
{
    match compare(a, b) {
        Ordering::Less => true,
        _ => false,
    }
}

} // verus!
