//! Ordering of version strings, as libversion does it: numeric components by
//! value, letter components and pre-release words by their own rules.
use vstd::prelude::*;
use core::cmp::Ordering;

verus! {

/// How libversion orders version `a` against version `b`.
pub uninterp spec fn version_order(a: Seq<char>, b: Seq<char>) -> Ordering;

/// Relies on libversion::version_compare2, which compares two version strings
/// under a total order: the result depends on the two strings alone, and a
/// string is equal to itself.
#[verifier::external_body]
fn version_compare2(a: &str, b: &str) -> (r: Ordering)
    ensures
        r == version_order(a@, b@),
        a@ == b@ ==> r == Ordering::Equal,
{
    libversion::version_compare2(a, b)
}

/// Orders version `a` against version `b`: `"2.0-1"` comes before `"10.0-1"`.
pub fn compare(a: &str, b: &str) -> (r: Ordering)
    ensures
        r == version_order(a@, b@),
        a@ == b@ ==> r == Ordering::Equal,
{
    version_compare2(a, b)
}

} // verus!
