//! Comparison of string slices.

use vstd::prelude::*;

verus! {

/// Calls `==` of `str`: true exactly when the two slices hold the same
/// characters.
#[verifier::external_body]
pub(crate) fn same_text(a: &str, b: &str) -> (same: bool)
    ensures
        same == (a@ == b@),
{
    a == b
}

} // verus!
