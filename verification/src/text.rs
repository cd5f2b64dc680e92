use vstd::prelude::*;

verus! {

/// Whether two texts hold the same characters.
///
/// Trusted: calls `==` of `str`, which compares the two texts character by
/// character.
#[verifier::external_body]
#[inline]
pub(crate) fn text_eq(left: &str, right: &str) -> (same: bool)
    ensures
        same == (left@ == right@),
{
    left == right
}

} // verus!
