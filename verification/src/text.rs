//! Text comparison as the rest of the library needs it.

use vstd::prelude::*;

verus! {

/// `str`'s equality from the standard library: two string slices are equal
/// exactly when they hold the same characters in the same order.
pub assume_specification[ <str as PartialEq>::eq ](a: &str, b: &str) -> (equal: bool)
    ensures
        equal == (a@ == b@),
;

} // verus!
