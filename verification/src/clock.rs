//! The wall clock, as far as sessions need it.

use std::time::SystemTime;
use vstd::prelude::*;

verus! {

/// A point in time as the standard library measures it. Nothing inside such a
/// value is visible to the proofs: it is stored and handed back, never read.
#[verifier::external_type_specification]
#[verifier::external_body]
pub struct ExSystemTime(SystemTime);

/// Reads the clock through `SystemTime::now`. Two readings need not agree, so
/// nothing is promised about the value that comes back.
#[verifier::external_body]
pub(crate) fn now() -> SystemTime {
    SystemTime::now()
}

} // verus!
