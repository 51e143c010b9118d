//! The handles of background consumer tasks.

use crate::errors::{tasks_panicked, tasks_panicked_text};
use tokio::task::{JoinError, JoinHandle};
use vstd::prelude::*;

verus! {

/// The handle by which a spawned task is awaited. The library stores such
/// handles and hands them back; it never looks inside one.
#[verifier::external_type_specification]
#[verifier::external_body]
#[verifier::reject_recursive_types(T)]
pub struct ExJoinHandle<T>(JoinHandle<T>);

/// What awaiting a task yields when the task panicked or was cancelled.
#[verifier::external_type_specification]
#[verifier::external_body]
pub struct ExJoinError(JoinError);

/// Whether any of the awaited tasks ended in an error.
pub open spec fn any_failed(results: Seq<Result<(), JoinError>>) -> bool {
    exists|i: int| 0 <= i < results.len() && #[trigger] results[i] is Err
}

/// Sums up what awaiting the consumers of a session has given: a failure if
/// any of them ended in a panic, whatever the others did.
pub fn join_outcome(results: &Vec<Result<(), JoinError>>) -> (outcome: Result<(), String>)
    ensures
        outcome is Ok <==> !any_failed(results@),
        outcome matches Err(text) ==> text@ == tasks_panicked_text(),
{
    let mut had_errors = false;
    let mut i: usize = 0;
    while i < results.len()
        invariant
            i <= results.len(),
            had_errors <==> any_failed(results@.take(i as int)),
        decreases results.len() - i,
    {
        if results[i].is_err() {
            had_errors = true;
            assert(results@.take(i + 1)[i as int] is Err);
        }
        i += 1;
    }
    assert(results@.take(i as int) =~= results@);
    if had_errors {
        Err(tasks_panicked())
    } else {
        Ok(())
    }
}

} // verus!
