//! The executor's retry rule: which store failures are tried again, and how
//! often. The caller runs the statement and reports each outcome.

use vstd::prelude::*;

verus! {

/// How one run of a statement against the store ended.
#[derive(Clone, Copy, Debug, PartialEq, Eq, Structural)]
pub enum Outcome {
    Success,
    /// A lock timeout, deadlock or dropped connection.
    Transient,
    /// A constraint violation, corruption or unrecoverable I/O.
    Fatal,
}

/// What the executor does next.
#[derive(Clone, Copy, Debug, PartialEq, Eq, Structural)]
pub enum Next {
    Done,
    Retry,
    /// Surface the error; any open transaction is rolled back.
    Fail,
}

/// Decides what follows an outcome, given how many retries were already
/// made. Only transient failures are retried, at most `max_retries` times.
pub fn after_attempt(retries_made: u32, max_retries: u32, outcome: Outcome) -> (r: Next)
    ensures
        outcome == Outcome::Success ==> r == Next::Done,
        outcome == Outcome::Fatal ==> r == Next::Fail,
        outcome == Outcome::Transient ==> r == if retries_made < max_retries {
            Next::Retry
        } else {
            Next::Fail
        },
{
    match outcome {
        Outcome::Success => Next::Done,
        Outcome::Fatal => Next::Fail,
        Outcome::Transient => if retries_made < max_retries {
            Next::Retry
        } else {
            Next::Fail
        },
    }
}

} // verus!
