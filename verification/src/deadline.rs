//! What a caller gets back from an operation that was raced against a deadline.

use crate::error::{ErrorKind, HdfsError};
use vstd::prelude::*;

verus! {

/// The failure that tokio's timer reports for a future run under a deadline:
/// the future's own error, the deadline, or a fault of the timer itself.
/// Nothing inside it is visible to the proofs.
#[verifier::external_type_specification]
#[verifier::external_body]
#[verifier::reject_recursive_types(T)]
pub struct ExTimeoutError<T>(tokio::timer::timeout::Error<T>);

/// The operation's own error inside the failure of a deadline race: `Some`
/// where the operation itself failed, `None` where the deadline passed or the
/// timer broke. It is what `tokio::timer::timeout::Error::into_inner` hands
/// out, which depends on the failure alone.
pub uninterp spec fn own_failure(e: tokio::timer::timeout::Error<HdfsError>) -> Option<HdfsError>;

/// Calls `tokio::timer::timeout::Error::into_inner`. The contract gives the
/// result its name and claims nothing else of it; it is believed, not proved.
#[verifier::external_body]
fn into_own_failure(e: tokio::timer::timeout::Error<HdfsError>) -> (inner: Option<HdfsError>)
    ensures
        inner == own_failure(e),
{
    e.into_inner()
}

/// The message of a failure caused by the deadline.
pub open spec fn timed_out_message() -> Seq<char> {
    "HTTP operation timed out"@
}

/// The failure reported for an operation that did not succeed under its
/// deadline: the operation's own error where it got as far as failing, and a
/// timeout otherwise.
pub fn failure_of(inner: Option<HdfsError>) -> (e: HdfsError)
    ensures
        inner matches Some(own) ==> e == own,
        inner is None ==> e.is(ErrorKind::Timeout, timed_out_message()),
{
    match inner {
        Some(own) => own,
        None => HdfsError::timeout("HTTP operation timed out"),
    }
}

/// Turns the outcome of a deadline race into the caller's result. An operation
/// that finished in time keeps its value, and one that failed in time keeps
/// its own error, both unchanged. Every other outcome is a timeout, whatever
/// became of the operation on the cluster.
pub fn settle<R>(raced: Result<R, tokio::timer::timeout::Error<HdfsError>>) -> (r: Result<
    R,
    HdfsError,
>)
    ensures
        raced matches Ok(value) ==> r == Ok::<R, HdfsError>(value),
        raced matches Err(e) ==> (r matches Err(f) && match own_failure(e) {
            Some(own) => f == own,
            None => f.is(ErrorKind::Timeout, timed_out_message()),
        }),
{
    match raced {
        Ok(value) => Ok(value),
        Err(e) => Err(failure_of(into_own_failure(e))),
    }
}

} // verus!
