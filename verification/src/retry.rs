//! When a failed transaction, or a commit of unknown outcome, is tried again.

use vstd::prelude::*;

use crate::driver::{contains_label, transient_transaction_label, unknown_commit_label};
#[allow(unused_imports)]
use crate::driver::error_labels;

verus! {

/// How long to keep retrying a transaction that keeps failing with a transient error, or a
/// commit whose result is unknown, before giving up: two minutes, in nanoseconds.
pub const RETRY_TIMEOUT_NANOS: u128 = 120_000_000_000;

/// Whether the error says that the whole transaction may be run again.
pub open spec fn is_transient(err: mongodb::error::Error) -> bool {
    error_labels(err).contains("TransientTransactionError"@)
}

/// Whether the error says that the commit may or may not have taken effect.
pub open spec fn is_commit_unknown(err: mongodb::error::Error) -> bool {
    error_labels(err).contains("UnknownTransactionCommitResult"@)
}

/// Whether an attempt that counts from `since` may still be followed by another at `now`.
pub open spec fn within_window(since: u128, now: u128) -> bool {
    now < since + RETRY_TIMEOUT_NANOS
}

/// Whether `err` carries the driver's label for transient transaction errors.
pub fn is_transient_transaction_error(err: &mongodb::error::Error) -> (transient: bool)
    ensures
        transient == is_transient(*err),
        transient == error_labels(*err).contains("TransientTransactionError"@),
{
    contains_label(err, transient_transaction_label())
}

/// Whether `err` carries the driver's label for commits of unknown outcome.
pub fn is_unknown_commit_result(err: &mongodb::error::Error) -> (unknown: bool)
    ensures
        unknown == is_commit_unknown(*err),
        unknown == error_labels(*err).contains("UnknownTransactionCommitResult"@),
{
    contains_label(err, unknown_commit_label())
}

/// Whether `now` lies before the deadline of what began at `since`. Both are readings of one
/// clock, in nanoseconds.
pub fn before_deadline(since: u128, now: u128) -> (before: bool)
    ensures
        before == within_window(since, now),
        before <==> now - since < 120_000_000_000,
{
    now < since || now - since < RETRY_TIMEOUT_NANOS
}

} // verus!
