//! A collection of traits and types used to retry operations.
//!
//! The caller performs each attempt of an operation itself; a policy only tells it, after a
//! failure, whether to try again and how long to wait first.
mod budget;
mod no_retry;

pub use budget::{budget_run, count_retriable, count_retries, lemma_budget_caps_retries, RetryBudget};
pub use no_retry::NoRetry;

use vstd::prelude::*;

verus! {

/// A policy to determine how operations should be retried after failure.
pub trait RetryPolicy<T, E> {
    /// The [`RetryOperation`] returned by [`new_operation`](RetryPolicy::new_operation)
    type RetryOp: RetryOperation<T, E>;

    /// Whether the policy may hand out `op` as a new operation and become `next` in doing so.
    /// A policy that states nothing of its operations allows every outcome.
    open spec fn makes_operation(&self, op: Self::RetryOp, next: &Self) -> bool {
        true
    }

    /// Prepare to retry some operation.
    fn new_operation(&mut self) -> (op: Self::RetryOp)
        ensures
            old(self).makes_operation(op, &*final(self)),
    ;
}

/// A representation of retrying some specific operation instance, created by a [`RetryPolicy`].
pub trait RetryOperation<T, E> {
    /// Determine whether the given operation attempt should be retried: the number of
    /// milliseconds to wait before the next attempt, or `None` when the operation should not be
    /// retried.
    fn check_retry(&mut self, failed_value: &T, error: &E) -> (r: Option<u64>)
        ensures
            old(self).decides(failed_value, error, r, &*final(self)),
    ;

    /// Whether, after the failure of an attempt on `failed_value` with `error`, the operation
    /// may answer `decision` and become `next` in doing so. An operation that states nothing
    /// of its decisions allows every outcome.
    open spec fn decides(&self, failed_value: &T, error: &E, decision: Option<u64>, next: &Self) -> bool {
        true
    }
}

/// A predicate used to check whether a given error can be retried.
pub trait RetryPredicate<E> {
    /// Determine whether the given error is retriable
    fn is_retriable(&self, error: &E) -> bool;
}

/// An implementation-provider for timed sleeping.
///
/// This is used to generically support different async runtimes' sleeping functions
pub trait Sleeper {
    /// The type of the future returned by [`sleep`](Sleeper::sleep)
    type Sleep: core::future::Future<Output = ()>;

    /// Return a future that will sleep for the given amount of time when awaited
    fn sleep(&self, time: core::time::Duration) -> Self::Sleep;
}

} // verus!
