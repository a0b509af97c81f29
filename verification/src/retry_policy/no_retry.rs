use vstd::prelude::*;

use super::{RetryOperation, RetryPolicy};

verus! {

/// A retry policy where operations are never retried
#[derive(Debug, Clone, Copy, Default)]
pub struct NoRetry {
    _private: (),
}

impl NoRetry {
    /// Create a new `NoRetry` policy
    pub fn new() -> (r: Self) {
        Self { _private: () }
    }
}

impl<T, E> RetryPolicy<T, E> for NoRetry {
    type RetryOp = NoRetry;

    fn new_operation(&mut self) -> (op: NoRetry) {
        NoRetry::new()
    }
}

impl<T, E> RetryOperation<T, E> for NoRetry {
    open spec fn decides(&self, failed_value: &T, error: &E, decision: Option<u64>, next: &Self) -> bool {
        decision is None
    }

    fn check_retry(&mut self, failed_value: &T, error: &E) -> (r: Option<u64>) {
        None
    }
}

} // verus!
