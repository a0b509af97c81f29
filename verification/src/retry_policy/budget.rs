use vstd::prelude::*;

verus! {

/// The count limit on the retries of one operation: each retriable failure consumes one
/// attempt until the limit is reached, and failures that are not retriable consume nothing.
///
/// The `k`-th granted retry (counting from zero) is told its index, which selects the `k`-th
/// backoff interval.
#[derive(Debug, Clone, Copy, PartialEq, Eq, Structural)]
pub struct RetryBudget {
    used: usize,
    limit: usize,
}

/// The outputs of a budget that starts with `used` attempts consumed out of `limit`, fed with
/// the given sequence of failures (`true` for a retriable one).
pub open spec fn budget_run(used: nat, limit: nat, events: Seq<bool>) -> Seq<Option<nat>>
    decreases events.len(),
{
    if events.len() == 0 {
        Seq::empty()
    } else if events[0] && used < limit {
        seq![Some(used)] + budget_run(used + 1, limit, events.drop_first())
    } else {
        seq![None] + budget_run(used, limit, events.drop_first())
    }
}

/// The number of retriable failures in a sequence of failures.
pub open spec fn count_retriable(events: Seq<bool>) -> nat
    decreases events.len(),
{
    if events.len() == 0 {
        0
    } else {
        (if events[0] {
            1nat
        } else {
            0nat
        }) + count_retriable(events.drop_first())
    }
}

/// The number of granted retries in a sequence of outputs.
pub open spec fn count_retries(outs: Seq<Option<nat>>) -> nat
    decreases outs.len(),
{
    if outs.len() == 0 {
        0
    } else {
        (if outs[0] is Some {
            1nat
        } else {
            0nat
        }) + count_retries(outs.drop_first())
    }
}

/// Retries are capped by count: a budget with `limit - used` attempts left grants exactly
/// `min(retriable failures, attempts left)` retries, never grants one for a failure that is
/// not retriable, and hands out the indices `used, used + 1, ...` in order.
pub proof fn lemma_budget_caps_retries(used: nat, limit: nat, events: Seq<bool>)
    requires
        used <= limit,
    ensures
        budget_run(used, limit, events).len() == events.len(),
        count_retries(budget_run(used, limit, events)) == if count_retriable(events) <= (limit
            - used) {
            count_retriable(events)
        } else {
            (limit - used) as nat
        },
        forall|i: int|
            0 <= i < events.len() && !events[i] ==> #[trigger] budget_run(used, limit, events)[i]
                is None,
        forall|i: int|
            0 <= i < events.len() && budget_run(used, limit, events)[i] is Some ==> used
                <= #[trigger] budget_run(used, limit, events)[i]->0 < limit,
    decreases events.len(),
{
    if events.len() > 0 {
        let rest = events.drop_first();
        if events[0] && used < limit {
            lemma_budget_caps_retries(used + 1, limit, rest);
        } else {
            lemma_budget_caps_retries(used, limit, rest);
        }
        let out = budget_run(used, limit, events);
        let tail = if events[0] && used < limit {
            budget_run(used + 1, limit, rest)
        } else {
            budget_run(used, limit, rest)
        };
        assert(out.drop_first() =~= tail);
        assert forall|i: int| 0 < i < events.len() implies out[i] == tail[i - 1] && events[i]
            == rest[i - 1] by {}
    }
}

impl RetryBudget {
    /// The number of retries granted so far.
    pub closed spec fn used_spec(self) -> nat {
        self.used as nat
    }

    /// The most retries that will ever be granted.
    pub closed spec fn limit_spec(self) -> nat {
        self.limit as nat
    }

    /// A fresh budget of `max_retries` attempts; `None` places no practical limit, allowing up
    /// to `usize::MAX` retries.
    pub fn new(max_retries: Option<usize>) -> (b: Self)
        ensures
            b.used_spec() == 0,
            b.limit_spec() == match max_retries {
                Some(n) => n as nat,
                None => usize::MAX as nat,
            },
    {
        let limit = match max_retries {
            Some(n) => n,
            None => usize::MAX,
        };
        RetryBudget { used: 0, limit }
    }

    /// Whether the budget still allows a retry.
    pub fn has_remaining(&self) -> (r: bool)
        ensures
            r == (self.used_spec() < self.limit_spec()),
    {
        self.used < self.limit
    }

    /// Decide on one failure: for a retriable failure while attempts remain, consume one and
    /// return the index of this retry; otherwise return `None` and leave the budget unchanged.
    pub fn check_retry(&mut self, retriable: bool) -> (r: Option<usize>)
        ensures
            final(self).limit_spec() == old(self).limit_spec(),
            if retriable && old(self).used_spec() < old(self).limit_spec() {
                &&& r matches Some(k) && k == old(self).used_spec()
                &&& final(self).used_spec() == old(self).used_spec() + 1
            } else {
                &&& r is None
                &&& *final(self) == *old(self)
            },
            budget_run(old(self).used_spec(), old(self).limit_spec(), seq![retriable])
                == seq![
                match r {
                    Some(k) => Some(k as nat),
                    None => None,
                },
            ],
    {
        let r = if retriable && self.used < self.limit {
            let k = self.used;
            self.used = self.used + 1;
            Some(k)
        } else {
            None
        };
        proof {
            let ev = seq![retriable];
            assert(ev.drop_first() =~= Seq::<bool>::empty());
            reveal_with_fuel(budget_run, 2);
        }
        r
    }
}

} // verus!
