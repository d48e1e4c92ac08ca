//! Bounded retry with backoff: how long to wait before each further try,
//! and when to give up.

use vstd::prelude::*;

verus! {

/// How often to try and how long to wait in between.
#[derive(Clone, Copy, Debug, PartialEq, Eq, Structural)]
pub struct RetryPolicy {
    /// The number of tries, the first one included.
    pub max_attempts: u32,
    /// The wait after the first failed try.
    pub base_delay: u64,
    /// The longest wait.
    pub max_delay: u64,
}

/// A run of tries under a policy.
#[derive(Clone, Copy, Debug, PartialEq, Eq, Structural)]
pub struct Retry {
    pub policy: RetryPolicy,
    /// The number of tries that failed.
    pub failures: u32,
}

/// The wait after the given number of failed tries: the base delay doubled
/// with each failure after the first, and at most the longest wait.
pub open spec fn spec_delay(policy: RetryPolicy, failures: nat) -> int
    decreases failures,
{
    if failures <= 1 {
        if policy.base_delay <= policy.max_delay {
            policy.base_delay as int
        } else {
            policy.max_delay as int
        }
    } else {
        let doubled = 2 * spec_delay(policy, (failures - 1) as nat);
        if doubled <= policy.max_delay {
            doubled
        } else {
            policy.max_delay as int
        }
    }
}

/// No wait is longer than the longest wait, and the waits never shrink.
pub proof fn lemma_delay_bounded(policy: RetryPolicy, failures: nat)
    ensures
        0 <= spec_delay(policy, failures) <= policy.max_delay,
        failures >= 1 ==> spec_delay(policy, failures) <= spec_delay(policy, failures + 1),
    decreases failures,
{
    if failures > 1 {
        lemma_delay_bounded(policy, (failures - 1) as nat);
    }
}

impl Retry {
    /// A run in which nothing has failed yet.
    pub fn new(policy: RetryPolicy) -> (retry: Retry)
        ensures
            retry == (Retry { policy, failures: 0 }),
    {
        Retry { policy, failures: 0 }
    }

    /// Records a failed try. Returns the wait before the next try, or
    /// `None` where no try is left.
    pub fn fail(&mut self) -> (wait: Option<u64>)
        ensures
            final(self).policy == old(self).policy,
            wait is Some <==> old(self).failures + 1 < old(self).policy.max_attempts,
            wait matches Some(w) ==> w == spec_delay(
                old(self).policy,
                (old(self).failures + 1) as nat,
            ) && final(self).failures == old(self).failures + 1,
            wait is None ==> final(self).failures == old(self).failures,
    {
        if self.failures >= u32::MAX - 1 || self.failures + 1 >= self.policy.max_attempts {
            return None;
        }
        self.failures = self.failures + 1;
        let limit: u64 = self.policy.max_delay;
        let mut delay: u64 = if self.policy.base_delay <= limit {
            self.policy.base_delay
        } else {
            limit
        };
        let mut k: u32 = 1;
        while k < self.failures
            invariant
                1 <= k <= self.failures,
                limit == self.policy.max_delay,
                delay == spec_delay(self.policy, k as nat),
                delay <= limit,
            decreases self.failures - k,
        {
            delay = if delay <= limit / 2 {
                delay * 2
            } else {
                limit
            };
            k += 1;
        }
        Some(delay)
    }
}

} // verus!
