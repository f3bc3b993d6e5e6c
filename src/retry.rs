use vstd::prelude::*;

verus! {

/// Bounded retry with a mandatory, never-zero pause between attempts.
#[derive(Debug, Clone, Copy, PartialEq, Eq, Structural)]
pub struct RetryPolicy {
    /// The most attempts that one call may make, the first included.
    pub max_attempts: u32,
    /// The pause before the first retry, in milliseconds.
    pub delay_ms: u64,
    /// Whether the pause doubles after each further failure.
    pub exponential: bool,
}

/// What to do after a failed attempt.
#[derive(Debug, Clone, Copy, PartialEq, Eq, Structural)]
pub enum RetryStep {
    /// Wait this many milliseconds, then make the next attempt.
    Retry { delay_ms: u64 },
    /// The attempt budget is spent: report the last failure.
    GiveUp,
}

/// `base` doubled `k` times, saturating at `u64::MAX`.
pub open spec fn doubled(base: u64, k: nat) -> u64
    decreases k,
{
    if k == 0 {
        base
    } else {
        let prev = doubled(base, (k - 1) as nat);
        if prev > u64::MAX / 2 {
            u64::MAX
        } else {
            (2 * prev) as u64
        }
    }
}

impl RetryPolicy {
    pub open spec fn valid(&self) -> bool {
        self.max_attempts >= 1 && self.delay_ms >= 1
    }

    /// The pause after the `failures`-th failed attempt.
    pub open spec fn pause(&self, failures: nat) -> u64 {
        if self.exponential {
            doubled(self.delay_ms, (failures - 1) as nat)
        } else {
            self.delay_ms
        }
    }

    /// A policy; a zero attempt budget or a zero pause is refused.
    pub fn new(max_attempts: u32, delay_ms: u64, exponential: bool) -> (r: Option<RetryPolicy>)
        ensures
            (max_attempts >= 1 && delay_ms >= 1) <==> r is Some,
            r matches Some(p) ==> p == (RetryPolicy { max_attempts, delay_ms, exponential }),
    {
        if max_attempts >= 1 && delay_ms >= 1 {
            Some(RetryPolicy { max_attempts, delay_ms, exponential })
        } else {
            None
        }
    }

    /// Decides after the `failures`-th consecutive failure of one call.
    pub fn after_failure(&self, failures: u32) -> (r: RetryStep)
        requires
            self.valid(),
            failures >= 1,
        ensures
            failures >= self.max_attempts ==> r == RetryStep::GiveUp,
            failures < self.max_attempts ==> r == (RetryStep::Retry {
                delay_ms: self.pause(failures as nat),
            }),
            r matches RetryStep::Retry { delay_ms } ==> delay_ms >= 1,
    {
        if failures >= self.max_attempts {
            return RetryStep::GiveUp;
        }
        if !self.exponential {
            return RetryStep::Retry { delay_ms: self.delay_ms };
        }
        let mut d: u64 = self.delay_ms;
        let mut k: u32 = 1;
        while k < failures
            invariant
                1 <= k <= failures,
                d == doubled(self.delay_ms, (k - 1) as nat),
                d >= 1,
            decreases failures - k,
        {
            if d > u64::MAX / 2 {
                d = u64::MAX;
            } else {
                d = 2 * d;
            }
            k = k + 1;
        }
        RetryStep::Retry { delay_ms: d }
    }
}

} // verus!
