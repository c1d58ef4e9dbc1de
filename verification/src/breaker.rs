//! The transport circuit breaker.
//!
//! A source adapter counts consecutive receive failures — processing
//! failures do not count — and, once the threshold is reached, suspends
//! consumption for a cooldown before resuming. The decisions live here,
//! verified; the adapter loop performs the waiting and the receiving.

use vstd::prelude::*;

verus! {

/// The breaker's state: how many receives failed in a row, and how many
/// trip the breaker.
#[derive(Debug, Clone, Copy, PartialEq, Eq, Structural)]
pub struct CircuitBreaker {
    pub consecutive_failures: u32,
    pub max_retries: u32,
}

impl CircuitBreaker {
    /// A fresh breaker: no failures seen.
    pub fn new(max_retries: u32) -> (r: CircuitBreaker)
        ensures
            r.consecutive_failures == 0,
            r.max_retries == max_retries,
    {
        CircuitBreaker { consecutive_failures: 0, max_retries }
    }

    /// The threshold is reached: consumption must pause.
    pub open spec fn tripped(self) -> bool {
        self.consecutive_failures >= self.max_retries
    }

    /// Checked before each receive: a tripped breaker orders one cooldown
    /// and resets; an untripped one is left as it is.
    pub fn should_pause(&mut self) -> (r: bool)
        ensures
            r == old(self).tripped(),
            final(self).max_retries == old(self).max_retries,
            r ==> final(self).consecutive_failures == 0,
            !r ==> *final(self) == *old(self),
    {
        if self.consecutive_failures >= self.max_retries {
            self.consecutive_failures = 0;
            true
        } else {
            false
        }
    }

    /// A successful receive resets the failure count atomically.
    pub fn on_success(&mut self)
        ensures
            final(self).consecutive_failures == 0,
            final(self).max_retries == old(self).max_retries,
    {
        self.consecutive_failures = 0;
    }

    /// A failed receive counts, saturating rather than wrapping.
    pub fn on_failure(&mut self)
        ensures
            final(self).max_retries == old(self).max_retries,
            final(self).consecutive_failures == if old(self).consecutive_failures < 0xFFFF_FFFFu32 {
                old(self).consecutive_failures + 1
            } else {
                old(self).consecutive_failures as int
            },
    {
        if self.consecutive_failures < 0xFFFF_FFFFu32 {
            self.consecutive_failures = self.consecutive_failures + 1;
        }
    }
}

} // verus!
