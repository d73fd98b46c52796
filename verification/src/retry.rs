//! The bounded retry policy for recovering a lost connection.

use vstd::prelude::*;

verus! {

/// How often, and how far apart, a reconnect is attempted before the session
/// gives up for good.
#[derive(Clone, Copy, Debug, PartialEq, Eq, Structural)]
pub struct ReconnectPolicy {
    /// The number of attempts after which recovery is abandoned.
    pub max_attempts: u32,
    /// The pause before each attempt, in milliseconds.
    pub delay_ms: u64,
}

/// What to do next while recovering.
#[derive(Clone, Copy, Debug, PartialEq, Eq, Structural)]
pub enum RetryDecision {
    /// Pause for the given number of milliseconds, then attempt to reconnect.
    Attempt(u64),
    /// The budget is spent: stop trying.
    GiveUp,
}

impl ReconnectPolicy {
    /// The decision after `made` failed attempts.
    pub open spec fn spec_decide(self, made: nat) -> RetryDecision {
        if made < self.max_attempts {
            RetryDecision::Attempt(self.delay_ms)
        } else {
            RetryDecision::GiveUp
        }
    }

    /// A policy of `max_attempts` attempts, each after `delay_ms`
    /// milliseconds.
    pub fn new(max_attempts: u32, delay_ms: u64) -> (p: ReconnectPolicy)
        ensures
            p.max_attempts == max_attempts,
            p.delay_ms == delay_ms,
    {
        ReconnectPolicy { max_attempts, delay_ms }
    }

    /// The decision after `made` failed attempts: another attempt after the
    /// fixed pause while the budget lasts, then no more.
    pub fn decide(&self, made: u32) -> (d: RetryDecision)
        ensures
            d == self.spec_decide(made as nat),
    {
        if made < self.max_attempts {
            RetryDecision::Attempt(self.delay_ms)
        } else {
            RetryDecision::GiveUp
        }
    }
}

impl Default for ReconnectPolicy {
    /// Twelve attempts, five seconds apart.
    fn default() -> (p: ReconnectPolicy)
        ensures
            p.max_attempts == 12,
            p.delay_ms == 5000,
    {
        ReconnectPolicy { max_attempts: 12, delay_ms: 5000 }
    }
}

} // verus!
