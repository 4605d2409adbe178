//! Trying again after a transient failure: at most three times in a row,
//! after a short pause each time.

use crate::http::IoErrorKind;
use vstd::prelude::*;

verus! {

/// How many transient failures in a row are answered by another attempt.
pub const MAX_RETRIES: u32 = 3;

/// How long to pause before another attempt, in milliseconds.
pub const RETRY_DELAY_MS: u64 = 50;

/// What to do about a failed read or write.
#[derive(Debug, Clone, Copy, PartialEq, Eq, Structural)]
pub enum RetryDecision {
    /// Pause for this many milliseconds, then try the same operation again.
    Again(u64),
    /// Report the failure.
    GiveUp,
}

/// Whether a failure of this kind, after `failures` transient ones in a
/// row, is answered by another attempt.
pub open spec fn retries(failures: nat, kind: IoErrorKind) -> bool {
    kind.transient() && failures < MAX_RETRIES
}

/// Counts the transient failures since the last success.
#[derive(Debug, Clone, Copy, PartialEq, Eq, Structural)]
pub struct Retry {
    failures: u32,
}

impl View for Retry {
    type V = nat;

    closed spec fn view(&self) -> nat {
        self.failures as nat
    }
}

impl Retry {
    #[verifier::type_invariant]
    spec fn within_limit(self) -> bool {
        self.failures <= MAX_RETRIES
    }

    /// A counter that has seen no failure.
    pub fn new() -> (r: Retry)
        ensures
            r@ == 0,
    {
        Retry { failures: 0 }
    }

    /// The number of transient failures since the last success.
    pub fn failures(&self) -> (n: u32)
        ensures
            n == self@,
            n <= MAX_RETRIES,
    {
        proof {
            use_type_invariant(self);
        }
        self.failures
    }

    /// Notes a success: the count starts again.
    pub fn on_success(&mut self)
        ensures
            final(self)@ == 0,
    {
        self.failures = 0;
    }

    /// Notes a failure and says what to do about it. A transient failure is
    /// retried after a pause unless three in a row came before it; any other
    /// failure is final, and so is the fourth transient one.
    pub fn on_failure(&mut self, kind: IoErrorKind) -> (d: RetryDecision)
        ensures
            retries(old(self)@, kind) ==> d == RetryDecision::Again(RETRY_DELAY_MS)
                && final(self)@ == old(self)@ + 1,
            !retries(old(self)@, kind) ==> d == RetryDecision::GiveUp
                && final(self)@ == old(self)@,
    {
        proof {
            use_type_invariant(&*self);
        }
        if kind.is_transient() && self.failures < MAX_RETRIES {
            self.failures = self.failures + 1;
            RetryDecision::Again(RETRY_DELAY_MS)
        } else {
            RetryDecision::GiveUp
        }
    }
}

} // verus!
