//! Readiness probing decisions: whether to accept a candidate file, retry
//! after a delay, or give up.
//!
//! The caller owns the filesystem check (does the file exist and read
//! fully?) and the sleeping; the prober only accounts for the attempt
//! budget, so a freshly created file that is still being written is
//! retried a bounded number of times and never busy-looped on.

use vstd::prelude::*;

verus! {

/// How many times a candidate file is probed before it is given up on.
pub const DEFAULT_PROBE_ATTEMPTS: u8 = 15;

/// What to do after one readiness check.
#[derive(Clone, Copy, Debug, PartialEq, Eq, Structural)]
pub enum ProbeStep {
    /// The file is present and fully readable: proceed.
    Ready,
    /// Not ready yet: sleep the full delay, then probe again.
    RetryAfterDelay,
    /// The attempt budget is exhausted: stop waiting.
    GiveUp,
}

/// Bounded retry budget for probing one candidate file.
pub struct Prober {
    /// Attempts that may still be spent.
    pub attempts_left: u8,
}

impl Prober {
    /// A prober that will check readiness up to `attempts` times.
    pub fn new(attempts: u8) -> (r: Prober)
        ensures
            r.attempts_left == attempts,
    {
        Prober { attempts_left: attempts }
    }

    /// Accounts for one readiness check with outcome `ready`: succeeds on
    /// the first ready sighting, spends one attempt on a failure, and
    /// gives up exactly when the budget runs out.
    pub fn step(&mut self, ready: bool) -> (r: ProbeStep)
        ensures
            old(self).attempts_left == 0 ==> r == ProbeStep::GiveUp && final(self).attempts_left
                == 0,
            old(self).attempts_left > 0 && ready ==> r == ProbeStep::Ready
                && final(self).attempts_left == old(self).attempts_left,
            old(self).attempts_left > 0 && !ready ==> final(self).attempts_left == old(
                self,
            ).attempts_left - 1 && (if final(self).attempts_left > 0 {
                r == ProbeStep::RetryAfterDelay
            } else {
                r == ProbeStep::GiveUp
            }),
    {
        if self.attempts_left == 0 {
            ProbeStep::GiveUp
        } else if ready {
            ProbeStep::Ready
        } else {
            self.attempts_left = self.attempts_left - 1;
            if self.attempts_left > 0 {
                ProbeStep::RetryAfterDelay
            } else {
                ProbeStep::GiveUp
            }
        }
    }
}

}
