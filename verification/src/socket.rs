//! When to stop trying to reach an IRC server.

use vstd::prelude::*;

verus! {

/// Where the server is, and how long to keep trying to reach it.
#[derive(Debug, PartialEq, Eq)]
pub struct IrcSocketConfig {
    pub addr: String,
    /// The number of failures after which a further failure is final;
    /// without it no failure is final.
    pub max_retries: Option<usize>,
}

impl Clone for IrcSocketConfig {
    fn clone(&self) -> (r: Self)
        ensures
            r == *self,
    {
        IrcSocketConfig { addr: self.addr.clone(), max_retries: self.max_retries }
    }
}

/// What to do after an attempt to connect has failed.
#[derive(Clone, Copy, Debug, PartialEq, Eq)]
pub enum Retry {
    /// Try again; this many attempts have failed so far.
    Again(usize),
    /// Give up and report the failure.
    GiveUp,
}

impl IrcSocketConfig {
    /// Whether a failure that follows `failed` failures is final: it is
    /// if `failed` is over the limit.
    pub open spec fn gives_up_after(self, failed: nat) -> bool {
        match self.max_retries {
            Some(max) => failed > max,
            None => false,
        }
    }

    /// What to do when an attempt has failed after `failed` earlier
    /// failures. The count of failures stops at the largest number
    /// that it can hold.
    pub fn after_failure(&self, failed: usize) -> (r: Retry)
        ensures
            r == (if self.gives_up_after(failed as nat) {
                Retry::GiveUp
            } else if failed < usize::MAX {
                Retry::Again((failed + 1) as usize)
            } else {
                Retry::Again(failed)
            }),
    {
        let over = match self.max_retries {
            Some(max) => failed > max,
            None => false,
        };
        if over {
            Retry::GiveUp
        } else if failed < usize::MAX {
            Retry::Again(failed + 1)
        } else {
            Retry::Again(failed)
        }
    }
}

/// With a limit, the attempts come to an end: the failure after one more
/// failure than the limit allows is final, and no failure before it is.
pub proof fn lemma_retries_end(config: IrcSocketConfig, failed: nat)
    requires
        config.max_retries is Some,
    ensures
        config.gives_up_after(failed) <==> failed >= config.max_retries->0 + 1,
{
}

} // verus!
