//! How often a listener that lost its connection tries again before it
//! gives up.

use crate::instant::{Instant, SECOND_NANOS};
use vstd::prelude::*;

verus! {

/// The failures in a row after which a listener gives up.
pub const MAX_RETRIES: u32 = 10;

/// The seconds after which an earlier failure is forgotten.
pub const QUIET_SECONDS: i64 = 60;

/// The failures of a listener: how many came in a row, each within
/// `QUIET_SECONDS` of the one before, and when the last one was.
#[derive(Clone, Copy, Debug, PartialEq, Eq, Structural)]
pub struct Retries {
    pub retries: u32,
    pub last_error: Option<Instant>,
}

impl Retries {
    /// No failure yet.
    pub fn new() -> (r: Retries)
        ensures
            r == (Retries { retries: 0, last_error: None }),
    {
        Retries { retries: 0, last_error: None }
    }

    /// Whether a failure at `now` starts a new row: there was none before,
    /// or the last one is more than `QUIET_SECONDS` ago.
    pub open spec fn starts_anew(self, now: Instant) -> bool {
        match self.last_error {
            Some(last) => now.nanos_since(last) > QUIET_SECONDS * SECOND_NANOS,
            None => true,
        }
    }

    /// The failures after one more at `now`.
    pub open spec fn after_failure(self, now: Instant) -> Retries {
        Retries {
            retries: if self.starts_anew(now) {
                1
            } else if self.retries < u32::MAX {
                (self.retries + 1) as u32
            } else {
                self.retries
            },
            last_error: Some(now),
        }
    }

    /// Whether the listener may try again: no more than `MAX_RETRIES`
    /// failures came in a row.
    pub open spec fn may_retry(self) -> bool {
        self.retries <= MAX_RETRIES
    }

    /// Counts a failure at `now` and tells whether to try again.
    pub fn failed(&mut self, now: Instant) -> (again: bool)
        ensures
            *final(self) == old(self).after_failure(now),
            again == final(self).may_retry(),
    {
        let anew: bool = match self.last_error {
            Some(last) => now.elapsed_since(&last) > 60_000_000_000,
            None => true,
        };
        if anew {
            self.retries = 1;
        } else if self.retries < u32::MAX {
            self.retries = self.retries + 1;
        }
        self.last_error = Some(now);
        self.retries <= MAX_RETRIES
    }
}

} // verus!
