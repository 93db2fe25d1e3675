//! Deadlines of transports. A time is a number of nanoseconds since some start.

use vstd::prelude::*;

use crate::error;
use crate::error::RuntimeError;

verus! {

pub const MAX_TRANSPORT_SETUP_TIMEOUT_MS: u64 = 5_000;

pub const KUN_SHARED_RUNTIME_STARTUP_RETRY_WINDOW_MS: u64 = 250;

/// When a piece of work must be over.
#[derive(Clone, Copy, Debug, PartialEq, Eq, Structural)]
pub struct TransportDeadline {
    pub ends_at: u128,
}

impl TransportDeadline {
    /// The deadline that lies `timeout` behind `now`.
    pub fn after(now: u128, timeout: u128) -> (r: Self)
        requires
            now + timeout <= u128::MAX,
        ensures
            r.ends_at == now + timeout,
    {
        TransportDeadline { ends_at: now + timeout }
    }

    /// The time that is left, which is never nothing.
    pub fn remaining(self, now: u128) -> (r: Result<u128, RuntimeError>)
        ensures
            match r {
                Ok(left) => now < self.ends_at && left == self.ends_at - now,
                Err(e) => now >= self.ends_at && e@ == error::ErrorView::Timeout,
            },
    {
        if now < self.ends_at {
            Ok(self.ends_at - now)
        } else {
            Err(RuntimeError::Timeout)
        }
    }

    /// This deadline, or the one that lies `cap` behind `now` if that is earlier.
    pub fn capped(self, now: u128, cap: u128) -> (r: Self)
        requires
            now + cap <= u128::MAX,
        ensures
            r.ends_at == if self.ends_at <= now + cap {
                self.ends_at as int
            } else {
                now + cap
            },
    {
        if self.ends_at <= now + cap {
            self
        } else {
            TransportDeadline { ends_at: now + cap }
        }
    }
}

} // verus!
