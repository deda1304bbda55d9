//! The cancellation primitive: an absolute deadline computed from a
//! requested duration, consulted by every transport and discovery
//! operation that must be bounded.
//!
//! Time is modelled as milliseconds since the unix epoch.  The only
//! unverified step is reading the wall clock; all deadline arithmetic is
//! verified against the `_at` functions, which take the clock reading as
//! an argument.

use vstd::prelude::*;

use crate::error::{KitsuneError, KitsuneResult};

verus! {

/// Relies on `std::time::SystemTime::now` and
/// `SystemTime::duration_since`: milliseconds since the unix epoch, or
/// `Err` when the clock reads before the epoch or past what `u64`
/// milliseconds can hold.  Nothing is promised of the value: the clock is
/// the machine's.
#[verifier::external_body]
pub(crate) fn sys_now_ms() -> (r: Result<u64, ()>) {
    match std::time::SystemTime::now().duration_since(std::time::UNIX_EPOCH) {
        Ok(d) => u64::try_from(d.as_millis()).map_err(|_| ()),
        Err(_) => Err(()),
    }
}

/// An absolute expiry instant.  Immutable once created; every operation
/// that must be cancellable takes one.
#[derive(Debug, Clone, Copy, PartialEq, Eq, Structural)]
pub struct KitsuneTimeout {
    deadline_ms: u64,
}

impl KitsuneTimeout {
    /// The absolute expiry instant, in milliseconds since the unix epoch.
    pub closed spec fn deadline(self) -> u64 {
        self.deadline_ms
    }

    /// Expired at clock reading `now_ms`: the deadline has been reached.
    pub open spec fn spec_expired(self, now_ms: u64) -> bool {
        self.deadline() <= now_ms
    }

    /// Time left at clock reading `now_ms`; saturates to zero, never
    /// negative.
    pub open spec fn spec_remaining(self, now_ms: u64) -> u64 {
        if self.deadline() <= now_ms {
            0u64
        } else {
            (self.deadline() - now_ms) as u64
        }
    }

    /// Deadline arithmetic: the deadline is exactly `now_ms +
    /// duration_ms`; construction fails only when that sum cannot be
    /// represented.
    pub fn at(now_ms: u64, duration_ms: u64) -> (r: KitsuneResult<KitsuneTimeout>)
        ensures
            now_ms + duration_ms <= u64::MAX ==> (r matches Ok(t) && t.deadline() == now_ms
                + duration_ms),
            now_ms + duration_ms > u64::MAX ==> r == Err::<KitsuneTimeout, KitsuneError>(
                KitsuneError::ClockError,
            ),
    {
        match now_ms.checked_add(duration_ms) {
            Some(d) => Ok(KitsuneTimeout { deadline_ms: d }),
            None => Err(KitsuneError::ClockError),
        }
    }

    /// Create a new timeout for a duration in the future: deadline = now
    /// + duration.  Fails only when the clock cannot be read or the sum
    /// overflows the time representation.
    pub fn new(duration_ms: u64) -> (r: KitsuneResult<KitsuneTimeout>)
        ensures
            r matches Ok(t) ==> t.deadline() >= duration_ms,
            r matches Err(e) ==> e == KitsuneError::ClockError,
    {
        match sys_now_ms() {
            Ok(now_ms) => Self::at(now_ms, duration_ms),
            Err(_) => Err(KitsuneError::ClockError),
        }
    }

    /// Convenience constructor; same contract as `new`.
    pub fn from_millis(millis: u64) -> (r: KitsuneResult<KitsuneTimeout>)
        ensures
            r matches Ok(t) ==> t.deadline() >= millis,
            r matches Err(e) ==> e == KitsuneError::ClockError,
    {
        Self::new(millis)
    }

    /// Exact remaining time at a given clock reading.
    pub fn time_remaining_at(&self, now_ms: u64) -> (r: u64)
        ensures
            r == self.spec_remaining(now_ms),
    {
        if self.deadline_ms <= now_ms {
            0
        } else {
            self.deadline_ms - now_ms
        }
    }

    /// Remaining time against the wall clock; saturates to zero and never
    /// panics.  An unreadable clock counts as expired.
    pub fn time_remaining(&self) -> (r: u64)
        ensures
            r <= self.deadline(),
    {
        match sys_now_ms() {
            Ok(now_ms) => self.time_remaining_at(now_ms),
            Err(_) => 0,
        }
    }

    /// Exact expiry test at a given clock reading.
    pub fn is_expired_at(&self, now_ms: u64) -> (r: bool)
        ensures
            r == self.spec_expired(now_ms),
    {
        self.deadline_ms <= now_ms
    }

    /// Expiry test against the wall clock.  An unreadable clock counts as
    /// expired: operations then fail rather than hang.
    pub fn is_expired(&self) -> bool {
        match sys_now_ms() {
            Ok(now_ms) => self.is_expired_at(now_ms),
            Err(_) => true,
        }
    }

    /// `Ok(())` iff not expired at the given clock reading.
    pub fn ok_at(&self, now_ms: u64) -> (r: KitsuneResult<()>)
        ensures
            !self.spec_expired(now_ms) <==> r == Ok::<(), KitsuneError>(()),
            self.spec_expired(now_ms) <==> r == Err::<(), KitsuneError>(KitsuneError::TimedOut),
    {
        if self.is_expired_at(now_ms) {
            Err(KitsuneError::TimedOut)
        } else {
            Ok(())
        }
    }

    /// `Ok(())` if not expired against the wall clock; the only error it
    /// ever returns is `TimedOut`.
    pub fn ok(&self) -> (r: KitsuneResult<()>)
        ensures
            r matches Err(e) ==> e == KitsuneError::TimedOut,
    {
        if self.is_expired() {
            Err(KitsuneError::TimedOut)
        } else {
            Ok(())
        }
    }
}

/// The settled outcome of racing an operation against a deadline.
/// `winner` is `Some(result)` when the operation finished before the
/// deadline fired, `None` when the deadline fired first.  Exactly one of
/// the two clauses applies to any race: the operation's own result is
/// returned iff the operation won, and `TimedOut` is returned iff the
/// timer won.
pub fn race_outcome<R>(winner: Option<KitsuneResult<R>>) -> (r: KitsuneResult<R>)
    ensures
        winner matches Some(v) ==> r == v,
        winner is None ==> r == Err::<R, KitsuneError>(KitsuneError::TimedOut),
{
    match winner {
        Some(v) => v,
        None => Err(KitsuneError::TimedOut),
    }
}

/// A deadline freshly created from a positive duration is not expired at
/// the clock reading it was created from, and is expired at any reading
/// past the deadline.
pub proof fn lemma_fresh_timeout_unexpired(
    t: KitsuneTimeout,
    now_ms: u64,
    duration_ms: u64,
    later_ms: u64,
)
    requires
        0 < duration_ms,
        now_ms + duration_ms <= u64::MAX,
        t.deadline() == now_ms + duration_ms,
    ensures
        !t.spec_expired(now_ms),
        later_ms >= now_ms + duration_ms ==> t.spec_expired(later_ms),
{
}

} // verus!
