//! Durations and the controller's answer after a reconciliation.

use vstd::prelude::*;

verus! {

pub const NANOS_PER_MILLI: u128 = 1_000_000;

pub const NANOS_PER_SEC: u128 = 1_000_000_000;

/// The longest span `std::time::Duration` holds: `u64::MAX` seconds and
/// 999_999_999 nanoseconds.
pub const MAX_DURATION_NANOS: u128 = 18_446_744_073_709_551_615_999_999_999;

/// A span of time, counted in nanoseconds, within the range of
/// `std::time::Duration`.
#[derive(Clone, Copy, Debug, PartialEq, Eq, Structural)]
pub struct Duration {
    nanos: u128,
}

impl View for Duration {
    type V = u128;

    closed spec fn view(&self) -> u128 {
        self.nanos
    }
}

impl Duration {
    #[verifier::type_invariant]
    closed spec fn in_range(self) -> bool {
        self.nanos <= MAX_DURATION_NANOS
    }

    pub fn from_secs(secs: u64) -> (d: Duration)
        ensures
            d@ == secs * NANOS_PER_SEC,
    {
        Duration { nanos: secs as u128 * NANOS_PER_SEC }
    }

    pub fn from_millis(millis: u64) -> (d: Duration)
        ensures
            d@ == millis * NANOS_PER_MILLI,
    {
        Duration { nanos: millis as u128 * NANOS_PER_MILLI }
    }

    pub fn as_nanos(&self) -> (n: u128)
        ensures
            n == self@,
            n <= MAX_DURATION_NANOS,
    {
        proof {
            use_type_invariant(self);
        }
        self.nanos
    }

    /// Whole seconds, as `Duration::as_secs`.
    pub fn as_secs(&self) -> (s: u64)
        ensures
            s == self@ / NANOS_PER_SEC,
    {
        proof {
            use_type_invariant(self);
        }
        (self.nanos / NANOS_PER_SEC) as u64
    }

    /// Whether twice this span is still a valid duration.
    pub fn can_double(&self) -> (b: bool)
        ensures
            b == (2 * self@ <= MAX_DURATION_NANOS),
    {
        proof {
            use_type_invariant(self);
        }
        self.nanos <= MAX_DURATION_NANOS / 2
    }

    /// Twice this span (`Duration * 2`, which panics on overflow).
    pub fn double(&self) -> (d: Duration)
        requires
            2 * self@ <= MAX_DURATION_NANOS,
        ensures
            d@ == 2 * self@,
    {
        Duration { nanos: self.nanos * 2 }
    }
}

/// What the controller runtime does with the object after a reconciliation:
/// run it again after a delay, or wait until it changes.
#[derive(Clone, Copy, Debug, PartialEq, Eq, Structural)]
pub struct Action {
    pub requeue_after: Option<Duration>,
}

impl Action {
    pub fn requeue(d: Duration) -> (a: Action)
        ensures
            a.requeue_after == Some(d),
    {
        Action { requeue_after: Some(d) }
    }

    pub fn await_change() -> (a: Action)
        ensures
            a.requeue_after is None,
    {
        Action { requeue_after: None }
    }
}

} // verus!
