//! A non-negative span of time with millisecond resolution.
use vstd::prelude::*;

verus! {

/// Milliseconds in one second.
pub const MILLIS_PER_SEC: u64 = 1000;

/// The largest whole number of seconds that a `Duration` holds.
pub const MAX_SECS: u64 = 18446744073709551;

/// A span of time, counted in milliseconds.
#[derive(Clone, Copy, Debug, PartialEq, Eq, Structural)]
pub struct Duration {
    millis: u64,
}

impl View for Duration {
    type V = nat;

    /// The span in milliseconds.
    closed spec fn view(&self) -> nat {
        self.millis as nat
    }
}

impl Duration {
    /// The span of the given number of whole seconds.
    pub fn from_secs(secs: u64) -> (r: Duration)
        requires
            secs <= MAX_SECS,
        ensures
            r@ == secs * 1000,
    {
        Duration { millis: secs * MILLIS_PER_SEC }
    }

    /// The span of the given number of whole seconds, held at the largest
    /// span where it does not fit.
    pub fn from_secs_saturating(secs: u64) -> (r: Duration)
        ensures
            r@ == if secs * 1000 > u64::MAX { u64::MAX as int } else { secs * 1000 },
    {
        if secs > MAX_SECS {
            Duration { millis: u64::MAX }
        } else {
            Duration { millis: secs * MILLIS_PER_SEC }
        }
    }

    /// The span of the given number of milliseconds.
    pub fn from_millis(millis: u64) -> (r: Duration)
        ensures
            r@ == millis,
    {
        Duration { millis }
    }

    /// The empty span.
    pub fn zero() -> (r: Duration)
        ensures
            r@ == 0,
    {
        Duration { millis: 0 }
    }

    /// The number of whole seconds in the span.
    pub fn as_secs(&self) -> (r: u64)
        ensures
            r == self@ / 1000,
    {
        self.millis / MILLIS_PER_SEC
    }

    /// The span in milliseconds.
    pub fn as_millis(&self) -> (r: u64)
        ensures
            r == self@,
    {
        self.millis
    }

    /// Whether the span is empty.
    pub fn is_zero(&self) -> (r: bool)
        ensures
            r == (self@ == 0),
    {
        self.millis == 0
    }

    /// The sum of two spans, held at the largest span on overflow.
    pub fn saturating_add(self, other: Duration) -> (r: Duration)
        ensures
            r@ == sat_add(self@, other@),
    {
        Duration { millis: self.millis.saturating_add(other.millis) }
    }

    /// The difference of two spans, held at zero where `other` is longer.
    pub fn saturating_sub(self, other: Duration) -> (r: Duration)
        ensures
            r@ == sat_sub(self@, other@),
    {
        Duration { millis: self.millis.saturating_sub(other.millis) }
    }
}

/// A span never exceeds the largest that a `Duration` holds.
pub proof fn lemma_duration_bounded(d: Duration)
    ensures
        d@ <= u64::MAX,
{
}

/// Addition held at the largest span that a `Duration` holds.
pub open spec fn sat_add(a: nat, b: nat) -> nat {
    if a + b > u64::MAX {
        u64::MAX as nat
    } else {
        a + b
    }
}

/// Subtraction held at zero.
pub open spec fn sat_sub(a: nat, b: nat) -> nat {
    if a >= b {
        (a - b) as nat
    } else {
        0
    }
}

} // verus!
