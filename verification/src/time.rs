//! Spans of time on the timeline.

use vstd::prelude::*;

verus! {

/// Nanoseconds in one second.
pub const NANOS_PER_SEC: u128 = 1_000_000_000;

/// Nanoseconds in one millisecond.
pub const NANOS_PER_MILLI: u128 = 1_000_000;

/// A non-negative span of time, counted in whole nanoseconds.
///
/// The view of a span is its length in nanoseconds.
#[derive(Debug, Clone, Copy, PartialEq, Eq, Structural, PartialOrd, Ord, Hash)]
pub struct TimeSpan {
    pub nanos: u128,
}

impl View for TimeSpan {
    type V = nat;

    open spec fn view(&self) -> nat {
        self.nanos as nat
    }
}

/// Whether a length in nanoseconds fits in a [`TimeSpan`].
pub open spec fn representable(nanos: nat) -> bool {
    nanos <= u128::MAX
}

impl TimeSpan {
    /// The empty span.
    pub fn zero() -> (r: TimeSpan)
        ensures
            r@ == 0,
    {
        TimeSpan { nanos: 0 }
    }

    pub fn from_nanos(nanos: u128) -> (r: TimeSpan)
        ensures
            r@ == nanos,
    {
        TimeSpan { nanos }
    }

    pub fn from_millis(millis: u64) -> (r: TimeSpan)
        ensures
            r@ == millis * NANOS_PER_MILLI,
    {
        let wide: u128 = millis.into();
        TimeSpan { nanos: wide * NANOS_PER_MILLI }
    }

    pub fn from_secs(secs: u64) -> (r: TimeSpan)
        ensures
            r@ == secs * NANOS_PER_SEC,
    {
        let wide: u128 = secs.into();
        TimeSpan { nanos: wide * NANOS_PER_SEC }
    }

    pub fn as_nanos(&self) -> (r: u128)
        ensures
            r == self@,
    {
        self.nanos
    }

    /// Whole seconds in the span, the fraction dropped.
    pub fn as_secs(&self) -> (r: u128)
        ensures
            r == self@ / (NANOS_PER_SEC as nat),
    {
        self.nanos / NANOS_PER_SEC
    }

    /// The part of the span beyond its whole seconds, in nanoseconds.
    pub fn subsec_nanos(&self) -> (r: u32)
        ensures
            r == self@ % (NANOS_PER_SEC as nat),
    {
        let rest: u128 = self.nanos % NANOS_PER_SEC;
        rest.try_into().unwrap()
    }

    /// The sum of two spans, or `None` where it is not representable.
    pub fn checked_add(self, other: TimeSpan) -> (r: Option<TimeSpan>)
        ensures
            match r {
                Some(sum) => sum@ == self@ + other@,
                None => !representable(self@ + other@),
            },
    {
        match self.nanos.checked_add(other.nanos) {
            Some(nanos) => Some(TimeSpan { nanos }),
            None => None,
        }
    }

    /// The difference of two spans, or `None` where `other` is the longer one.
    pub fn checked_sub(self, other: TimeSpan) -> (r: Option<TimeSpan>)
        ensures
            match r {
                Some(rest) => rest@ + other@ == self@,
                None => other@ > self@,
            },
    {
        if other.nanos <= self.nanos {
            Some(TimeSpan { nanos: self.nanos - other.nanos })
        } else {
            None
        }
    }

    /// The longer of two spans.
    pub fn longer_of(a: TimeSpan, b: TimeSpan) -> (r: TimeSpan)
        ensures
            r@ == if a@ >= b@ { a@ } else { b@ },
    {
        if a.nanos >= b.nanos {
            a
        } else {
            b
        }
    }

    /// The shorter of two spans.
    pub fn shorter_of(a: TimeSpan, b: TimeSpan) -> (r: TimeSpan)
        ensures
            r@ == if a@ <= b@ { a@ } else { b@ },
    {
        if a.nanos <= b.nanos {
            a
        } else {
            b
        }
    }
}

} // verus!
