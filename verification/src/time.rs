//! Spans of simulated time.

use vstd::prelude::*;

verus! {

/// A span of simulated time, counted in nanoseconds.
#[derive(Clone, Copy, PartialEq, Eq, Structural, Debug)]
pub struct Span {
    pub nanos: u64,
}

/// `x` clamped to what a `u64` can hold.
pub open spec fn saturate_u64(x: int) -> int {
    if x > u64::MAX as int {
        u64::MAX as int
    } else if x < 0 {
        0
    } else {
        x
    }
}

impl Span {
    /// The empty span.
    pub fn zero() -> (s: Span)
        ensures
            s.nanos == 0,
    {
        Span { nanos: 0 }
    }

    pub fn from_nanos(nanos: u64) -> (s: Span)
        ensures
            s.nanos == nanos,
    {
        Span { nanos }
    }

    /// `millis` milliseconds, saturating at the longest span.
    pub fn from_millis(millis: u64) -> (s: Span)
        ensures
            s.nanos as int == saturate_u64(millis * 1_000_000),
    {
        if millis > u64::MAX / 1_000_000 {
            Span { nanos: u64::MAX }
        } else {
            Span { nanos: millis * 1_000_000 }
        }
    }

    /// `secs` seconds, saturating at the longest span.
    pub fn from_secs(secs: u64) -> (s: Span)
        ensures
            s.nanos as int == saturate_u64(secs * 1_000_000_000),
    {
        if secs > u64::MAX / 1_000_000_000 {
            Span { nanos: u64::MAX }
        } else {
            Span { nanos: secs * 1_000_000_000 }
        }
    }

    pub fn as_nanos(&self) -> (n: u64)
        ensures
            n == self.nanos,
    {
        self.nanos
    }

    pub fn is_zero(&self) -> (b: bool)
        ensures
            b == (self.nanos == 0),
    {
        self.nanos == 0
    }

    /// What is left of `self` after `elapsed` has passed; never below zero.
    pub open spec fn spec_saturating_sub(self, elapsed: Span) -> Span {
        Span { nanos: if self.nanos > elapsed.nanos { (self.nanos - elapsed.nanos) as u64 } else { 0 } }
    }

    /// What is left of `self` after `elapsed` has passed; never below zero.
    pub fn saturating_sub(&self, elapsed: Span) -> (s: Span)
        ensures
            s == self.spec_saturating_sub(elapsed),
    {
        if self.nanos > elapsed.nanos {
            Span { nanos: self.nanos - elapsed.nanos }
        } else {
            Span { nanos: 0 }
        }
    }
}

} // verus!
