//! Closed numeric ranges used to bound intersection parameters and to
//! clamp color channels.
//!
//! The scalar extremes stand in for the two infinities of the empty and
//! universal intervals.

use vstd::prelude::*;

verus! {

/// Stand-in for positive infinity among fixed-point scalars.
pub const INFINITY: i64 = i64::MAX;

/// Stand-in for negative infinity among fixed-point scalars.
pub const NEG_INFINITY: i64 = i64::MIN;

/// An ordered pair (min, max) of scalars.
#[derive(Clone, Copy, PartialEq, Eq, Structural, Debug)]
pub struct Interval(pub i64, pub i64);

/// `x` lies inside the interval, bounds included.
pub open spec fn i_contains(iv: Interval, x: int) -> bool {
    iv.0 <= x && x <= iv.1
}

/// `x` lies strictly inside the interval.
pub open spec fn i_surrounds(iv: Interval, x: int) -> bool {
    iv.0 < x && x < iv.1
}

/// `x` saturated into the interval.
pub open spec fn i_clamp(iv: Interval, x: int) -> int {
    if x < iv.0 {
        iv.0 as int
    } else if x > iv.1 {
        iv.1 as int
    } else {
        x
    }
}

impl Interval {
    /// The lower bound.
    pub fn min(self) -> (r: i64)
        ensures
            r == self.0,
    {
        self.0
    }

    /// The upper bound.
    pub fn max(self) -> (r: i64)
        ensures
            r == self.1,
    {
        self.1
    }

    /// The width `max - min`, saturated at the scalar bounds.
    pub fn size(self) -> (r: i64)
        ensures
            r as int == crate::fixed::fsub(self.1 as int, self.0 as int),
    {
        crate::fixed::fx_sub(self.1, self.0)
    }

    /// True exactly when `min < x < max`.
    pub fn surrounds(&self, x: i64) -> (r: bool)
        ensures
            r == i_surrounds(*self, x as int),
    {
        self.0 < x && x < self.1
    }

    /// True exactly when `min <= x <= max`.
    pub fn contains(&self, x: i64) -> (r: bool)
        ensures
            r == i_contains(*self, x as int),
    {
        self.0 <= x && x <= self.1
    }

    /// Saturate `x` into the interval; total, and the result always lies
    /// inside whenever `min <= max`.
    pub fn clamp(self, x: i64) -> (r: i64)
        ensures
            r as int == i_clamp(self, x as int),
            self.0 <= self.1 ==> i_contains(self, r as int),
    {
        if x < self.0 {
            return self.0;
        }
        if x > self.1 {
            return self.1;
        }
        x
    }

    /// The reserved empty interval: min at positive infinity, max at
    /// negative infinity, so it surrounds nothing.
    pub fn empty() -> (r: Interval)
        ensures
            r == (Interval(INFINITY, NEG_INFINITY)),
    {
        Interval(INFINITY, NEG_INFINITY)
    }

    /// The universal interval, surrounding every representable scalar but
    /// the two infinities themselves.
    pub fn universe() -> (r: Interval)
        ensures
            r == (Interval(NEG_INFINITY, INFINITY)),
    {
        Interval(NEG_INFINITY, INFINITY)
    }
}

impl Default for Interval {
    /// The default interval is the empty one.
    fn default() -> (r: Interval)
        ensures
            r == (Interval(INFINITY, NEG_INFINITY)),
    {
        Interval(INFINITY, NEG_INFINITY)
    }
}

} // verus!
