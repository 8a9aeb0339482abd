//! Closed numeric ranges over fixed-point scalars, used for ray-parameter
//! search windows and for color clamping.

use vstd::prelude::*;
use crate::fixed::{fsub, fx_sub};

verus! {

#[derive(Clone, Copy, Debug, PartialEq, Eq, Structural)]
pub struct Interval {
    pub min: i64,
    pub max: i64,
}

/// `x` saturated into `[iv.min, iv.max]`.
pub open spec fn sclamp(iv: Interval, x: i64) -> i64 {
    if x < iv.min {
        iv.min
    } else if x > iv.max {
        iv.max
    } else {
        x
    }
}

impl Interval {
    pub fn new(min: i64, max: i64) -> (r: Interval)
        ensures
            r == (Interval { min, max }),
    {
        Interval { min, max }
    }

    /// The range that contains nothing (its minimum exceeds its maximum).
    pub fn empty() -> (r: Interval)
        ensures
            r == (Interval { min: i64::MAX, max: i64::MIN }),
    {
        Interval { min: i64::MAX, max: i64::MIN }
    }

    /// The range that contains every scalar.
    pub fn universe() -> (r: Interval)
        ensures
            r == (Interval { min: i64::MIN, max: i64::MAX }),
    {
        Interval { min: i64::MIN, max: i64::MAX }
    }

    /// A copy with the upper bound replaced; this is how the nearest-hit
    /// search shrinks its window.
    pub fn with_max(self, max: i64) -> (r: Interval)
        ensures
            r == (Interval { min: self.min, max }),
    {
        Interval { min: self.min, max }
    }

    pub fn size(&self) -> (r: i64)
        ensures
            r == fsub(self.max, self.min),
    {
        fx_sub(self.max, self.min)
    }

    /// Closed containment.
    pub fn contains(&self, x: i64) -> (r: bool)
        ensures
            r == (self.min <= x && x <= self.max),
    {
        self.min <= x && x <= self.max
    }

    /// Open (strict) containment.
    pub fn surrounds(&self, x: i64) -> (r: bool)
        ensures
            r == (self.min < x && x < self.max),
    {
        self.min < x && x < self.max
    }

    /// Saturate `x` into the range; meaningful only when the range is
    /// non-empty, as with the standard library's `clamp`.
    pub fn clamp(&self, x: i64) -> (r: i64)
        requires
            self.min <= self.max,
        ensures
            r == sclamp(*self, x),
    {
        if x < self.min {
            self.min
        } else if x > self.max {
            self.max
        } else {
            x
        }
    }
}

} // verus!
