//! Parameter intervals along a ray.
//!
//! Membership is strict on both ends: a boundary value is treated as
//! lying outside, which is what makes the closest-hit search of the
//! scene ignore candidates that cannot beat the best hit so far.

use vstd::prelude::*;

verus! {

/// A half-open-by-convention span of ray parameters.
#[derive(Clone, Copy, Debug, PartialEq, Eq, Structural)]
pub struct Span {
    pub start: i64,
    pub end: i64,
}

pub open spec fn clamp_s(lo: int, hi: int, x: int) -> int
    recommends
        lo <= hi,
{
    if x < lo {
        lo
    } else if x > hi {
        hi
    } else {
        x
    }
}

/// The membership and clamping contract every span-like type offers.
pub trait Interval {
    spec fn lo(&self) -> int;

    spec fn hi(&self) -> int;

    fn surrounds(&self, x: i64) -> (r: bool)
        ensures
            r == (self.lo() < x as int && (x as int) < self.hi()),
    ;

    fn clamp(&self, x: i64) -> (r: i64)
        requires
            self.lo() <= self.hi(),
        ensures
            r as int == clamp_s(self.lo(), self.hi(), x as int),
    ;
}

impl Interval for Span {
    open spec fn lo(&self) -> int {
        self.start as int
    }

    open spec fn hi(&self) -> int {
        self.end as int
    }

    fn surrounds(&self, x: i64) -> (r: bool) {
        self.start < x && x < self.end
    }

    fn clamp(&self, x: i64) -> (r: i64) {
        if x < self.start {
            self.start
        } else if x > self.end {
            self.end
        } else {
            x
        }
    }
}

} // verus!
