use std::ops::Range;
use vstd::prelude::*;

verus! {

/// Open-interval membership.
pub trait RangeExt<T> {
    /// Whether `value` lies strictly between the two ends.
    spec fn surrounds_spec(&self, value: T) -> bool;

    fn surrounds(&self, value: &T) -> (r: bool)
        ensures
            r == self.surrounds_spec(*value),
    ;
}

impl RangeExt<u32> for Range<u32> {
    open spec fn surrounds_spec(&self, value: u32) -> bool {
        self.start < value && value < self.end
    }

    fn surrounds(&self, value: &u32) -> (r: bool) {
        self.start < *value && *value < self.end
    }
}

/// Clamping into a closed interval.
pub trait Clamp<T> {
    /// The value moved onto the nearer end when it lies outside.
    spec fn clamp_spec(&self, value: T) -> T;

    fn clamp(&self, value: T) -> (r: T)
        ensures
            r == self.clamp_spec(value),
    ;
}

impl Clamp<u32> for Range<u32> {
    open spec fn clamp_spec(&self, value: u32) -> u32 {
        if value < self.start {
            self.start
        } else if value > self.end {
            self.end
        } else {
            value
        }
    }

    fn clamp(&self, value: u32) -> (r: u32) {
        if value < self.start {
            self.start
        } else if value > self.end {
            self.end
        } else {
            value
        }
    }
}

} // verus!
