//! The condition that matches a run of lines.

use vstd::prelude::*;
use crate::address::Address;
use crate::address_condition::{
    spec_applies, spec_in_lower_bound, spec_in_upper_bound, AddressCondition, Values,
};

verus! {

/// One bound of a range: where it lies, and whether it belongs to the range.
#[derive(Clone, Copy, Debug, PartialEq, Eq, Structural)]
pub struct RangeBounds {
    pub val: Address,
    pub is_inclusive: bool,
}

/// The condition that matches the lines between two bounds.
#[derive(Clone, Copy, Debug, PartialEq, Eq, Structural)]
pub struct LineRange {
    min: RangeBounds,
    max: RangeBounds,
}

impl View for LineRange {
    type V = Values;

    closed spec fn view(&self) -> Values {
        Values::Range {
            min: self.min.val,
            max: self.max.val,
            min_inclusive: self.min.is_inclusive,
            max_inclusive: self.max.is_inclusive,
        }
    }
}

impl LineRange {
    /// The condition that matches the lines from `a` up to, but not
    /// including, `b`.
    pub fn new(a: Address, b: Address) -> (range: LineRange)
        ensures
            range@ == (Values::Range { min: a, max: b, min_inclusive: true, max_inclusive: false }),
    {
        LineRange {
            min: RangeBounds { val: a, is_inclusive: true },
            max: RangeBounds { val: b, is_inclusive: false },
        }
    }

    /// The condition that matches the lines between the bounds `min` and
    /// `max`.
    pub fn with_bounds(min: RangeBounds, max: RangeBounds) -> (range: LineRange)
        ensures
            range@ == (Values::Range {
                min: min.val,
                max: max.val,
                min_inclusive: min.is_inclusive,
                max_inclusive: max.is_inclusive,
            }),
    {
        LineRange { min, max }
    }

    /// Whether this condition matches the line at `current_line`.
    pub fn applies(&self, current_line: Address) -> (b: bool)
        ensures
            b == spec_applies(self@, current_line),
    {
        self.check_min(current_line) && self.check_max(current_line)
    }

    /// This condition as a general address condition.
    pub fn condition(&self) -> (cond: AddressCondition)
        ensures
            cond@ == self@,
    {
        AddressCondition::range(
            self.min.val,
            self.max.val,
            self.min.is_inclusive,
            self.max.is_inclusive,
        )
    }

    /// Whether `addr` lies within the lower bound.
    pub fn check_min(&self, addr: Address) -> (b: bool)
        ensures
            (self@ matches Values::Range { min, min_inclusive, .. } && b == spec_in_lower_bound(
                addr,
                min,
                min_inclusive,
            )),
    {
        if self.min.is_inclusive {
            self.min.val <= addr
        } else {
            self.min.val < addr
        }
    }

    /// Whether `addr` lies within the upper bound.
    pub fn check_max(&self, addr: Address) -> (b: bool)
        ensures
            (self@ matches Values::Range { max, max_inclusive, .. } && b == spec_in_upper_bound(
                addr,
                max,
                max_inclusive,
            )),
    {
        if self.max.is_inclusive {
            self.max.val >= addr
        } else {
            self.max.val > addr
        }
    }
}

} // verus!
