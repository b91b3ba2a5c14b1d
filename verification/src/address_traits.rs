//! How the plain condition types are made: from one address, or from two.

use vstd::prelude::*;
use crate::address::Address;
use crate::address_condition::Values;
use crate::line_number::LineNumber;
use crate::line_range::LineRange;

verus! {

/// A condition that is made from a single address.
pub trait OneAddressCondition: Sized {
    /// The shape of this condition.
    spec fn shape(&self) -> Values;

    /// The shape of the condition that `addr` makes.
    spec fn shape_of(addr: Address) -> Values;

    /// The condition that `addr` makes.
    fn new(addr: Address) -> (cond: Self)
        ensures
            cond.shape() == Self::shape_of(addr),
    ;
}

/// A condition that is made from two addresses.
pub trait TwoAddressCondition: Sized {
    /// The shape of this condition.
    spec fn shape(&self) -> Values;

    /// The shape of the condition that `a` and `b` make.
    spec fn shape_of(a: Address, b: Address) -> Values;

    /// The condition that `a` and `b` make.
    fn new(a: Address, b: Address) -> (cond: Self)
        ensures
            cond.shape() == Self::shape_of(a, b),
    ;
}

impl OneAddressCondition for LineNumber {
    open spec fn shape(&self) -> Values {
        self@
    }

    open spec fn shape_of(addr: Address) -> Values {
        Values::LineNumber(addr)
    }

    fn new(addr: Address) -> (cond: Self) {
        LineNumber::new(addr)
    }
}

impl TwoAddressCondition for LineRange {
    open spec fn shape(&self) -> Values {
        self@
    }

    open spec fn shape_of(a: Address, b: Address) -> Values {
        Values::Range { min: a, max: b, min_inclusive: true, max_inclusive: false }
    }

    fn new(a: Address, b: Address) -> (cond: Self) {
        LineRange::new(a, b)
    }
}

} // verus!
