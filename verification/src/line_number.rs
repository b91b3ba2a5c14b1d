//! The condition that matches one line.

use vstd::prelude::*;
use crate::address::Address;
use crate::address_condition::{spec_applies, AddressCondition, Values};

verus! {

/// The condition that matches the line at one address and no other.
#[derive(Clone, Copy, Debug, PartialEq, Eq, Structural)]
pub struct LineNumber {
    n: Address,
}

impl View for LineNumber {
    type V = Values;

    closed spec fn view(&self) -> Values {
        Values::LineNumber(self.n)
    }
}

impl LineNumber {
    /// The condition that matches the line at `addr`.
    pub fn new(addr: Address) -> (cond: LineNumber)
        ensures
            cond@ == Values::LineNumber(addr),
    {
        LineNumber { n: addr }
    }

    /// Whether this condition matches the line at `current_line`.
    pub fn applies(&self, current_line: Address) -> (b: bool)
        ensures
            b == spec_applies(self@, current_line),
    {
        self.n == current_line
    }

    /// This condition as a general address condition.
    pub fn condition(&self) -> (cond: AddressCondition)
        ensures
            cond@ == self@,
    {
        AddressCondition::line_number(self.n)
    }
}

} // verus!
