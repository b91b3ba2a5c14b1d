//! Lines of the stream.

use vstd::prelude::*;
use crate::address::Address;

verus! {

/// One line of the stream: its text and its position.
#[derive(Debug, PartialEq)]
pub struct Line {
    pub contents: String,
    pub addr: Address,
}

/// The mathematical content of a [`Line`].
pub struct LineView {
    pub contents: Seq<char>,
    pub addr: Address,
}

impl View for Line {
    type V = LineView;

    open spec fn view(&self) -> LineView {
        LineView { contents: self.contents@, addr: self.addr }
    }
}

impl Clone for Line {
    fn clone(&self) -> (copy: Line)
        ensures
            copy == *self,
    {
        Line { contents: self.contents.clone(), addr: self.addr }
    }
}

} // verus!
