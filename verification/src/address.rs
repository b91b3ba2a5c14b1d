//! Line addresses.

use vstd::prelude::*;

verus! {

/// The zero-based ordinal position of a line within the processed stream.
pub type Address = u32;

} // verus!
