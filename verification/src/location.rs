//! Source positions attached to tokens, nodes and errors.

use vstd::prelude::*;

verus! {

/// A position in the source text, as a character offset from its start.
/// Every token, node and error carries the location where it begins, so
/// a diagnostic can be mapped back to the original text.
#[derive(Clone, Copy, PartialEq, Eq, Structural, Debug)]
pub struct Location {
    pub offset: usize,
}

impl Location {
    pub fn new(offset: usize) -> (loc: Location)
        ensures
            loc.offset == offset,
    {
        Location { offset }
    }
}

} // verus!
