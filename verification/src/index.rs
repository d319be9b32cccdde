//! Pairing of a rendered visual element with the grid coordinate it stands
//! for; used to route pointer hits and cell state back to the grid.
use vstd::prelude::*;

verus! {

/// The grid coordinate `(i, j)` that one visual cell represents.
#[derive(Clone, Copy, Debug, PartialEq, Eq, Structural)]
pub struct Index(pub usize, pub usize);

impl Index {
    pub fn new(i: usize, j: usize) -> (r: Index)
        ensures
            r == (Index(i, j)),
    {
        Index(i, j)
    }
}

} // verus!
