//! A two-valued cell state with a toggle.
use vstd::prelude::*;

verus! {

/// State of one grid cell. There is no third state.
#[derive(Clone, Copy, Debug, PartialEq, Eq, Structural)]
pub enum Cell {
    Dead,
    Alive,
}

impl Cell {
    /// The opposite state: toggling Dead yields Alive and vice versa.
    pub open spec fn toggled(self) -> Cell {
        match self {
            Cell::Dead => Cell::Alive,
            Cell::Alive => Cell::Dead,
        }
    }

    /// Toggle the state.
    pub fn not(self) -> (r: Cell)
        ensures
            r == self.toggled(),
    {
        match self {
            Cell::Dead => Cell::Alive,
            Cell::Alive => Cell::Dead,
        }
    }
}

} // verus!
