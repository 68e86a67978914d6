use vstd::prelude::*;

verus! {

/// One cell of the automaton: it is either dead or alive, with no further
/// identity. Cells are summed as 0/1 when neighbors are counted.
#[derive(Clone, Copy, Debug, PartialEq, Eq, Structural)]
pub enum Cell {
    Dead,
    Alive,
}

/// The numeric weight of a cell in a neighbor sum: 1 for a live cell, 0 for
/// a dead one.
pub open spec fn cell_value(c: Cell) -> nat {
    match c {
        Cell::Dead => 0,
        Cell::Alive => 1,
    }
}

impl Cell {
    /// The explicit 0/1 conversion used when summing live neighbors.
    pub fn live_value(self) -> (n: u8)
        ensures
            n == cell_value(self),
    {
        match self {
            Cell::Dead => 0,
            Cell::Alive => 1,
        }
    }
}

} // verus!
