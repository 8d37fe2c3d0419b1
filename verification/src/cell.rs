use vstd::prelude::*;

verus! {

/// The state of a single cell: a value without identity, compared by its
/// variant and copied freely.
#[derive(Clone, Copy, Debug, PartialEq, Eq, Structural)]
pub enum Cell {
    Dead,
    Alive,
}

} // verus!
