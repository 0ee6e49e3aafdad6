use vstd::prelude::*;

verus! {

/// The two states a cell can take. A cell is exposed to callers as the
/// integer 0 (dead) or 1 (alive); inside the engine it is this enum.
#[derive(Clone, Copy, PartialEq, Eq, Structural, Debug)]
pub enum CellState {
    Dead,
    Alive,
}

/// The 0/1 value a cell is exposed as.
pub open spec fn cell_bit(c: CellState) -> u8 {
    match c {
        CellState::Dead => 0,
        CellState::Alive => 1,
    }
}

/// The standard B3/S23 transition rule: a live cell survives with two
/// or three live neighbours and otherwise dies; a dead cell becomes
/// alive with exactly three live neighbours and otherwise stays dead.
pub open spec fn next_cell_state(current: CellState, live_neighbors: int) -> CellState {
    match current {
        CellState::Alive => if 2 <= live_neighbors && live_neighbors <= 3 {
            CellState::Alive
        } else {
            CellState::Dead
        },
        CellState::Dead => if live_neighbors == 3 {
            CellState::Alive
        } else {
            CellState::Dead
        },
    }
}

/// Applies the transition rule to a single cell.
pub fn next_cell(current: CellState, live_neighbors: u8) -> (next: CellState)
    ensures
        next == next_cell_state(current, live_neighbors as int),
{
    match (current, live_neighbors) {
        (CellState::Dead, 3) => CellState::Alive,
        (CellState::Alive, 2) | (CellState::Alive, 3) => CellState::Alive,
        (CellState::Alive, _) | (CellState::Dead, _) => CellState::Dead,
    }
}

} // verus!
