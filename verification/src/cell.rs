use vstd::prelude::*;

verus! {

/// What one grid position holds. A ship is named by its index in the
/// board's ship list.
#[derive(Clone, Copy, PartialEq, Eq, Debug, Structural)]
pub enum CellStatus {
    Free,
    FreeAndHit,
    Ship(usize),
    ShipAndHit(usize),
}

impl Default for CellStatus {
    fn default() -> (status: Self)
        ensures
            status == CellStatus::Free,
    {
        CellStatus::Free
    }
}

#[derive(Clone, Copy, PartialEq, Eq, Debug, Structural)]
pub struct Cell {
    pub status: CellStatus,
}

/// The outcome of one shot.
#[derive(Clone, Copy, PartialEq, Eq, Debug, Structural)]
pub enum FireResult {
    Miss,
    Hit,
    Sink,
}

/// A ship's remaining and initial hit points.
#[derive(Clone, Copy, PartialEq, Eq, Debug, Structural)]
pub struct Ship {
    pub hp: u8,
    pub max_hp: u8,
}

/// The ship that a cell belongs to, hit or not.
pub open spec fn owner(cell: Cell) -> Option<usize> {
    match cell.status {
        CellStatus::Ship(id) => Some(id),
        CellStatus::ShipAndHit(id) => Some(id),
        _ => None,
    }
}

/// Whether a shot has already landed on the cell.
pub open spec fn is_hit(cell: Cell) -> bool {
    match cell.status {
        CellStatus::FreeAndHit => true,
        CellStatus::ShipAndHit(_) => true,
        _ => false,
    }
}

/// The status of a cell once a shot has landed on it.
pub open spec fn struck(cell: Cell) -> Cell {
    match cell.status {
        CellStatus::Free => Cell { status: CellStatus::FreeAndHit },
        CellStatus::Ship(id) => Cell { status: CellStatus::ShipAndHit(id) },
        _ => cell,
    }
}

} // verus!
