use vstd::prelude::*;
use crate::cell::{owner, struck, Cell, CellStatus, FireResult, Ship};

verus! {

/// 1 for a cell of ship `id` that no shot has hit yet, else 0.
pub open spec fn unhit(cell: Cell, id: usize) -> nat {
    if cell.status == CellStatus::Ship(id) {
        1
    } else {
        0
    }
}

/// How many cells of ship `id` no shot has hit yet.
pub open spec fn unhit_count(cells: Seq<Cell>, id: usize) -> nat
    decreases cells.len(),
{
    if cells.len() == 0 {
        0
    } else {
        unhit_count(cells.drop_last(), id) + unhit(cells.last(), id)
    }
}

/// 1 for a ship that still floats, else 0.
pub open spec fn afloat(ship: Ship) -> nat {
    if ship.hp > 0 {
        1
    } else {
        0
    }
}

/// How many ships still float.
pub open spec fn alive_count(ships: Seq<Ship>) -> nat
    decreases ships.len(),
{
    if ships.len() == 0 {
        0
    } else {
        alive_count(ships.drop_last()) + afloat(ships.last())
    }
}

/// Ship `id` lies on exactly the three cells `start`, `start + 1` and
/// `start + 2`, which share one row of a grid `width` cells wide.
pub open spec fn occupies(cells: Seq<Cell>, width: nat, id: usize, start: int) -> bool {
    &&& 0 <= start
    &&& start + 2 < cells.len()
    &&& width >= 3
    &&& start % (width as int) + 2 < width
    &&& forall|i: int|
        0 <= i < cells.len() ==> (owner(#[trigger] cells[i]) == Some(id) <==> start <= i <= start
            + 2)
}

/// The board as a mathematical value.
pub struct FieldView {
    pub cells: Seq<Cell>,
    pub ships: Seq<Ship>,
    pub width: nat,
    pub height: nat,
    pub alive_ships: nat,
}

impl FieldView {
    /// The board of the given size with no ship and no shot on it.
    pub open spec fn empty(width: nat, height: nat) -> FieldView {
        FieldView {
            cells: Seq::new(width * height, |i: int| Cell { status: CellStatus::Free }),
            ships: Seq::empty(),
            width,
            height,
            alive_ships: 0,
        }
    }

    /// A ship cell names a ship of the list.
    pub open spec fn cell_ok(self, i: int) -> bool {
        match owner(self.cells[i]) {
            Some(id) => id < self.ships.len(),
            None => true,
        }
    }

    /// A ship has three hit points at most, as many as it has cells that no
    /// shot has hit, and lies on three neighbouring cells of one row.
    pub open spec fn ship_ok(self, id: int) -> bool {
        &&& self.ships[id].max_hp == 3
        &&& self.ships[id].hp <= self.ships[id].max_hp
        &&& self.ships[id].hp == unhit_count(self.cells, id as usize)
        &&& exists|start: int| #[trigger] occupies(self.cells, self.width, id as usize, start)
    }

    /// The board's invariant.
    pub open spec fn wf(self) -> bool {
        &&& self.width >= 1
        &&& self.height >= 1
        &&& self.cells.len() == self.width * self.height
        &&& self.cells.len() <= usize::MAX
        &&& self.ships.len() <= usize::MAX
        &&& forall|i: int| 0 <= i < self.cells.len() ==> #[trigger] self.cell_ok(i)
        &&& forall|id: int| 0 <= id < self.ships.len() ==> #[trigger] self.ship_ok(id)
        &&& self.alive_ships == alive_count(self.ships)
    }

    /// What a shot at cell `i` reports.
    pub open spec fn fire_result(self, i: int) -> FireResult {
        match self.cells[i].status {
            CellStatus::Free => FireResult::Miss,
            CellStatus::FreeAndHit => FireResult::Miss,
            CellStatus::Ship(id) => if self.ships[id as int].hp == 1 {
                FireResult::Sink
            } else {
                FireResult::Hit
            },
            CellStatus::ShipAndHit(_) => FireResult::Hit,
        }
    }

    /// The board after a shot at cell `i`. A shot on a cell that was hit
    /// before changes nothing; a first shot on a ship cell takes one hit point
    /// from the ship, and the last hit point takes the ship from the living.
    pub open spec fn after_fire(self, i: int) -> FieldView {
        match self.cells[i].status {
            CellStatus::Ship(id) => {
                let ship = self.ships[id as int];
                FieldView {
                    cells: self.cells.update(i, struck(self.cells[i])),
                    ships: self.ships.update(
                        id as int,
                        Ship { hp: (ship.hp - 1) as u8, max_hp: ship.max_hp },
                    ),
                    alive_ships: if ship.hp == 1 {
                        (self.alive_ships - 1) as nat
                    } else {
                        self.alive_ships
                    },
                    ..self
                }
            },
            _ => FieldView { cells: self.cells.update(i, struck(self.cells[i])), ..self },
        }
    }

    /// The board after a run of shots, the first of `shots` fired first.
    pub open spec fn after_shots(self, shots: Seq<int>) -> FieldView
        decreases shots.len(),
    {
        if shots.len() == 0 {
            self
        } else {
            self.after_shots(shots.drop_last()).after_fire(shots.last())
        }
    }

    /// A new ship may start at cell `start`: the three cells from there lie
    /// on the grid, in one row, and are free and not hit.
    pub open spec fn can_place(self, start: int) -> bool {
        &&& 0 <= start
        &&& start + 2 < self.cells.len()
        &&& self.width >= 3
        &&& start % (self.width as int) + 2 < self.width
        &&& self.cells[start].status == CellStatus::Free
        &&& self.cells[start + 1].status == CellStatus::Free
        &&& self.cells[start + 2].status == CellStatus::Free
    }

    /// The board with one more ship, on the three cells from `start`. The
    /// ship's id is its place in the list.
    pub open spec fn after_place(self, start: int) -> FieldView {
        let part = Cell { status: CellStatus::Ship(self.ships.len() as usize) };
        FieldView {
            cells: self.cells.update(start, part).update(start + 1, part).update(start + 2, part),
            ships: self.ships.push(Ship { hp: 3, max_hp: 3 }),
            alive_ships: self.alive_ships + 1,
            ..self
        }
    }

    /// Ship `id` of `later` lies on three neighbouring cells of one row that
    /// are free and not hit on this board.
    pub open spec fn newly_placed(self, later: FieldView, id: int) -> bool {
        exists|start: int|
            #[trigger] occupies(later.cells, later.width, id as usize, start) && self.can_place(
                start,
            )
    }

    /// `later` is this board with ships added and nothing else changed: the
    /// old ships are as they were, each new one has its three hit points and
    /// counts as alive, and a cell differs only where it was free and not
    /// hit and now belongs to a new ship.
    pub open spec fn extended_by(self, later: FieldView) -> bool {
        &&& later.width == self.width
        &&& later.height == self.height
        &&& later.cells.len() == self.cells.len()
        &&& self.ships.len() <= later.ships.len()
        &&& forall|id: int|
            0 <= id < later.ships.len() ==> #[trigger] later.ships[id] == if id
                < self.ships.len() {
                self.ships[id]
            } else {
                Ship { hp: 3, max_hp: 3 }
            }
        &&& later.alive_ships == self.alive_ships + (later.ships.len() - self.ships.len())
        &&& forall|i: int|
            0 <= i < self.cells.len() ==> #[trigger] later.cells[i] == self.cells[i] || (
            self.cells[i].status == CellStatus::Free && match later.cells[i].status {
                CellStatus::Ship(id) => self.ships.len() <= id,
                _ => false,
            })
    }
}

} // verus!
