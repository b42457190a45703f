use vstd::prelude::*;
use crate::cell::{struck, Cell, CellStatus, FireResult, Ship};
use crate::coords::{coordinate_index, parse_coordinate};
use crate::model::{alive_count, FieldView};
use crate::proofs::{
    lemma_added_ship, lemma_alive_bound, lemma_alive_update, lemma_extended_twice,
    lemma_fire_keeps_wf, lemma_place_keeps_wf, lemma_unhit_update,
};
use crate::random::draw_below;

verus! {

/// The ships asked for did not all find room within the attempts allowed.
#[derive(Clone, Copy, PartialEq, Eq, Debug, Structural)]
pub struct PlacementInfeasible;

/// The board: a grid of cells, the ships in the order of their ids, and the
/// number of ships that still float.
pub struct Field {
    cells: Vec<Cell>,
    ships: Vec<Ship>,
    width: usize,
    height: usize,
    alive_ships: usize,
}

impl View for Field {
    type V = FieldView;

    closed spec fn view(&self) -> FieldView {
        FieldView {
            cells: self.cells@,
            ships: self.ships@,
            width: self.width as nat,
            height: self.height as nat,
            alive_ships: self.alive_ships as nat,
        }
    }
}

impl Field {
    /// The board's invariant: every constructor establishes it and every
    /// method keeps it.
    pub open spec fn wf(&self) -> bool {
        self@.wf()
    }

    /// An empty board of `width` columns and `height` rows.
    pub fn new(width: usize, height: usize) -> (field: Field)
        requires
            width >= 1,
            height >= 1,
            width * height <= usize::MAX,
        ensures
            field.wf(),
            field@ == FieldView::empty(width as nat, height as nat),
    {
        let total: usize = width * height;
        let mut cells: Vec<Cell> = Vec::new();
        while cells.len() < total
            invariant
                cells.len() <= total,
                forall|i: int| 0 <= i < cells.len() ==> (#[trigger] cells[i]).status == CellStatus::Free,
            decreases total - cells.len(),
        {
            cells.push(Cell { status: CellStatus::Free });
        }
        let field = Field { cells, ships: Vec::new(), width, height, alive_ships: 0 };
        proof {
            let v = FieldView::empty(width as nat, height as nat);
            assert(field@.cells =~= v.cells);
            assert(field@.ships =~= v.ships);
            assert forall|i: int| 0 <= i < v.cells.len() implies #[trigger] v.cell_ok(i) by {}
        }
        field
    }

    pub fn width(&self) -> (width: usize)
        ensures
            width == self@.width,
    {
        self.width
    }

    pub fn height(&self) -> (height: usize)
        ensures
            height == self@.height,
    {
        self.height
    }

    /// The number of ships with a hit point left.
    pub fn alive_ships(&self) -> (alive: usize)
        ensures
            alive == self@.alive_ships,
    {
        self.alive_ships
    }

    pub fn ship_count(&self) -> (count: usize)
        ensures
            count == self@.ships.len(),
    {
        self.ships.len()
    }

    /// The ship with the given id, if there is one.
    pub fn ship(&self, id: usize) -> (ship: Option<Ship>)
        ensures
            ship == if id < self@.ships.len() {
                Some(self@.ships[id as int])
            } else {
                None
            },
    {
        if id < self.ships.len() {
            Some(self.ships[id])
        } else {
            None
        }
    }

    /// The status of the cell with the given flattened index, if it is on
    /// the grid.
    pub fn cell_status(&self, index: usize) -> (status: Option<CellStatus>)
        ensures
            status == if index < self@.cells.len() {
                Some(self@.cells[index as int].status)
            } else {
                None
            },
    {
        if index < self.cells.len() {
            Some(self.cells[index].status)
        } else {
            None
        }
    }

    /// The status of the cell in column `col` of row `row`, both counted
    /// from 0, if it is on the grid.
    pub fn cell_at(&self, col: usize, row: usize) -> (status: Option<CellStatus>)
        requires
            self.wf(),
        ensures
            status == if col < self@.width && row < self@.height {
                Some(self@.cells[row * self@.width + col].status)
            } else {
                None
            },
    {
        if col < self.width && row < self.height {
            assert(row * self.width + col < self.width * self.height) by (nonlinear_arith)
                requires
                    col < self.width,
                    row < self.height,
            ;
            assert(0 <= row * self.width <= row * self.width + col) by (nonlinear_arith)
                requires
                    0 <= col,
                    0 <= row,
                    0 <= self.width,
            ;
            Some(self.cells[row * self.width + col].status)
        } else {
            None
        }
    }

    /// Places one ship on the three cells from `index` on, if they lie in
    /// one row and are free; says whether it did.
    pub fn place_ship_at(&mut self, index: usize) -> (placed: bool)
        requires
            old(self).wf(),
        ensures
            final(self).wf(),
            placed == old(self)@.can_place(index as int),
            final(self)@ == if placed {
                old(self)@.after_place(index as int)
            } else {
                old(self)@
            },
    {
        if self.cells.len() < 3 || index >= self.cells.len() - 2 || self.width < 3 {
            return false;
        }
        if index % self.width >= self.width - 2 {
            return false;
        }
        if !(self.cells[index].status == CellStatus::Free && self.cells[index + 1].status
            == CellStatus::Free && self.cells[index + 2].status == CellStatus::Free) {
            return false;
        }
        let id: usize = self.ships.len();
        let part = Cell { status: CellStatus::Ship(id) };
        self.cells.set(index, part);
        self.cells.set(index + 1, part);
        self.cells.set(index + 2, part);
        self.ships.push(Ship { hp: 3, max_hp: 3 });
        proof {
            assert(self.ships@.len() == self.ships.len());
            lemma_alive_bound(old(self)@.ships);
            lemma_place_keeps_wf(old(self)@, index as int);
        }
        self.alive_ships = self.alive_ships + 1;
        proof {
            let w = old(self)@.after_place(index as int);
            assert(self@.cells =~= w.cells);
            assert(self@.ships =~= w.ships);
        }
        true
    }

    /// Places `number_of_ships` ships at random: draws a starting cell,
    /// places a ship there if one may start there, and draws again, until
    /// all are placed or `max_attempts` draws are used up. Where the ships
    /// land is left to chance. Whatever was drawn, the board is the old one
    /// with ships added; `Ok` means that all were added, an error that some
    /// are missing.
    pub fn add_ships(&mut self, number_of_ships: usize, max_attempts: usize) -> (result: Result<
        (),
        PlacementInfeasible,
    >)
        requires
            old(self).wf(),
        ensures
            final(self).wf(),
            old(self)@.extended_by(final(self)@),
            forall|id: int|
                old(self)@.ships.len() <= id < final(self)@.ships.len() ==> #[trigger] old(
                    self,
                )@.newly_placed(final(self)@, id),
            final(self)@.ships.len() <= old(self)@.ships.len() + number_of_ships,
            result is Ok <==> final(self)@.ships.len() == old(self)@.ships.len() + number_of_ships,
            number_of_ships == 0 ==> result is Ok,
            final(self)@.ships.len() - old(self)@.ships.len() <= max_attempts,
            number_of_ships > 0 && (max_attempts == 0 || old(self)@.width < 3) ==> result is Err,
    {
        let mut rng = rand::thread_rng();
        let mut placed: usize = 0;
        let mut attempts: usize = 0;
        while placed != number_of_ships
            invariant
                old(self).wf(),
                self.wf(),
                old(self)@.extended_by(self@),
                self@.ships.len() == old(self)@.ships.len() + placed,
                placed <= number_of_ships,
                placed <= attempts <= max_attempts,
                placed == 0 || old(self)@.width >= 3,
            decreases max_attempts - attempts,
        {
            if attempts == max_attempts || self.cells.len() < 3 {
                proof {
                    assert forall|id: int|
                        old(self)@.ships.len() <= id < self@.ships.len() implies #[trigger] old(
                        self,
                    )@.newly_placed(self@, id) by {
                        lemma_added_ship(old(self)@, self@, id);
                    }
                }
                return Err(PlacementInfeasible);
            }
            attempts = attempts + 1;
            let index: usize = draw_below(&mut rng, self.cells.len() - 2);
            let ghost before = self@;
            if self.place_ship_at(index) {
                proof {
                    lemma_place_keeps_wf(before, index as int);
                    lemma_extended_twice(old(self)@, before, self@);
                }
                placed = placed + 1;
            }
        }
        proof {
            assert forall|id: int|
                old(self)@.ships.len() <= id < self@.ships.len() implies #[trigger] old(
                self,
            )@.newly_placed(self@, id) by {
                lemma_added_ship(old(self)@, self@, id);
            }
        }
        Ok(())
    }

    /// The flattened index of the cell that `coords` names: a letter for
    /// the column, then the number of the row, counted from 1.
    pub fn coordinates_to_index(&self, coords: &str) -> (index: Option<usize>)
        requires
            self.wf(),
        ensures
            match coordinate_index(coords@, self@.width, self@.height) {
                Some(i) => index == Some(i as usize) && i < self@.cells.len(),
                None => index is None,
            },
    {
        parse_coordinate(coords, self.width, self.height)
    }

    /// Fires at the cell that `coords` names. Text that names no cell of
    /// the grid gives `None` and changes nothing.
    pub fn fire(&mut self, coords: &str) -> (result: Option<FireResult>)
        requires
            old(self).wf(),
        ensures
            final(self).wf(),
            final(self)@.alive_ships == alive_count(final(self)@.ships),
            match coordinate_index(coords@, old(self)@.width, old(self)@.height) {
                Some(i) => result == Some(old(self)@.fire_result(i)) && final(self)@ == old(
                    self,
                )@.after_fire(i),
                None => result is None && final(self)@ == old(self)@,
            },
    {
        let index: usize = match self.coordinates_to_index(coords) {
            Some(index) => index,
            None => {
                return None;
            },
        };
        proof {
            lemma_fire_keeps_wf(old(self)@, index as int);
            assert(old(self)@.cell_ok(index as int));
        }
        let status = self.cells[index].status;
        let result = match status {
            CellStatus::Free => {
                self.cells.set(index, Cell { status: CellStatus::FreeAndHit });
                FireResult::Miss
            },
            CellStatus::FreeAndHit => {
                self.cells.set(index, Cell { status: CellStatus::FreeAndHit });
                FireResult::Miss
            },
            CellStatus::Ship(id) => {
                proof {
                    assert(old(self)@.ship_ok(id as int));
                    lemma_unhit_update(
                        old(self)@.cells,
                        index as int,
                        struck(old(self)@.cells[index as int]),
                        id,
                    );
                    lemma_alive_update(
                        old(self)@.ships,
                        id as int,
                        Ship { hp: 0, max_hp: old(self)@.ships[id as int].max_hp },
                    );
                }
                let ship = self.ships[id];
                self.ships.set(id, Ship { hp: ship.hp - 1, max_hp: ship.max_hp });
                self.cells.set(index, Cell { status: CellStatus::ShipAndHit(id) });
                if self.ships[id].hp == 0 {
                    self.alive_ships = self.alive_ships - 1;
                    FireResult::Sink
                } else {
                    FireResult::Hit
                }
            },
            CellStatus::ShipAndHit(_) => FireResult::Hit,
        };
        proof {
            let w = old(self)@.after_fire(index as int);
            assert(self@.cells =~= w.cells);
            assert(self@.ships =~= w.ships);
        }
        Some(result)
    }

    /// Whether every ship is sunk.
    pub fn is_game_over(&self) -> (over: bool)
        ensures
            over == (self@.alive_ships == 0),
    {
        self.alive_ships == 0
    }
}

} // verus!
