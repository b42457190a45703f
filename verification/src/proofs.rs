use vstd::prelude::*;
use crate::cell::{is_hit, owner, struck, Cell, CellStatus, FireResult, Ship};
use crate::model::{afloat, alive_count, occupies, unhit, unhit_count, FieldView};

verus! {

/// Changing one cell changes the count of a ship's unhit cells by what the
/// old and the new cell add to it.
pub proof fn lemma_unhit_update(cells: Seq<Cell>, i: int, cell: Cell, id: usize)
    requires
        0 <= i < cells.len(),
    ensures
        unhit_count(cells.update(i, cell), id) + unhit(cells[i], id) == unhit_count(cells, id)
            + unhit(cell, id),
    decreases cells.len(),
{
    let changed = cells.update(i, cell);
    if i == cells.len() - 1 {
        assert(changed.drop_last() =~= cells.drop_last());
    } else {
        lemma_unhit_update(cells.drop_last(), i, cell, id);
        assert(changed.drop_last() =~= cells.drop_last().update(i, cell));
    }
}

/// A ship without an unhit cell has count 0.
pub proof fn lemma_unhit_none(cells: Seq<Cell>, id: usize)
    requires
        forall|i: int| 0 <= i < cells.len() ==> unhit(#[trigger] cells[i], id) == 0,
    ensures
        unhit_count(cells, id) == 0,
    decreases cells.len(),
{
    if cells.len() > 0 {
        lemma_unhit_none(cells.drop_last(), id);
    }
}

/// Changing one ship changes the count of the living by what the old and
/// the new ship add to it.
pub proof fn lemma_alive_update(ships: Seq<Ship>, id: int, ship: Ship)
    requires
        0 <= id < ships.len(),
    ensures
        alive_count(ships.update(id, ship)) + afloat(ships[id]) == alive_count(ships) + afloat(
            ship,
        ),
    decreases ships.len(),
{
    let changed = ships.update(id, ship);
    if id == ships.len() - 1 {
        assert(changed.drop_last() =~= ships.drop_last());
    } else {
        lemma_alive_update(ships.drop_last(), id, ship);
        assert(changed.drop_last() =~= ships.drop_last().update(id, ship));
    }
}

/// No more ships float than there are.
pub proof fn lemma_alive_bound(ships: Seq<Ship>)
    ensures
        alive_count(ships) <= ships.len(),
    decreases ships.len(),
{
    if ships.len() > 0 {
        lemma_alive_bound(ships.drop_last());
    }
}

/// The count of the living is 0 exactly when every ship is sunk.
pub proof fn lemma_none_alive(ships: Seq<Ship>)
    ensures
        alive_count(ships) == 0 <==> forall|id: int|
            0 <= id < ships.len() ==> (#[trigger] ships[id]).hp == 0,
    decreases ships.len(),
{
    if ships.len() > 0 {
        let rest = ships.drop_last();
        lemma_none_alive(rest);
        if alive_count(ships) == 0 {
            assert forall|id: int| 0 <= id < ships.len() implies (#[trigger] ships[id]).hp
                == 0 by {
                if id < rest.len() {
                    assert(rest[id] == ships[id]);
                }
            }
        } else {
            if forall|id: int| 0 <= id < ships.len() ==> (#[trigger] ships[id]).hp == 0 {
                assert forall|id: int| 0 <= id < rest.len() implies (#[trigger] rest[id]).hp
                    == 0 by {
                    assert(rest[id] == ships[id]);
                }
                assert(ships.last() == ships[ships.len() - 1]);
            }
        }
    }
}

/// Where two grids agree on which ship owns each cell, a ship lies on the
/// same cells in both.
pub proof fn lemma_same_owners(a: Seq<Cell>, b: Seq<Cell>, width: nat, id: usize, start: int)
    requires
        a.len() == b.len(),
        forall|i: int| 0 <= i < a.len() ==> owner(#[trigger] a[i]) == owner(b[i]),
        occupies(a, width, id, start),
    ensures
        occupies(b, width, id, start),
{
    assert forall|i: int| 0 <= i < b.len() implies (owner(#[trigger] b[i]) == Some(id) <==> start
        <= i <= start + 2) by {
        assert(owner(a[i]) == owner(b[i]));
    }
}

/// A shot keeps the board's invariant. In particular the count of living
/// ships stays the number of ships with a hit point left, shot after shot.
pub proof fn lemma_fire_keeps_wf(v: FieldView, i: int)
    requires
        v.wf(),
        0 <= i < v.cells.len(),
    ensures
        v.after_fire(i).wf(),
        v.after_fire(i).alive_ships == alive_count(v.after_fire(i).ships),
        v.after_fire(i).cells.len() == v.cells.len(),
        v.after_fire(i).ships.len() == v.ships.len(),
{
    let w = v.after_fire(i);
    let target = struck(v.cells[i]);
    assert(w.cells == v.cells.update(i, target));
    assert(v.cell_ok(i));
    assert forall|j: int| 0 <= j < v.cells.len() implies owner(#[trigger] v.cells[j]) == owner(
        w.cells[j],
    ) by {}
    assert forall|j: int| 0 <= j < w.cells.len() implies #[trigger] w.cell_ok(j) by {
        assert(v.cell_ok(j));
    }
    match v.cells[i].status {
        CellStatus::Ship(hit) => {
            assert(v.ship_ok(hit as int));
            lemma_unhit_update(v.cells, i, target, hit);
            lemma_alive_update(v.ships, hit as int, w.ships[hit as int]);
        },
        _ => {},
    }
    assert forall|id: int| 0 <= id < w.ships.len() implies #[trigger] w.ship_ok(id) by {
        assert(v.ship_ok(id));
        lemma_unhit_update(v.cells, i, target, id as usize);
        let start = choose|start: int| #[trigger] occupies(v.cells, v.width, id as usize, start);
        lemma_same_owners(v.cells, w.cells, v.width, id as usize, start);
        assert(occupies(w.cells, w.width, id as usize, start));
    }
}

/// However many shots are fired at cells of the grid, the board stays
/// valid, and the count of living ships is the number of ships with a hit
/// point left.
pub proof fn lemma_shots_keep_wf(v: FieldView, shots: Seq<int>)
    requires
        v.wf(),
        forall|k: int| 0 <= k < shots.len() ==> 0 <= #[trigger] shots[k] < v.cells.len(),
    ensures
        v.after_shots(shots).wf(),
        v.after_shots(shots).cells.len() == v.cells.len(),
        v.after_shots(shots).ships.len() == v.ships.len(),
        v.after_shots(shots).alive_ships == alive_count(v.after_shots(shots).ships),
    decreases shots.len(),
{
    if shots.len() > 0 {
        let earlier = shots.drop_last();
        assert forall|k: int| 0 <= k < earlier.len() implies 0 <= #[trigger] earlier[k]
            < v.cells.len() by {
            assert(earlier[k] == shots[k]);
        }
        lemma_shots_keep_wf(v, earlier);
        assert(0 <= shots[shots.len() - 1] < v.cells.len());
        lemma_fire_keeps_wf(v.after_shots(earlier), shots.last());
    }
}

/// A second shot at a cell changes nothing and repeats what is on record:
/// a miss after a miss, a hit after a hit or after the sinking, and never a
/// second sinking.
pub proof fn lemma_fire_twice(v: FieldView, i: int)
    requires
        v.wf(),
        0 <= i < v.cells.len(),
    ensures
        v.after_fire(i).after_fire(i) == v.after_fire(i),
        v.after_fire(i).fire_result(i) == if v.fire_result(i) == FireResult::Miss {
            FireResult::Miss
        } else {
            FireResult::Hit
        },
        v.after_fire(i).fire_result(i) != FireResult::Sink,
{
    let w = v.after_fire(i);
    assert(w.cells[i] == struck(v.cells[i]));
    assert(w.after_fire(i).cells =~= w.cells);
}

/// A shot never revives a ship, never gives a hit point back and never
/// moves a ship: each cell keeps its owner and stays hit once it is hit.
pub proof fn lemma_fire_forward(v: FieldView, i: int, j: int, id: int)
    requires
        v.wf(),
        0 <= i < v.cells.len(),
        0 <= j < v.cells.len(),
        0 <= id < v.ships.len(),
    ensures
        v.after_fire(i).ships.len() == v.ships.len(),
        v.after_fire(i).ships[id].hp <= v.ships[id].hp,
        v.after_fire(i).ships[id].max_hp == v.ships[id].max_hp,
        owner(v.after_fire(i).cells[j]) == owner(v.cells[j]),
        is_hit(v.cells[j]) ==> v.after_fire(i).cells[j] == v.cells[j],
        v.after_fire(i).alive_ships <= v.alive_ships,
{
    assert(v.cell_ok(i));
    match v.cells[i].status {
        CellStatus::Ship(hit) => {
            assert(v.ship_ok(hit as int));
            lemma_unhit_update(v.cells, i, struck(v.cells[i]), hit);
            lemma_alive_update(v.ships, hit as int, v.after_fire(i).ships[hit as int]);
        },
        _ => {},
    }
}

/// Placing a ship where one may be placed keeps the board's invariant; the
/// new ship is the last of the list, lies on the three cells from `start`
/// and has all its hit points.
pub proof fn lemma_place_keeps_wf(v: FieldView, start: int)
    requires
        v.wf(),
        v.can_place(start),
        v.ships.len() < usize::MAX,
    ensures
        v.after_place(start).wf(),
        v.extended_by(v.after_place(start)),
        occupies(v.after_place(start).cells, v.width, v.ships.len() as usize, start),
{
    let w = v.after_place(start);
    let fresh = v.ships.len() as usize;
    let part = Cell { status: CellStatus::Ship(fresh) };
    let one = v.cells.update(start, part);
    let two = one.update(start + 1, part);
    assert(w.cells == two.update(start + 2, part));
    assert(w.ships.drop_last() =~= v.ships);
    assert forall|j: int| 0 <= j < w.cells.len() implies #[trigger] w.cell_ok(j) by {
        assert(v.cell_ok(j));
    }
    assert forall|j: int| 0 <= j < w.cells.len() implies (owner(#[trigger] w.cells[j]) == Some(
        fresh,
    ) <==> start <= j <= start + 2) by {
        assert(v.cell_ok(j));
    }
    assert(occupies(w.cells, w.width, fresh, start));
    assert forall|id: int| 0 <= id < w.ships.len() implies #[trigger] w.ship_ok(id) by {
        lemma_unhit_update(v.cells, start, part, id as usize);
        lemma_unhit_update(one, start + 1, part, id as usize);
        lemma_unhit_update(two, start + 2, part, id as usize);
        if id < v.ships.len() {
            assert(v.ship_ok(id));
            let at = choose|at: int| #[trigger] occupies(v.cells, v.width, id as usize, at);
            assert forall|j: int| 0 <= j < w.cells.len() implies (owner(#[trigger] w.cells[j])
                == Some(id as usize) <==> at <= j <= at + 2) by {
                assert(owner(v.cells[j]) == Some(id as usize) <==> at <= j <= at + 2);
            }
            assert(occupies(w.cells, w.width, id as usize, at));
        } else {
            assert forall|j: int| 0 <= j < v.cells.len() implies unhit(
                #[trigger] v.cells[j],
                fresh,
            ) == 0 by {
                assert(v.cell_ok(j));
            }
            lemma_unhit_none(v.cells, fresh);
        }
    }
}

/// Two ships never share a cell: their runs of three cells lie apart.
pub proof fn lemma_ships_apart(
    cells: Seq<Cell>,
    width: nat,
    a: usize,
    b: usize,
    at_a: int,
    at_b: int,
)
    requires
        a != b,
        occupies(cells, width, a, at_a),
        occupies(cells, width, b, at_b),
    ensures
        at_a + 2 < at_b || at_b + 2 < at_a,
{
    if !(at_a + 2 < at_b || at_b + 2 < at_a) {
        let i = if at_a >= at_b {
            at_a
        } else {
            at_b
        };
        assert(owner(cells[i]) == Some(a));
        assert(owner(cells[i]) == Some(b));
    }
}

/// A ship's three cells share a row: they have the same row number, and
/// their columns follow one another.
pub proof fn lemma_ship_in_one_row(cells: Seq<Cell>, width: nat, id: usize, start: int)
    requires
        occupies(cells, width, id, start),
    ensures
        (start + 1) / (width as int) == start / (width as int),
        (start + 2) / (width as int) == start / (width as int),
        (start + 1) % (width as int) == start % (width as int) + 1,
        (start + 2) % (width as int) == start % (width as int) + 2,
{
    let w = width as int;
    let q = start / w;
    let r = start % w;
    assert(start == w * q + r && 0 <= r < w) by (nonlinear_arith)
        requires
            w > 0,
            q == start / w,
            r == start % w,
    ;
    assert((start + 1) / w == q && (start + 1) % w == r + 1) by (nonlinear_arith)
        requires
            w > 0,
            start == w * q + r,
            0 <= r,
            r + 1 < w,
    ;
    assert((start + 2) / w == q && (start + 2) % w == r + 2) by (nonlinear_arith)
        requires
            w > 0,
            start == w * q + r,
            0 <= r,
            r + 2 < w,
    ;
}

/// After ships were added to a valid board, each new ship has its three
/// hit points and lies on three neighbouring cells of one row, all of which
/// were free before.
pub proof fn lemma_added_ship(before: FieldView, after: FieldView, id: int)
    requires
        before.wf(),
        after.wf(),
        before.extended_by(after),
        before.ships.len() <= id < after.ships.len(),
    ensures
        after.ships[id] == (Ship { hp: 3, max_hp: 3 }),
        before.newly_placed(after, id),
{
    assert(after.ship_ok(id));
    let start = choose|start: int| #[trigger] occupies(after.cells, after.width, id as usize, start);
    assert forall|j: int| start <= j <= start + 2 implies before.cells[j].status
        == CellStatus::Free by {
        assert(owner(after.cells[j]) == Some(id as usize));
        assert(before.cell_ok(j));
    }
    assert(occupies(after.cells, after.width, id as usize, start) && before.can_place(start));
}

/// Adding ships to a board that came from adding ships is adding ships.
pub proof fn lemma_extended_twice(a: FieldView, b: FieldView, c: FieldView)
    requires
        a.extended_by(b),
        b.extended_by(c),
    ensures
        a.extended_by(c),
{
    assert forall|id: int| 0 <= id < c.ships.len() implies #[trigger] c.ships[id] == if id
        < a.ships.len() {
        a.ships[id]
    } else {
        Ship { hp: 3, max_hp: 3 }
    } by {
        if id < b.ships.len() {
            assert(b.ships[id] == c.ships[id]);
        }
    }
    assert forall|i: int| 0 <= i < a.cells.len() implies #[trigger] c.cells[i] == a.cells[i] || (
    a.cells[i].status == CellStatus::Free && match c.cells[i].status {
        CellStatus::Ship(id) => a.ships.len() <= id,
        _ => false,
    }) by {
        assert(b.cells[i] == a.cells[i] || a.cells[i].status == CellStatus::Free);
    }
}

/// On a valid board the game is over exactly when no ship has a hit point
/// left.
pub proof fn lemma_game_over(v: FieldView)
    requires
        v.wf(),
    ensures
        v.alive_ships == 0 <==> forall|id: int|
            0 <= id < v.ships.len() ==> (#[trigger] v.ships[id]).hp == 0,
{
    lemma_none_alive(v.ships);
}

} // verus!
