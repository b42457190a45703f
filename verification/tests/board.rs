use battleship::{Cell, CellStatus, Field, FireResult, PlacementInfeasible, Ship};

fn living(field: &Field) -> usize {
    let mut n = 0;
    for id in 0..field.ship_count() {
        if field.ship(id).unwrap().hp > 0 {
            n += 1;
        }
    }
    n
}

fn cells_of(field: &Field, id: usize) -> Vec<usize> {
    let mut found = Vec::new();
    for i in 0..field.width() * field.height() {
        match field.cell_status(i).unwrap() {
            CellStatus::Ship(owner) | CellStatus::ShipAndHit(owner) if owner == id => found.push(i),
            _ => {}
        }
    }
    found
}

fn snapshot(field: &Field) -> (Vec<CellStatus>, Vec<Ship>, usize) {
    let cells = (0..field.width() * field.height()).map(|i| field.cell_status(i).unwrap()).collect();
    let ships = (0..field.ship_count()).map(|id| field.ship(id).unwrap()).collect();
    (cells, ships, field.alive_ships())
}

#[test]
fn a_new_board_is_empty() {
    let field = Field::new(10, 10);
    assert_eq!(field.width(), 10);
    assert_eq!(field.height(), 10);
    assert_eq!(field.ship_count(), 0);
    assert_eq!(field.alive_ships(), 0);
    for i in 0..100 {
        assert_eq!(field.cell_status(i), Some(CellStatus::Free));
    }
    assert_eq!(field.cell_status(100), None);
    assert_eq!(field.ship(0), None);
    assert!(field.is_game_over());
}

#[test]
fn cells_are_found_by_column_and_row() {
    let mut field = Field::new(4, 3);
    assert!(field.place_ship_at(5));
    assert_eq!(field.fire("C2"), Some(FireResult::Hit));
    assert_eq!(field.fire("A3"), Some(FireResult::Miss));
    assert_eq!(field.cell_at(0, 0), Some(CellStatus::Free));
    assert_eq!(field.cell_at(0, 1), Some(CellStatus::Free));
    assert_eq!(field.cell_at(1, 1), Some(CellStatus::Ship(0)));
    assert_eq!(field.cell_at(2, 1), Some(CellStatus::ShipAndHit(0)));
    assert_eq!(field.cell_at(3, 1), Some(CellStatus::Ship(0)));
    assert_eq!(field.cell_at(0, 2), Some(CellStatus::FreeAndHit));
    assert_eq!(field.cell_at(4, 0), None);
    assert_eq!(field.cell_at(0, 3), None);
    assert_eq!(field.cell_at(usize::MAX, usize::MAX), None);
    for row in 0..3 {
        for col in 0..4 {
            assert_eq!(field.cell_at(col, row), field.cell_status(row * 4 + col));
        }
    }
}

#[test]
fn the_default_status_is_free() {
    assert_eq!(CellStatus::default(), CellStatus::Free);
    assert_eq!(Cell { status: CellStatus::default() }, Cell { status: CellStatus::Free });
}

#[test]
fn sinking_one_ship_ends_the_game() {
    let mut field = Field::new(10, 10);
    assert!(field.place_ship_at(0));
    assert_eq!(field.cell_status(0), Some(CellStatus::Ship(0)));
    assert_eq!(field.cell_status(1), Some(CellStatus::Ship(0)));
    assert_eq!(field.cell_status(2), Some(CellStatus::Ship(0)));
    assert_eq!(field.cell_status(3), Some(CellStatus::Free));
    assert_eq!(field.ship(0), Some(Ship { hp: 3, max_hp: 3 }));
    assert_eq!(field.alive_ships(), 1);
    assert!(!field.is_game_over());

    assert_eq!(field.fire("A1"), Some(FireResult::Hit));
    assert_eq!(field.ship(0).unwrap().hp, 2);
    assert_eq!(field.cell_status(0), Some(CellStatus::ShipAndHit(0)));
    assert_eq!(field.fire("B1"), Some(FireResult::Hit));
    assert_eq!(field.ship(0).unwrap().hp, 1);
    assert_eq!(field.alive_ships(), 1);
    assert_eq!(field.fire("C1"), Some(FireResult::Sink));
    assert_eq!(field.ship(0), Some(Ship { hp: 0, max_hp: 3 }));
    assert_eq!(field.alive_ships(), 0);
    assert!(field.is_game_over());

    assert_eq!(field.fire("A1"), Some(FireResult::Hit));
    assert_eq!(field.fire("C1"), Some(FireResult::Hit));
    assert_eq!(field.ship(0), Some(Ship { hp: 0, max_hp: 3 }));
    assert_eq!(field.alive_ships(), 0);
    assert!(field.is_game_over());
}

#[test]
fn a_shot_at_open_water_misses_again_and_again() {
    let mut field = Field::new(10, 10);
    assert_eq!(field.fire("J10"), Some(FireResult::Miss));
    assert_eq!(field.cell_status(99), Some(CellStatus::FreeAndHit));
    let first = snapshot(&field);
    assert_eq!(field.fire("J10"), Some(FireResult::Miss));
    assert_eq!(field.cell_status(99), Some(CellStatus::FreeAndHit));
    assert_eq!(snapshot(&field), first);
    for i in 0..99 {
        assert_eq!(field.cell_status(i), Some(CellStatus::Free));
    }
}

#[test]
fn an_invalid_shot_changes_nothing() {
    let mut field = Field::new(10, 10);
    assert!(field.place_ship_at(42));
    assert_eq!(field.fire("A1"), Some(FireResult::Miss));
    let before = snapshot(&field);
    assert_eq!(field.fire("K1"), None);
    assert_eq!(field.fire("A0"), None);
    assert_eq!(field.fire("1A"), None);
    assert_eq!(field.fire(""), None);
    assert_eq!(field.fire("A11"), None);
    assert_eq!(snapshot(&field), before);
}

#[test]
fn a_second_shot_repeats_the_record() {
    let mut field = Field::new(10, 10);
    assert!(field.place_ship_at(10));
    assert!(field.place_ship_at(55));
    let shots = ["A2", "B2", "C2", "D2", "F6", "A1", "c2", "f6"];
    for shot in shots {
        let first = field.fire(shot).unwrap();
        let after_first = snapshot(&field);
        let second = field.fire(shot).unwrap();
        assert_ne!(second, FireResult::Sink);
        let expected = if first == FireResult::Miss { FireResult::Miss } else { FireResult::Hit };
        assert_eq!(second, expected);
        assert_eq!(snapshot(&field), after_first);
    }
    assert_eq!(field.ship(0), Some(Ship { hp: 0, max_hp: 3 }));
    assert_eq!(field.ship(1), Some(Ship { hp: 2, max_hp: 3 }));
}

#[test]
fn the_living_are_the_ships_with_a_hit_point_left() {
    let mut field = Field::new(10, 10);
    assert!(field.place_ship_at(0));
    assert!(field.place_ship_at(13));
    assert!(field.place_ship_at(97));
    assert_eq!(field.alive_ships(), 3);
    let mut sunk = 0;
    for row in 1..=10 {
        for col in ['A', 'B', 'C', 'D', 'E', 'F', 'G', 'H', 'I', 'J'] {
            let result = field.fire(&format!("{}{}", col, row)).unwrap();
            if result == FireResult::Sink {
                sunk += 1;
            }
            assert_eq!(field.alive_ships(), living(&field));
            assert_eq!(field.alive_ships(), 3 - sunk);
            assert_eq!(field.is_game_over(), living(&field) == 0);
        }
    }
    assert_eq!(sunk, 3);
    assert!(field.is_game_over());
}

#[test]
fn a_ship_needs_three_free_cells_in_one_row() {
    let mut field = Field::new(10, 10);
    assert!(!field.place_ship_at(8));
    assert!(!field.place_ship_at(9));
    assert!(!field.place_ship_at(98));
    assert!(!field.place_ship_at(99));
    assert!(!field.place_ship_at(100));
    assert!(!field.place_ship_at(usize::MAX));
    assert_eq!(field.ship_count(), 0);
    assert!(field.place_ship_at(7));
    assert_eq!(cells_of(&field, 0), vec![7, 8, 9]);
    assert!(!field.place_ship_at(5));
    assert!(!field.place_ship_at(6));
    assert!(!field.place_ship_at(7));
    assert!(field.place_ship_at(4));
    assert_eq!(cells_of(&field, 1), vec![4, 5, 6]);
    assert_eq!(field.ship_count(), 2);
    assert_eq!(field.alive_ships(), 2);
}

#[test]
fn a_ship_does_not_start_on_a_cell_that_was_hit() {
    let mut field = Field::new(10, 10);
    assert_eq!(field.fire("C1"), Some(FireResult::Miss));
    assert!(!field.place_ship_at(0));
    assert!(!field.place_ship_at(2));
    assert!(field.place_ship_at(3));
    assert_eq!(field.cell_status(2), Some(CellStatus::FreeAndHit));
}

#[test]
fn random_placement_puts_each_ship_on_three_cells_of_one_row() {
    for _ in 0..50 {
        let mut field = Field::new(10, 10);
        assert_eq!(field.add_ships(2, usize::MAX), Ok(()));
        assert_eq!(field.ship_count(), 2);
        assert_eq!(field.alive_ships(), 2);
        let mut taken = 0;
        for id in 0..2 {
            assert_eq!(field.ship(id), Some(Ship { hp: 3, max_hp: 3 }));
            let cells = cells_of(&field, id);
            assert_eq!(cells.len(), 3);
            assert_eq!(cells[1], cells[0] + 1);
            assert_eq!(cells[2], cells[0] + 2);
            assert_eq!(cells[0] / 10, cells[2] / 10);
            taken += cells.len();
        }
        let free = (0..100).filter(|&i| field.cell_status(i) == Some(CellStatus::Free)).count();
        assert_eq!(free + taken, 100);
    }
}

#[test]
fn random_placement_does_not_always_choose_the_same_cells() {
    let mut starts = Vec::new();
    for _ in 0..40 {
        let mut field = Field::new(10, 10);
        assert_eq!(field.add_ships(1, usize::MAX), Ok(()));
        let start = cells_of(&field, 0)[0];
        assert!(start < 98);
        if !starts.contains(&start) {
            starts.push(start);
        }
    }
    assert!(starts.len() > 1);
}

#[test]
fn random_placement_fills_a_board_that_has_just_enough_room() {
    let mut field = Field::new(3, 4);
    assert_eq!(field.add_ships(4, usize::MAX), Ok(()));
    assert_eq!(field.ship_count(), 4);
    assert_eq!(field.alive_ships(), 4);
    for i in 0..12 {
        assert!(matches!(field.cell_status(i), Some(CellStatus::Ship(_))));
    }
    for id in 0..4 {
        let cells = cells_of(&field, id);
        assert_eq!(cells.len(), 3);
        assert_eq!(cells[0] % 3, 0);
    }
}

#[test]
fn placement_without_room_is_reported() {
    let mut tiny = Field::new(1, 1);
    assert_eq!(tiny.add_ships(1, 1000), Err(PlacementInfeasible));
    assert_eq!(tiny.ship_count(), 0);
    let mut narrow = Field::new(2, 5);
    assert_eq!(narrow.add_ships(1, 1000), Err(PlacementInfeasible));
    assert_eq!(narrow.ship_count(), 0);
    let mut full = Field::new(3, 1);
    assert_eq!(full.add_ships(2, 1000), Err(PlacementInfeasible));
    assert_eq!(full.ship_count(), 1);
    assert_eq!(full.alive_ships(), 1);
    assert_eq!(cells_of(&full, 0), vec![0, 1, 2]);
}

#[test]
fn placement_with_no_attempt_allowed_fails_unless_nothing_is_asked() {
    let mut field = Field::new(10, 10);
    assert_eq!(field.add_ships(1, 0), Err(PlacementInfeasible));
    assert_eq!(field.ship_count(), 0);
    assert_eq!(field.add_ships(0, 0), Ok(()));
    assert_eq!(field.ship_count(), 0);
    assert_eq!(field.alive_ships(), 0);
    let mut tiny = Field::new(1, 1);
    assert_eq!(tiny.add_ships(0, 5), Ok(()));
}

#[test]
fn ships_added_later_get_the_next_ids() {
    let mut field = Field::new(10, 10);
    assert!(field.place_ship_at(0));
    assert_eq!(field.fire("A1"), Some(FireResult::Hit));
    assert_eq!(field.fire("E5"), Some(FireResult::Miss));
    assert_eq!(field.add_ships(2, usize::MAX), Ok(()));
    assert_eq!(field.ship_count(), 3);
    assert_eq!(field.alive_ships(), 3);
    assert_eq!(field.ship(0), Some(Ship { hp: 2, max_hp: 3 }));
    assert_eq!(field.cell_status(0), Some(CellStatus::ShipAndHit(0)));
    assert_eq!(field.cell_status(44), Some(CellStatus::FreeAndHit));
    assert_eq!(cells_of(&field, 0), vec![0, 1, 2]);
    assert_eq!(cells_of(&field, 1).len(), 3);
    assert_eq!(cells_of(&field, 2).len(), 3);
}
