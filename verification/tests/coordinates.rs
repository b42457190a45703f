use battleship::coords::{column_index, line_number, parse_coordinate};
use battleship::Field;

#[test]
fn test_coordinates_to_index() {
    let field = Field::new(10, 10);
    assert_eq!(field.coordinates_to_index("A1"), Some(0));
    assert_eq!(field.coordinates_to_index("A2"), Some(10));
    assert_eq!(field.coordinates_to_index("B1"), Some(1));
    assert_eq!(field.coordinates_to_index("B4"), Some(31));
}

#[test]
fn every_cell_has_a_name_that_leads_back_to_it() {
    let field = Field::new(10, 10);
    for row in 0..10usize {
        for col in 0..10usize {
            let upper = (b'A' + col as u8) as char;
            let lower = (b'a' + col as u8) as char;
            assert_eq!(
                field.coordinates_to_index(&format!("{}{}", upper, row + 1)),
                Some(row * 10 + col)
            );
            assert_eq!(
                field.coordinates_to_index(&format!("{}{}", lower, row + 1)),
                Some(row * 10 + col)
            );
        }
    }
}

#[test]
fn names_on_a_grid_that_is_not_square() {
    let field = Field::new(4, 12);
    assert_eq!(field.coordinates_to_index("D12"), Some(47));
    assert_eq!(field.coordinates_to_index("A12"), Some(44));
    assert_eq!(field.coordinates_to_index("E1"), None);
    assert_eq!(field.coordinates_to_index("A13"), None);
    let wide = Field::new(30, 2);
    assert_eq!(wide.coordinates_to_index("Z2"), Some(55));
    assert_eq!(wide.coordinates_to_index("z1"), Some(25));
}

#[test]
fn column_off_the_grid_is_rejected() {
    let field = Field::new(10, 10);
    assert_eq!(field.coordinates_to_index("K1"), None);
    assert_eq!(field.coordinates_to_index("k1"), None);
    assert_eq!(field.coordinates_to_index("Z5"), None);
    assert_eq!(field.coordinates_to_index("J1"), Some(9));
}

#[test]
fn row_off_the_grid_is_rejected() {
    let field = Field::new(10, 10);
    assert_eq!(field.coordinates_to_index("A0"), None);
    assert_eq!(field.coordinates_to_index("A00"), None);
    assert_eq!(field.coordinates_to_index("A11"), None);
    assert_eq!(field.coordinates_to_index("A10"), Some(90));
    assert_eq!(field.coordinates_to_index("J10"), Some(99));
}

#[test]
fn malformed_text_is_rejected() {
    let field = Field::new(10, 10);
    assert_eq!(field.coordinates_to_index("1A"), None);
    assert_eq!(field.coordinates_to_index(""), None);
    assert_eq!(field.coordinates_to_index("A"), None);
    assert_eq!(field.coordinates_to_index("1"), None);
    assert_eq!(field.coordinates_to_index("AA1"), None);
    assert_eq!(field.coordinates_to_index("A1 "), None);
    assert_eq!(field.coordinates_to_index(" A1"), None);
    assert_eq!(field.coordinates_to_index("A1\n"), None);
    assert_eq!(field.coordinates_to_index("A-1"), None);
    assert_eq!(field.coordinates_to_index("A+1"), None);
    assert_eq!(field.coordinates_to_index("A1B"), None);
    assert_eq!(field.coordinates_to_index("\u{c4}1"), None);
}

#[test]
fn leading_zeros_do_not_change_the_row() {
    let field = Field::new(10, 10);
    assert_eq!(field.coordinates_to_index("A01"), Some(0));
    assert_eq!(field.coordinates_to_index("B004"), Some(31));
    assert_eq!(field.coordinates_to_index("c0000000000000000000000010"), Some(92));
}

#[test]
fn a_number_beyond_the_machine_word_is_off_the_grid() {
    let field = Field::new(10, 10);
    assert_eq!(field.coordinates_to_index("A99999999999999999999999999999999999999999"), None);
    assert_eq!(field.coordinates_to_index("A18446744073709551617"), None);
}

#[test]
fn digits_beyond_ascii_are_rejected() {
    let field = Field::new(10, 10);
    assert_eq!(field.coordinates_to_index("A\u{0663}"), None);
    assert_eq!(field.coordinates_to_index("A1\u{0663}"), None);
    assert_eq!(field.coordinates_to_index("A\u{ff11}"), None);
}

#[test]
fn parse_coordinate_needs_no_board() {
    assert_eq!(parse_coordinate("B4", 10, 10), Some(31));
    assert_eq!(parse_coordinate("b4", 3, 4), Some(10));
    assert_eq!(parse_coordinate("C1", 2, 2), None);
    assert_eq!(parse_coordinate("A1", 1, 1), Some(0));
    assert_eq!(parse_coordinate("A1", 0, 5), None);
    assert_eq!(parse_coordinate("A1", 5, 0), None);
}

#[test]
fn column_index_counts_from_a() {
    assert_eq!(column_index('A'), 0);
    assert_eq!(column_index('a'), 0);
    assert_eq!(column_index('J'), 9);
    assert_eq!(column_index('z'), 25);
    assert_eq!(column_index('Z'), 25);
}

#[test]
fn line_number_reads_up_to_the_limit() {
    assert_eq!(line_number("10", 10), Some(10));
    assert_eq!(line_number("11", 10), None);
    assert_eq!(line_number("0", 10), Some(0));
    assert_eq!(line_number("", 10), Some(0));
    assert_eq!(line_number("007", 10), Some(7));
    assert_eq!(line_number("1x", 10), None);
    assert_eq!(line_number("18446744073709551615", usize::MAX), Some(usize::MAX));
    assert_eq!(line_number("18446744073709551616", usize::MAX), None);
}
