use sudoku_solver::moves::{all_digits, initial_candidates};
use sudoku_solver::render::{push_decimal, render_cells};
use sudoku_solver::rules::{cells_valid, count_empty, family_is_valid, Family};

#[test]
fn families_are_checked_one_by_one() {
    let mut row = vec![0usize; 81];
    row[0] = 5;
    row[8] = 5;
    assert!(!family_is_valid(&row, Family::Row));
    assert!(family_is_valid(&row, Family::Column));
    assert!(family_is_valid(&row, Family::Block));
    assert!(!cells_valid(&row));

    let mut column = vec![0usize; 81];
    column[0] = 5;
    column[72] = 5;
    assert!(family_is_valid(&column, Family::Row));
    assert!(!family_is_valid(&column, Family::Column));
    assert!(family_is_valid(&column, Family::Block));
    assert!(!cells_valid(&column));

    let mut block = vec![0usize; 81];
    block[0] = 5;
    block[10] = 5;
    assert!(family_is_valid(&block, Family::Row));
    assert!(family_is_valid(&block, Family::Column));
    assert!(!family_is_valid(&block, Family::Block));
    assert!(!cells_valid(&block));
}

#[test]
fn every_pair_of_cells_in_a_unit_is_held_against_each_other() {
    for first in 0..81usize {
        for second in (first + 1)..81 {
            let mut cells = vec![0usize; 81];
            cells[first] = 3;
            cells[second] = 3;
            let same_row = first / 9 == second / 9;
            let same_column = first % 9 == second % 9;
            let same_block = first / 27 == second / 27 && (first % 9) / 3 == (second % 9) / 3;
            assert_eq!(family_is_valid(&cells, Family::Row), !same_row);
            assert_eq!(family_is_valid(&cells, Family::Column), !same_column);
            assert_eq!(family_is_valid(&cells, Family::Block), !same_block);
            assert_eq!(cells_valid(&cells), !(same_row || same_column || same_block));
        }
    }
}

#[test]
fn count_empty_counts_zeros() {
    assert_eq!(count_empty(&vec![0usize; 81]), 81);
    assert_eq!(count_empty(&vec![1usize; 81]), 0);
    assert_eq!(count_empty(&vec![0, 4, 0, 0, 9]), 3);
    assert_eq!(count_empty(&Vec::new()), 0);
}

#[test]
fn digits_run_from_one_to_nine() {
    assert_eq!(all_digits(), vec![1, 2, 3, 4, 5, 6, 7, 8, 9]);
}

#[test]
fn initial_candidates_are_full_or_empty() {
    let mut cells = vec![0usize; 81];
    cells[3] = 4;
    cells[80] = 11;
    let lists = initial_candidates(&cells);
    assert_eq!(lists.len(), 81);
    for i in 0..81 {
        if i == 3 || i == 80 {
            assert!(lists[i].is_empty());
        } else {
            assert_eq!(lists[i], vec![1, 2, 3, 4, 5, 6, 7, 8, 9]);
        }
    }
}

#[test]
fn push_decimal_appends_the_digits() {
    let mut text = String::from("n=");
    push_decimal(&mut text, 0);
    push_decimal(&mut text, 7);
    push_decimal(&mut text, 10);
    push_decimal(&mut text, 9081);
    assert_eq!(text, "n=07109081");
    let mut large = String::new();
    push_decimal(&mut large, usize::MAX);
    assert_eq!(large, usize::MAX.to_string());
}

#[test]
fn render_cells_writes_nine_lines() {
    let mut cells = vec![0usize; 81];
    for i in 0..9 {
        cells[i] = i + 1;
    }
    cells[80] = 9;
    let text = render_cells(&cells);
    let mut expected = String::from("| 1 | 2 | 3 | 4 | 5 | 6 | 7 | 8 | 9 |\n");
    for _ in 0..7 {
        expected.push_str("|   |   |   |   |   |   |   |   |   |\n");
    }
    expected.push_str("|   |   |   |   |   |   |   |   | 9 |\n");
    assert_eq!(text, expected);
}
