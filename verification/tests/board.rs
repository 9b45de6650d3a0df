use sudoku_solver::board::{Board, BoardError};

const SAMPLE: [usize; 81] = [
    6, 0, 0, 0, 7, 1, 4, 0, 0,
    1, 8, 5, 0, 0, 9, 2, 0, 0,
    0, 4, 0, 2, 5, 0, 9, 0, 8,
    5, 0, 8, 0, 3, 0, 0, 0, 4,
    0, 7, 3, 0, 0, 0, 6, 0, 1,
    0, 0, 0, 0, 0, 0, 0, 0, 0,
    2, 3, 4, 9, 1, 0, 0, 7, 6,
    8, 0, 0, 0, 0, 7, 1, 0, 9,
    7, 1, 0, 6, 8, 3, 0, 0, 0,
];

const SAMPLE_SOLVED: [usize; 81] = [
    6, 9, 2, 8, 7, 1, 4, 5, 3,
    1, 8, 5, 3, 4, 9, 2, 6, 7,
    3, 4, 7, 2, 5, 6, 9, 1, 8,
    5, 6, 8, 1, 3, 2, 7, 9, 4,
    4, 7, 3, 5, 9, 8, 6, 2, 1,
    9, 2, 1, 7, 6, 4, 3, 8, 5,
    2, 3, 4, 9, 1, 5, 8, 7, 6,
    8, 5, 6, 4, 2, 7, 1, 3, 9,
    7, 1, 9, 6, 8, 3, 5, 4, 2,
];

fn board_of(cells: &[usize]) -> Board {
    Board::from_vector(cells.to_vec()).unwrap()
}

fn empty_grid() -> Vec<usize> {
    vec![0; 81]
}

#[test]
fn from_vector_takes_81_cells() {
    let board = board_of(&SAMPLE);
    assert_eq!(board.current_board().as_slice(), &SAMPLE[..]);
    assert_eq!(board.original_board().as_slice(), &SAMPLE[..]);
    assert!(board.move_history().is_empty());
}

#[test]
fn from_vector_rejects_80_cells() {
    let made = Board::from_vector(vec![0; 80]);
    assert_eq!(made.err(), Some(BoardError::InvalidSize));
}

#[test]
fn from_vector_rejects_82_cells_and_none() {
    assert_eq!(Board::from_vector(vec![0; 82]).err(), Some(BoardError::InvalidSize));
    assert_eq!(Board::from_vector(Vec::new()).err(), Some(BoardError::InvalidSize));
}

#[test]
fn from_vector_does_not_check_the_values() {
    let mut cells = empty_grid();
    cells[40] = 10;
    cells[41] = usize::MAX;
    let board = board_of(&cells);
    assert_eq!(board.current_board()[40], 10);
    assert_eq!(board.current_board()[41], usize::MAX);
    assert!(board.valid());
    assert_eq!(board.unfilled_count(), 79);
}

#[test]
fn empty_grid_is_valid_and_not_solved() {
    let board = board_of(&empty_grid());
    assert!(board.valid());
    assert!(!board.filled());
    assert!(!board.solved());
    assert_eq!(board.unfilled_count(), 81);
}

#[test]
fn sample_is_valid_and_its_solution_is_solved() {
    let puzzle = board_of(&SAMPLE);
    assert!(puzzle.valid());
    assert!(!puzzle.solved());
    assert_eq!(puzzle.unfilled_count(), 43);
    let done = board_of(&SAMPLE_SOLVED);
    assert!(done.valid());
    assert!(done.filled());
    assert!(done.solved());
    assert_eq!(done.unfilled_count(), 0);
}

#[test]
fn a_digit_twice_in_a_row_is_invalid() {
    let mut cells = empty_grid();
    cells[0] = 5;
    cells[8] = 5;
    assert!(!board_of(&cells).valid());
}

#[test]
fn a_digit_twice_in_a_column_is_invalid() {
    let mut cells = empty_grid();
    cells[0] = 5;
    cells[72] = 5;
    assert!(!board_of(&cells).valid());
}

#[test]
fn a_digit_twice_in_a_block_is_invalid() {
    let mut cells = empty_grid();
    cells[0] = 5;
    cells[10] = 5;
    assert!(!board_of(&cells).valid());
    let mut last_block = empty_grid();
    last_block[60] = 9;
    last_block[80] = 9;
    assert!(!board_of(&last_block).valid());
}

#[test]
fn the_same_digit_in_unrelated_cells_is_valid() {
    let mut cells = empty_grid();
    cells[0] = 5;
    cells[13] = 5;
    cells[80] = 5;
    assert!(board_of(&cells).valid());
}

#[test]
fn a_value_above_nine_twice_in_a_row_is_invalid() {
    let mut cells = empty_grid();
    cells[9] = 12;
    cells[17] = 12;
    assert!(!board_of(&cells).valid());
}

#[test]
fn a_full_grid_with_a_repeated_digit_is_not_solved() {
    let mut cells = SAMPLE_SOLVED.to_vec();
    cells[1] = 6;
    let board = board_of(&cells);
    assert!(board.filled());
    assert!(!board.valid());
    assert!(!board.solved());
}

#[test]
fn solved_gives_the_same_answer_twice() {
    let done = board_of(&SAMPLE_SOLVED);
    assert_eq!(done.solved(), done.solved());
    assert!(done.solved());
    let puzzle = board_of(&SAMPLE);
    assert_eq!(puzzle.solved(), puzzle.solved());
    assert!(!puzzle.solved());
}

#[test]
fn make_move_fills_an_empty_cell() {
    let mut board = board_of(&SAMPLE);
    assert!(board.make_move((1, 9)));
    assert_eq!(board.current_board()[1], 9);
    assert_eq!(board.move_history().as_slice(), &[(1, 9)][..]);
    assert_eq!(board.original_board().as_slice(), &SAMPLE[..]);
    assert_eq!(board.unfilled_count(), 42);
}

#[test]
fn make_move_refuses_a_filled_cell() {
    let mut board = board_of(&SAMPLE);
    assert!(!board.make_move((0, 3)));
    assert_eq!(board.current_board().as_slice(), &SAMPLE[..]);
    assert!(board.move_history().is_empty());
    assert!(board.make_move((1, 9)));
    assert!(!board.make_move((1, 2)));
    assert_eq!(board.current_board()[1], 9);
    assert_eq!(board.move_history().len(), 1);
}

#[test]
fn make_move_does_not_ask_whether_the_digit_fits() {
    let mut board = board_of(&SAMPLE);
    assert!(board.make_move((1, 6)));
    assert!(!board.valid());
}

#[test]
fn unmake_last_move_restores_cells_and_history() {
    let mut board = board_of(&SAMPLE);
    assert!(board.make_move((2, 2)));
    let cells_before = board.current_board().clone();
    let history_before = board.move_history().len();
    assert!(board.make_move((1, 9)));
    assert!(board.unmake_last_move());
    assert_eq!(board.current_board(), &cells_before);
    assert_eq!(board.move_history().len(), history_before);
    assert_eq!(board.move_history().as_slice(), &[(2, 2)][..]);
}

#[test]
fn unmake_last_move_fails_on_a_fresh_board() {
    let mut board = board_of(&SAMPLE);
    assert!(!board.unmake_last_move());
    assert_eq!(board.current_board().as_slice(), &SAMPLE[..]);
    assert!(board.move_history().is_empty());
}

#[test]
fn moves_come_back_in_reverse_order() {
    let mut board = board_of(&empty_grid());
    assert!(board.make_move((10, 1)));
    assert!(board.make_move((20, 2)));
    assert!(board.make_move((30, 3)));
    assert!(board.unmake_last_move());
    assert_eq!(board.current_board()[30], 0);
    assert_eq!(board.current_board()[20], 2);
    assert!(board.unmake_last_move());
    assert_eq!(board.current_board()[20], 0);
    assert_eq!(board.current_board()[10], 1);
    assert!(board.unmake_last_move());
    assert!(!board.unmake_last_move());
    assert_eq!(board.current_board(), &empty_grid());
}

#[test]
fn filled_cells_go_up_with_a_move_and_down_with_its_retraction() {
    let mut board = board_of(&SAMPLE);
    let before = 81 - board.unfilled_count();
    board.make_move((1, 9));
    let after_move = 81 - board.unfilled_count();
    assert_eq!(after_move, before + 1);
    board.make_move((1, 2));
    assert_eq!(81 - board.unfilled_count(), after_move);
    board.unmake_last_move();
    assert_eq!(81 - board.unfilled_count(), before);
    board.unmake_last_move();
    assert_eq!(81 - board.unfilled_count(), before);
}

#[test]
fn possible_moves_lists_nine_digits_for_each_empty_cell() {
    let board = board_of(&empty_grid());
    let moves = board.possible_moves();
    assert_eq!(moves.len(), 729);
    assert_eq!(moves[0], (0, 1));
    assert_eq!(moves[8], (0, 9));
    assert_eq!(moves[9], (1, 1));
    assert_eq!(moves[728], (80, 9));
    let sample = board_of(&SAMPLE);
    let moves = sample.possible_moves();
    assert_eq!(moves.len(), 43 * 9);
    assert_eq!(moves[0], (1, 1));
    assert_eq!(moves[9], (2, 1));
    assert_eq!(moves[43 * 9 - 1], (80, 9));
}

#[test]
fn possible_moves_does_not_hold_digits_against_the_rules() {
    let mut cells = SAMPLE_SOLVED.to_vec();
    cells[80] = 0;
    let board = board_of(&cells);
    let expected: Vec<(usize, usize)> = (1..10).map(|digit| (80, digit)).collect();
    assert_eq!(board.possible_moves(), expected);
}

#[test]
fn possible_moves_follow_the_moves_made() {
    assert!(board_of(&SAMPLE_SOLVED).possible_moves().is_empty());
    let mut cells = SAMPLE_SOLVED.to_vec();
    cells[3] = 0;
    cells[4] = 0;
    let mut board = board_of(&cells);
    board.make_move((3, 8));
    let expected: Vec<(usize, usize)> = (1..10).map(|digit| (4, digit)).collect();
    assert_eq!(board.possible_moves(), expected);
    assert!(board.playable_moves()[3].is_empty());
    board.unmake_last_move();
    assert_eq!(board.possible_moves().len(), 18);
    assert_eq!(board.possible_moves()[0], (3, 1));
    assert_eq!(board.playable_moves()[3], vec![1, 2, 3, 4, 5, 6, 7, 8, 9]);
    assert!(board.playable_moves()[0].is_empty());
}

#[test]
fn valid_moves_keeps_what_fits() {
    let mut cells = SAMPLE_SOLVED.to_vec();
    cells[80] = 0;
    let mut board = board_of(&cells);
    assert_eq!(board.valid_moves(), vec![(80, 2)]);
    assert_eq!(board.current_board(), &cells);
    assert!(board.move_history().is_empty());
}

#[test]
fn valid_moves_come_in_cell_order_then_digit_order() {
    let mut board = board_of(&SAMPLE);
    let moves = board.valid_moves();
    assert_eq!(&moves[..5], &[(1, 2), (1, 9), (2, 2), (2, 9), (3, 3)][..]);
    for pair in moves.windows(2) {
        assert!(pair[0] < pair[1]);
    }
    assert_eq!(board.current_board().as_slice(), &SAMPLE[..]);
}

#[test]
fn valid_moves_of_an_empty_grid_are_all_moves() {
    let mut board = board_of(&empty_grid());
    assert_eq!(board.valid_moves().len(), 729);
}

#[test]
fn valid_moves_of_an_invalid_grid_are_none() {
    let mut cells = empty_grid();
    cells[0] = 5;
    cells[8] = 5;
    let mut board = board_of(&cells);
    assert!(board.valid_moves().is_empty());
}

#[test]
fn render_draws_bars_and_blanks() {
    let board = board_of(&SAMPLE);
    let text = board.render();
    let lines: Vec<&str> = text.lines().collect();
    assert_eq!(lines.len(), 9);
    assert_eq!(lines[0], "| 6 |   |   |   | 7 | 1 | 4 |   |   |");
    assert_eq!(lines[5], "|   |   |   |   |   |   |   |   |   |");
    assert_eq!(lines[8], "| 7 | 1 |   | 6 | 8 | 3 |   |   |   |");
    assert!(text.ends_with("|\n"));
    assert_eq!(text.len(), 9 * 38);
}

#[test]
fn render_writes_large_values_in_full() {
    let mut cells = empty_grid();
    cells[0] = 10;
    cells[1] = 407;
    let text = board_of(&cells).render();
    assert!(text.starts_with("| 10 | 407 |   |"));
}
