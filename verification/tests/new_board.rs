use sudoku_solver::board::BoardError;
use sudoku_solver::new_board::NewBoard;

const GIVEN: [usize; 81] = [
    6, 0, 0, 0, 7, 1, 4, 0, 0,
    1, 8, 5, 0, 0, 9, 2, 0, 0,
    0, 4, 0, 2, 5, 0, 9, 0, 8,
    5, 0, 8, 0, 3, 0, 0, 0, 4,
    0, 7, 3, 0, 0, 0, 6, 0, 1,
    0, 0, 0, 0, 0, 0, 0, 0, 0,
    2, 3, 4, 9, 1, 0, 0, 7, 6,
    8, 0, 0, 0, 0, 7, 1, 0, 9,
    7, 1, 0, 6, 8, 3, 0, 0, 0,
];

fn new_board_of(cells: &[usize]) -> NewBoard {
    NewBoard::from_vector(cells.to_vec()).unwrap()
}

#[test]
fn new_gives_81_empty_cells() {
    let mut board = NewBoard::new();
    assert_eq!(board.board(), &vec![0usize; 81]);
    assert!(board.move_history().is_empty());
    assert!(board.board_valid());
    assert_eq!(board.possible_moves().len(), 729);
}

#[test]
fn new_board_from_vector_takes_81_cells() {
    let board = new_board_of(&GIVEN);
    assert_eq!(board.board().as_slice(), &GIVEN[..]);
    assert!(board.move_history().is_empty());
}

#[test]
fn new_board_from_vector_rejects_other_lengths() {
    assert_eq!(NewBoard::from_vector(vec![0; 80]).err(), Some(BoardError::InvalidSize));
    assert_eq!(NewBoard::from_vector(vec![0; 82]).err(), Some(BoardError::InvalidSize));
    assert_eq!(NewBoard::from_vector(Vec::new()).err(), Some(BoardError::InvalidSize));
}

#[test]
fn board_valid_checks_each_family() {
    assert!(new_board_of(&GIVEN).board_valid());
    let mut row = vec![0usize; 81];
    row[27] = 4;
    row[35] = 4;
    assert!(!new_board_of(&row).board_valid());
    let mut column = vec![0usize; 81];
    column[4] = 4;
    column[76] = 4;
    assert!(!new_board_of(&column).board_valid());
    let mut block = vec![0usize; 81];
    block[30] = 4;
    block[50] = 4;
    assert!(!new_board_of(&block).board_valid());
}

#[test]
fn board_valid_leaves_the_board_alone() {
    let mut board = new_board_of(&GIVEN);
    board.make_move((1, 9));
    let cells = board.board().clone();
    assert!(board.board_valid());
    assert!(board.board_valid());
    assert_eq!(board.board(), &cells);
    assert_eq!(board.move_history().as_slice(), &[(1, 9)][..]);
}

#[test]
fn new_board_make_and_unmake() {
    let mut board = new_board_of(&GIVEN);
    assert!(!board.unmake_last_move());
    assert!(board.make_move((1, 9)));
    assert!(!board.make_move((1, 2)));
    assert!(!board.make_move((0, 2)));
    assert_eq!(board.board()[1], 9);
    assert_eq!(board.move_history().as_slice(), &[(1, 9)][..]);
    assert!(board.unmake_last_move());
    assert_eq!(board.board().as_slice(), &GIVEN[..]);
    assert!(board.move_history().is_empty());
    assert!(!board.unmake_last_move());
}

#[test]
fn new_board_candidates_follow_the_moves() {
    let mut board = NewBoard::new();
    board.make_move((0, 7));
    let moves = board.possible_moves();
    assert_eq!(moves.len(), 720);
    assert_eq!(moves[0], (1, 1));
    board.unmake_last_move();
    let moves = board.possible_moves();
    assert_eq!(moves.len(), 729);
    assert_eq!(moves[0], (0, 1));
    assert_eq!(moves[8], (0, 9));
}

#[test]
fn new_board_valid_moves() {
    let mut board = new_board_of(&GIVEN);
    let moves = board.valid_moves();
    assert_eq!(&moves[..5], &[(1, 2), (1, 9), (2, 2), (2, 9), (3, 3)][..]);
    assert_eq!(board.board().as_slice(), &GIVEN[..]);
    assert!(board.move_history().is_empty());
    let mut fresh = NewBoard::new();
    fresh.make_move((0, 1));
    let moves = fresh.valid_moves();
    assert_eq!(moves[0], (1, 2));
    assert_eq!(moves.len(), 720 - 20);
}

#[test]
fn new_board_render() {
    let text = NewBoard::new().render();
    assert_eq!(text, "|   |   |   |   |   |   |   |   |   |\n".repeat(9));
    let text = new_board_of(&GIVEN).render();
    assert!(text.starts_with("| 6 |   |   |   | 7 | 1 | 4 |   |   |\n| 1 | 8 | 5 |"));
}
