//! Two grids to start from: the empty grid and a sample puzzle, each with a
//! solution and the proof that the search therefore succeeds on it.

use vstd::prelude::*;
use crate::rules::{empty_grid, grid_valid};
use crate::search::{is_solution, solvable};

verus! {

/// A solution of the empty grid.
pub open spec fn filled_grid() -> Seq<usize> {
    seq![
        1, 2, 3, 4, 5, 6, 7, 8, 9,
        4, 5, 6, 7, 8, 9, 1, 2, 3,
        7, 8, 9, 1, 2, 3, 4, 5, 6,
        2, 1, 4, 3, 6, 5, 8, 9, 7,
        3, 6, 5, 8, 9, 7, 2, 1, 4,
        8, 9, 7, 2, 1, 4, 3, 6, 5,
        5, 3, 1, 6, 4, 2, 9, 7, 8,
        6, 4, 2, 9, 7, 8, 5, 3, 1,
        9, 7, 8, 5, 3, 1, 6, 4, 2,
    ]
}

/// The sample puzzle.
pub open spec fn sample_puzzle() -> Seq<usize> {
    seq![
        6, 0, 0, 0, 7, 1, 4, 0, 0,
        1, 8, 5, 0, 0, 9, 2, 0, 0,
        0, 4, 0, 2, 5, 0, 9, 0, 8,
        5, 0, 8, 0, 3, 0, 0, 0, 4,
        0, 7, 3, 0, 0, 0, 6, 0, 1,
        0, 0, 0, 0, 0, 0, 0, 0, 0,
        2, 3, 4, 9, 1, 0, 0, 7, 6,
        8, 0, 0, 0, 0, 7, 1, 0, 9,
        7, 1, 0, 6, 8, 3, 0, 0, 0,
    ]
}

/// The solution of the sample puzzle.
pub open spec fn sample_solution() -> Seq<usize> {
    seq![
        6, 9, 2, 8, 7, 1, 4, 5, 3,
        1, 8, 5, 3, 4, 9, 2, 6, 7,
        3, 4, 7, 2, 5, 6, 9, 1, 8,
        5, 6, 8, 1, 3, 2, 7, 9, 4,
        4, 7, 3, 5, 9, 8, 6, 2, 1,
        9, 2, 1, 7, 6, 4, 3, 8, 5,
        2, 3, 4, 9, 1, 5, 8, 7, 6,
        8, 5, 6, 4, 2, 7, 1, 3, 9,
        7, 1, 9, 6, 8, 3, 5, 4, 2,
    ]
}

/// The empty grid has a solution, so the search returns a solved board for
/// it.
pub proof fn lemma_empty_grid_is_solvable()
    ensures
        is_solution(empty_grid(), filled_grid()),
        solvable(empty_grid()),
{
    assert(grid_valid(filled_grid()));
    assert(is_solution(empty_grid(), filled_grid()));
}

/// The sample puzzle has a solution, so the search returns a solved board
/// for it, in which the given digits stand where they stood.
pub proof fn lemma_sample_puzzle_is_solvable()
    ensures
        is_solution(sample_puzzle(), sample_solution()),
        solvable(sample_puzzle()),
{
    assert(grid_valid(sample_solution()));
    assert(is_solution(sample_puzzle(), sample_solution()));
}

/// The sample puzzle, ready to be handed to a board.
pub fn sample_cells() -> (cells: Vec<usize>)
    ensures
        cells@ == sample_puzzle(),
{
    let cells = vec![
        6, 0, 0, 0, 7, 1, 4, 0, 0,
        1, 8, 5, 0, 0, 9, 2, 0, 0,
        0, 4, 0, 2, 5, 0, 9, 0, 8,
        5, 0, 8, 0, 3, 0, 0, 0, 4,
        0, 7, 3, 0, 0, 0, 6, 0, 1,
        0, 0, 0, 0, 0, 0, 0, 0, 0,
        2, 3, 4, 9, 1, 0, 0, 7, 6,
        8, 0, 0, 0, 0, 7, 1, 0, 9,
        7, 1, 0, 6, 8, 3, 0, 0, 0,
    ];
    assert(cells@ =~= sample_puzzle());
    cells
}

} // verus!
