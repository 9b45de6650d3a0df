//! Depth-first search with chronological backtracking.

use vstd::prelude::*;
use crate::board::Board;
use crate::moves::{lemma_moves_where, locally_valid, valid_moves_of, with_move};
use crate::rules::{cleared_from, empty_count};
use crate::search::{
    fill_moves, is_first_solution, lemma_dead_end, lemma_first_solvable_move, lemma_solved_grid,
    solvable,
};
use crate::state::{lemma_apply_fills_one_cell, lemma_retract_undoes_apply};

verus! {

/// Searches for a solution of the board.
///
/// The valid moves are tried in the order in which they are listed. Each is
/// made, the search goes on from the board it gives, and the move is taken
/// back if nothing was found. The first solution met is returned as it is;
/// with it the history has grown by the moves that fill the empty cells, in
/// cell order. Where the board has no solution it comes back as it went in.
///
/// Every nested call works on a board with one more filled cell, so the
/// calls never nest deeper than the number of empty cells, 81 at most.
///
/// Nothing is pruned: where one cell cannot be filled, the moves into all
/// the other cells are still tried in turn before the search gives up on a
/// board. The time this takes grows steeply with the number of empty cells.
pub fn solve_board(board: Board) -> (solved: Board)
    requires
        board.wf(),
    ensures
        solved.wf(),
        solved.original() == board.original(),
        cleared_from(board@.cells, solved@.cells),
        solved@.is_solved() <==> solvable(board@.cells),
        solvable(board@.cells) ==> is_first_solution(board@.cells, solved@.cells)
            && solved@.history == board@.history + fill_moves(board@.cells, solved@.cells),
        !solvable(board@.cells) ==> solved@ == board@,
    decreases empty_count(board@.cells),
{
    let ghost start = board@;
    let mut current = board;
    let moves = current.valid_moves();
    proof {
        lemma_moves_where(locally_valid(start.cells), 729);
    }
    let mut k: usize = 0;
    while k < moves.len()
        invariant
            k <= moves.len(),
            current.wf(),
            start == board@,
            current@ == start,
            current.original() == board.original(),
            moves@ == valid_moves_of(start.cells),
            forall|j: int|
                0 <= j < moves.len() ==> start.can_apply(#[trigger] moves[j]),
            forall|j: int|
                0 <= j < k ==> !solvable(with_move(start.cells, #[trigger] moves[j])),
        decreases moves.len() - k,
    {
        let valid_move = moves[k];
        let ghost child = start.apply(valid_move);
        proof {
            lemma_apply_fills_one_cell(start, valid_move);
        }
        current.make_move(valid_move);
        current = solve_board(current);
        if current.solved() {
            proof {
                if !solvable(child.cells) {
                    lemma_solved_grid(child.cells);
                }
                lemma_first_solvable_move(start.cells, k as int, current@.cells);
                assert(current@.history =~= start.history + fill_moves(
                    start.cells,
                    current@.cells,
                ));
            }
            return current;
        }
        proof {
            lemma_retract_undoes_apply(start, valid_move);
        }
        current.unmake_last_move();
        k += 1;
    }
    proof {
        if start.is_solved() {
            lemma_solved_grid(start.cells);
            assert(start.history + fill_moves(start.cells, start.cells) =~= start.history);
        } else {
            lemma_dead_end(start.cells);
        }
    }
    current
}

} // verus!
