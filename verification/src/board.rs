//! The board of a puzzle in play: the current cells, the puzzle as it was
//! given, the moves made so far and, per cell, the digits still open.

use vstd::prelude::*;
use crate::moves::{
    all_digits, cache_matches, candidate_moves, initial_candidates, is_move,
    lemma_filter_moves_where, lemma_moves_where, list_candidates, locally_valid, stays_valid,
    targets_empty, valid_moves_of,
};
use crate::render::{grid_text, render_cells};
use crate::rules::{cells_valid, count_empty, empty_count, lemma_empty_count_bounds};
use crate::state::{
    lemma_apply_fills_one_cell, lemma_apply_keeps_wf, lemma_retract_empties_one_cell,
    lemma_retract_keeps_wf, lemma_retract_undoes_apply, GridState,
};

verus! {

/// Why a board could not be set up.
#[derive(Clone, Copy, Debug, PartialEq, Eq, Structural)]
pub enum BoardError {
    /// The input does not hold exactly 81 cells.
    InvalidSize,
}

/// A 9x9 grid with its undo stack.
pub struct Board {
    current_board: Vec<usize>,
    move_history: Vec<(usize, usize)>,
    original_board: Vec<usize>,
    playable_moves: Vec<Vec<usize>>,
}

impl View for Board {
    type V = GridState;

    closed spec fn view(&self) -> GridState {
        GridState { cells: self.current_board@, history: self.move_history@ }
    }
}

impl Board {
    /// The puzzle as it was handed to `from_vector`.
    pub closed spec fn original(&self) -> Seq<usize> {
        self.original_board@
    }

    /// The candidate lists agree with the current cells.
    pub closed spec fn candidates_in_step(&self) -> bool {
        cache_matches(self.current_board@, self.playable_moves@)
    }

    /// The state is well formed, taking back every move would give the
    /// original puzzle, and the candidate lists are up to date.
    pub open spec fn wf(&self) -> bool {
        &&& self@.wf()
        &&& self.original() == self@.origin()
        &&& self.candidates_in_step()
    }

    /// Sets up a board from 81 cells in row-major order, `0` for an empty
    /// cell. The values themselves are taken as they come.
    pub fn from_vector(vector: Vec<usize>) -> (made: Result<Board, BoardError>)
        ensures
            match made {
                Ok(board) => vector.len() == 81 && board.wf() && board@ == GridState::fresh(
                    vector@,
                ) && board.original() == vector@,
                Err(e) => vector.len() != 81 && e == BoardError::InvalidSize,
            },
    {
        if vector.len() != 81 {
            return Err(BoardError::InvalidSize);
        }
        let possible_moves = initial_candidates(&vector);
        let original_board = vector.clone();
        assert(original_board@ =~= vector@);
        Ok(
            Board {
                current_board: vector,
                original_board,
                playable_moves: possible_moves,
                move_history: Vec::new(),
            },
        )
    }

    /// The cells as they stand.
    pub fn current_board(&self) -> (cells: &Vec<usize>)
        ensures
            cells@ == self@.cells,
    {
        &self.current_board
    }

    /// The moves made and not taken back, oldest first.
    pub fn move_history(&self) -> (history: &Vec<(usize, usize)>)
        ensures
            history@ == self@.history,
    {
        &self.move_history
    }

    /// The puzzle as it was given.
    pub fn original_board(&self) -> (cells: &Vec<usize>)
        ensures
            cells@ == self.original(),
    {
        &self.original_board
    }

    /// For each cell the digits that may still be tried there: all nine for
    /// an empty cell, none for a filled one.
    pub fn playable_moves(&self) -> (lists: &Vec<Vec<usize>>)
        requires
            self.wf(),
        ensures
            cache_matches(self@.cells, lists@),
    {
        &self.playable_moves
    }

    /// No row, column or block holds a digit twice.
    pub fn valid(&self) -> (ok: bool)
        requires
            self.wf(),
        ensures
            ok == self@.is_valid(),
    {
        cells_valid(&self.current_board)
    }

    /// The board is full and breaks no rule.
    pub fn solved(&self) -> (ok: bool)
        requires
            self.wf(),
        ensures
            ok == self@.is_solved(),
    {
        self.valid() && self.filled()
    }

    /// Writes the digit of the move into its cell, if that cell is empty, and
    /// records the move. Says whether it did.
    pub fn make_move(&mut self, valid_move: (usize, usize)) -> (made: bool)
        requires
            old(self).wf(),
            is_move(valid_move),
        ensures
            final(self).wf(),
            final(self).original() == old(self).original(),
            made == old(self)@.can_apply(valid_move),
            made ==> final(self)@ == old(self)@.apply(valid_move),
            !made ==> final(self)@ == old(self)@,
            final(self)@.filled_count() >= old(self)@.filled_count(),
    {
        if self.current_board[valid_move.0] != 0 {
            return false;
        }
        proof {
            lemma_apply_keeps_wf(self@, valid_move);
            lemma_apply_fills_one_cell(self@, valid_move);
        }
        self.current_board[valid_move.0] = valid_move.1;
        self.playable_moves[valid_move.0] = Vec::new();
        self.move_history.push(valid_move);
        true
    }

    /// Takes back the latest move, if there is one, and empties its cell.
    /// Says whether it did.
    pub fn unmake_last_move(&mut self) -> (unmade: bool)
        requires
            old(self).wf(),
        ensures
            final(self).wf(),
            final(self).original() == old(self).original(),
            unmade == old(self)@.can_retract(),
            unmade ==> final(self)@ == old(self)@.retract(),
            !unmade ==> final(self)@ == old(self)@,
            final(self)@.filled_count() <= old(self)@.filled_count(),
    {
        if self.move_history.len() == 0 {
            return false;
        }
        proof {
            lemma_retract_keeps_wf(self@);
            lemma_retract_empties_one_cell(self@);
        }
        let valid_move = self.move_history.pop().unwrap();
        self.current_board[valid_move.0] = 0;
        self.playable_moves[valid_move.0] = all_digits();
        true
    }

    /// The candidate moves that leave the board valid, found by trying each
    /// one on the board and taking it back.
    pub fn valid_moves(&mut self) -> (moves: Vec<(usize, usize)>)
        requires
            old(self).wf(),
        ensures
            final(self).wf(),
            final(self)@ == old(self)@,
            final(self).original() == old(self).original(),
            moves@ == valid_moves_of(old(self)@.cells),
    {
        let candidates = self.possible_moves();
        let ghost start = self@;
        let ghost original = self.original();
        let mut valid_moves: Vec<(usize, usize)> = Vec::new();
        let mut k: usize = 0;
        proof {
            lemma_moves_where(targets_empty(start.cells), 729);
        }
        while k < candidates.len()
            invariant
                k <= candidates.len(),
                self.wf(),
                self@ == start,
                self.original() == original,
                forall|j: int|
                    0 <= j < candidates.len() ==> start.can_apply(#[trigger] candidates[j]),
                valid_moves@ == candidates@.take(k as int).filter(stays_valid(start.cells)),
            decreases candidates.len() - k,
        {
            let possible_move = candidates[k];
            self.make_move(possible_move);
            if self.valid() {
                valid_moves.push(possible_move);
            }
            self.unmake_last_move();
            proof {
                lemma_retract_undoes_apply(start, possible_move);
                assert(candidates@.take(k as int + 1) =~= candidates@.take(k as int).push(
                    possible_move,
                ));
                candidates@.take(k as int).lemma_filter_push(
                    possible_move,
                    stays_valid(start.cells),
                );
            }
            k += 1;
        }
        proof {
            assert(candidates@.take(candidates.len() as int) =~= candidates@);
            lemma_filter_moves_where(
                targets_empty(start.cells),
                stays_valid(start.cells),
                locally_valid(start.cells),
                729,
            );
        }
        valid_moves
    }

    /// The board as text, ready to be printed.
    pub fn render(&self) -> (text: String)
        requires
            self.wf(),
        ensures
            text@ == grid_text(self@.cells),
    {
        render_cells(&self.current_board)
    }

    /// No cell is empty.
    pub fn filled(&self) -> (full: bool)
        ensures
            full == self@.is_complete(),
    {
        proof {
            lemma_empty_count_bounds(self@.cells);
        }
        self.unfilled_count() == 0
    }

    /// Number of empty cells.
    pub fn unfilled_count(&self) -> (count: usize)
        ensures
            count == empty_count(self@.cells),
    {
        count_empty(&self.current_board)
    }

    /// One move per empty cell and digit, not yet held against the rules.
    pub fn possible_moves(&self) -> (moves: Vec<(usize, usize)>)
        requires
            self.wf(),
        ensures
            moves@ == candidate_moves(self@.cells),
    {
        list_candidates(&self.playable_moves, Ghost(self.current_board@))
    }
}

} // verus!
