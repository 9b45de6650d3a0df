//! The mathematical model of a grid under play: its cells and the stack of
//! moves made so far, with the laws that applying and retracting obey.

use vstd::prelude::*;
use crate::moves::{is_move, with_move, Move};
use crate::rules::{
    empty_count, grid_complete, grid_valid, lemma_empty_count_bounds, lemma_empty_count_update,
};

verus! {

/// A grid together with the moves that were made on it, oldest first.
#[verifier::ext_equal]
pub struct GridState {
    pub cells: Seq<usize>,
    pub history: Seq<Move>,
}

impl GridState {
    /// A grid on which no move has been made.
    pub open spec fn fresh(cells: Seq<usize>) -> GridState {
        GridState { cells, history: Seq::empty() }
    }

    /// The grid has 81 cells, every move of the history is still on the grid
    /// with the digit it wrote, and no two moves wrote to the same cell.
    pub open spec fn wf(self) -> bool {
        &&& self.cells.len() == 81
        &&& forall|k: int|
            0 <= k < self.history.len() ==> is_move(#[trigger] self.history[k])
                && self.cells[self.history[k].0 as int] == self.history[k].1
        &&& forall|j: int, k: int|
            0 <= j < k < self.history.len() ==> (#[trigger] self.history[j]).0
                != (#[trigger] self.history[k]).0
    }

    /// The move may be made: its cell is empty.
    pub open spec fn can_apply(self, m: Move) -> bool {
        is_move(m) && self.cells[m.0 as int] == 0
    }

    /// The state after the move was made.
    pub open spec fn apply(self, m: Move) -> GridState {
        GridState { cells: with_move(self.cells, m), history: self.history.push(m) }
    }

    /// There is a move to take back.
    pub open spec fn can_retract(self) -> bool {
        self.history.len() > 0
    }

    /// The state after the latest move was taken back.
    pub open spec fn retract(self) -> GridState {
        GridState {
            cells: self.cells.update(self.history.last().0 as int, 0),
            history: self.history.drop_last(),
        }
    }

    /// The grid as it was before the first move of the history.
    pub open spec fn origin(self) -> Seq<usize>
        decreases self.history.len(),
    {
        if self.history.len() == 0 {
            self.cells
        } else {
            self.retract().origin()
        }
    }

    /// No row, column or block holds a digit twice.
    pub open spec fn is_valid(self) -> bool {
        grid_valid(self.cells)
    }

    /// No cell is empty.
    pub open spec fn is_complete(self) -> bool {
        grid_complete(self.cells)
    }

    /// The grid is complete and valid.
    pub open spec fn is_solved(self) -> bool {
        self.is_complete() && self.is_valid()
    }

    /// Number of cells that hold a digit.
    pub open spec fn filled_count(self) -> int {
        self.cells.len() - empty_count(self.cells)
    }
}

/// The cells that result from making the given moves, in order, on `base`.
pub open spec fn replay(base: Seq<usize>, moves: Seq<Move>) -> Seq<usize>
    decreases moves.len(),
{
    if moves.len() == 0 {
        base
    } else {
        with_move(replay(base, moves.drop_last()), moves.last())
    }
}

/// Making a move on a well-formed state gives a well-formed state with the
/// same origin.
pub proof fn lemma_apply_keeps_wf(s: GridState, m: Move)
    requires
        s.wf(),
        s.can_apply(m),
    ensures
        s.apply(m).wf(),
        s.apply(m).origin() == s.origin(),
{
    assert(s.apply(m).retract() =~= s);
}

/// Taking back the latest move of a well-formed state gives a well-formed
/// state with the same origin, in which the cell of that move is empty again.
pub proof fn lemma_retract_keeps_wf(s: GridState)
    requires
        s.wf(),
        s.can_retract(),
    ensures
        s.retract().wf(),
        s.retract().origin() == s.origin(),
        s.retract().can_apply(s.history.last()),
        s.retract().apply(s.history.last()) == s,
{
    let t = s.retract();
    let last = s.history.last();
    assert(is_move(s.history[s.history.len() - 1]));
    assert forall|k: int| 0 <= k < t.history.len() implies is_move(#[trigger] t.history[k])
        && t.cells[t.history[k].0 as int] == t.history[k].1 by {
        assert(t.history[k] == s.history[k]);
        assert(s.history[k].0 != s.history[s.history.len() - 1].0);
    }
    assert(t.apply(last) =~= s);
}

/// Round trip: a move that was made and at once taken back leaves the cells
/// and the history exactly as they were.
pub proof fn lemma_retract_undoes_apply(s: GridState, m: Move)
    requires
        s.wf(),
        s.can_apply(m),
    ensures
        s.apply(m).can_retract(),
        s.apply(m).retract() == s,
        s.apply(m).retract().cells == s.cells,
        s.apply(m).retract().history.len() == s.history.len(),
{
    assert(s.apply(m).retract() =~= s);
}

/// Making a move fills exactly one more cell, so the count of filled cells
/// never goes down.
pub proof fn lemma_apply_fills_one_cell(s: GridState, m: Move)
    requires
        s.wf(),
        s.can_apply(m),
    ensures
        s.apply(m).filled_count() == s.filled_count() + 1,
        s.apply(m).filled_count() >= s.filled_count(),
        empty_count(s.apply(m).cells) + 1 == empty_count(s.cells),
{
    lemma_empty_count_update(s.cells, m.0 as int, m.1);
}

/// Taking a move back empties exactly one cell, so the count of filled cells
/// never goes up.
pub proof fn lemma_retract_empties_one_cell(s: GridState)
    requires
        s.wf(),
        s.can_retract(),
    ensures
        s.retract().filled_count() == s.filled_count() - 1,
        s.retract().filled_count() <= s.filled_count(),
{
    assert(is_move(s.history[s.history.len() - 1]));
    lemma_empty_count_update(s.cells, s.history.last().0 as int, 0);
}

/// Every move on the stack holds a cell of its own, so the stack is never
/// higher than the number of filled cells, 81 at most.
pub proof fn lemma_history_bounded(s: GridState)
    requires
        s.wf(),
    ensures
        s.history.len() <= s.filled_count() <= 81,
    decreases s.history.len(),
{
    lemma_empty_count_bounds(s.cells);
    if s.history.len() > 0 {
        lemma_retract_keeps_wf(s);
        lemma_retract_empties_one_cell(s);
        lemma_history_bounded(s.retract());
    }
}

/// Each of the moves can be made on the state that the moves before it
/// lead to.
pub open spec fn can_apply_all(s: GridState, moves: Seq<Move>) -> bool
    decreases moves.len(),
{
    moves.len() == 0 || (can_apply_all(s, moves.drop_last()) && apply_all(
        s,
        moves.drop_last(),
    ).can_apply(moves.last()))
}

/// The state after the moves were made in turn.
pub open spec fn apply_all(s: GridState, moves: Seq<Move>) -> GridState
    decreases moves.len(),
{
    if moves.len() == 0 {
        s
    } else {
        apply_all(s, moves.drop_last()).apply(moves.last())
    }
}

/// Moves made one on top of the other each take an empty cell, so there are
/// never more of them than the state had empty cells, 81 at most. A search
/// that makes one move per level can therefore never be more than 81 levels
/// deep.
pub proof fn lemma_moves_in_a_row(s: GridState, moves: Seq<Move>)
    requires
        s.wf(),
        can_apply_all(s, moves),
    ensures
        apply_all(s, moves).wf(),
        moves.len() + empty_count(apply_all(s, moves).cells) == empty_count(s.cells),
        moves.len() <= empty_count(s.cells) <= 81,
    decreases moves.len(),
{
    lemma_empty_count_bounds(s.cells);
    if moves.len() > 0 {
        lemma_moves_in_a_row(s, moves.drop_last());
        let before = apply_all(s, moves.drop_last());
        lemma_apply_keeps_wf(before, moves.last());
        lemma_apply_fills_one_cell(before, moves.last());
    }
}

/// The cells can always be rebuilt by replaying the history on the origin.
pub proof fn lemma_history_replays(s: GridState)
    requires
        s.wf(),
    ensures
        replay(s.origin(), s.history) == s.cells,
    decreases s.history.len(),
{
    if s.history.len() > 0 {
        lemma_retract_keeps_wf(s);
        lemma_history_replays(s.retract());
        assert(s.retract().apply(s.history.last()).cells == s.cells);
    }
}

/// Whether a state is solved depends on its cells alone: asking twice with
/// no move in between gives the same answer.
pub proof fn lemma_solved_depends_on_cells(s: GridState, t: GridState)
    requires
        s.cells == t.cells,
    ensures
        s.is_solved() == t.is_solved(),
        s.is_valid() == t.is_valid(),
        s.is_complete() == t.is_complete(),
{
}

} // verus!
