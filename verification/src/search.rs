//! What the search is looking for: the solutions of a grid, and the one
//! among them that chronological backtracking reaches first.

use vstd::prelude::*;
use crate::moves::{
    rank_of, is_move, lemma_rank_of_move, lemma_move_at_rank, lemma_moves_where, locally_valid,
    move_at, moves_where, valid_moves_of, with_move, Move,
};
use crate::rules::{
    all_digits_set, cleared_from, family_valid, grid_complete, grid_valid,
    lemma_cleared_grid_stays_valid, lemma_unit_holds_every_digit, unit_cell, Family,
};

verus! {

/// `full` completes `base`: it keeps every filled cell of `base`, puts a
/// digit from 1 to 9 into each empty one, and is complete and valid.
pub open spec fn is_solution(base: Seq<usize>, full: Seq<usize>) -> bool {
    &&& base.len() == 81
    &&& cleared_from(base, full)
    &&& grid_complete(full)
    &&& grid_valid(full)
    &&& forall|i: int| 0 <= i < 81 && base[i] == 0 ==> 1 <= #[trigger] full[i] <= 9
}

/// The grid has at least one solution.
pub open spec fn solvable(base: Seq<usize>) -> bool {
    exists|full: Seq<usize>| is_solution(base, full)
}

/// `a` comes before `b` when both are read cell by cell: at the first cell
/// where they differ, `a` holds the smaller value.
pub open spec fn lex_before(a: Seq<usize>, b: Seq<usize>) -> bool {
    exists|k: int|
        0 <= k < a.len() && k < b.len() && #[trigger] a[k] < b[k] && forall|i: int|
            0 <= i < k ==> a[i] == b[i]
}

/// `full` is the solution of `base` that comes before every other one.
pub open spec fn is_first_solution(base: Seq<usize>, full: Seq<usize>) -> bool {
    &&& is_solution(base, full)
    &&& forall|other: Seq<usize>| #[trigger]
        is_solution(base, other) ==> other == full || lex_before(full, other)
}

/// The move writes into an empty cell of `base` the digit that `full` holds
/// there.
pub open spec fn fills(base: Seq<usize>, full: Seq<usize>) -> spec_fn(Move) -> bool {
    |m: Move| base[m.0 as int] == 0 && full[m.0 as int] == m.1
}

/// The moves that turn `base` into `full`, in ascending cell order.
pub open spec fn fill_moves(base: Seq<usize>, full: Seq<usize>) -> Seq<Move> {
    moves_where(fills(base, full), 729)
}

/// Where the given cells hold digits, a solution holds each digit exactly
/// once in every row, column and block.
pub proof fn lemma_solution_holds_every_digit(
    base: Seq<usize>,
    full: Seq<usize>,
    family: Family,
    unit: int,
    digit: int,
)
    requires
        is_solution(base, full),
        forall|i: int| 0 <= i < 81 ==> #[trigger] base[i] <= 9,
        0 <= unit < 9,
        1 <= digit <= 9,
    ensures
        all_digits_set(full),
        exists|slot: int| 0 <= slot < 9 && #[trigger] full[unit_cell(family, unit, slot)] == digit,
        forall|j: int, k: int|
            0 <= j < 9 && 0 <= k < 9 && full[#[trigger] unit_cell(family, unit, j)] == digit
                && full[#[trigger] unit_cell(family, unit, k)] == digit ==> j == k,
{
    assert forall|i: int| 0 <= i < full.len() implies 1 <= #[trigger] full[i] <= 9 by {
        if base[i] != 0 {
            assert(base[i] <= 9);
        }
    }
    lemma_unit_holds_every_digit(full, family, unit, digit);
}

/// A grid has at most one first solution.
pub proof fn lemma_first_solution_is_unique(base: Seq<usize>, a: Seq<usize>, b: Seq<usize>)
    requires
        is_first_solution(base, a),
        is_first_solution(base, b),
    ensures
        a == b,
{
    if a != b {
        assert(lex_before(a, b));
        assert(lex_before(b, a));
        let j = choose|k: int|
            0 <= k < a.len() && k < b.len() && #[trigger] a[k] < b[k] && forall|i: int|
                0 <= i < k ==> a[i] == b[i];
        let k = choose|k: int|
            0 <= k < b.len() && k < a.len() && #[trigger] b[k] < a[k] && forall|i: int|
                0 <= i < k ==> b[i] == a[i];
        if j < k {
            assert(b[j] == a[j]);
        } else if k < j {
            assert(a[k] == b[k]);
        }
    }
}

/// A grid that breaks a rule has no solution, whether or not it is complete:
/// filling cells cannot take a repeated digit away.
pub proof fn lemma_invalid_grid_has_no_solution(base: Seq<usize>)
    requires
        base.len() == 81,
        !grid_valid(base),
    ensures
        !solvable(base),
{
    if solvable(base) {
        let full = choose|full: Seq<usize>| is_solution(base, full);
        lemma_cleared_grid_stays_valid(base, full);
    }
}

/// A complete and valid grid is its own and only solution, and no move is
/// needed to reach it.
pub proof fn lemma_solved_grid(base: Seq<usize>)
    requires
        base.len() == 81,
        grid_complete(base),
        grid_valid(base),
    ensures
        is_first_solution(base, base),
        fill_moves(base, base) == Seq::<Move>::empty(),
{
    assert forall|other: Seq<usize>| #[trigger] is_solution(base, other) implies other == base
        || lex_before(base, other) by {
        assert(other =~= base);
    }
    let moves = fill_moves(base, base);
    lemma_moves_where(fills(base, base), 729);
    if moves.len() > 0 {
        assert(is_move(moves[0]));
    }
    assert(moves =~= Seq::<Move>::empty());
}

/// A solution of a grid with an empty cell also solves the grid in which
/// that cell already holds the solution's digit, and the move that writes it
/// is among the valid moves.
pub proof fn lemma_solution_passes_through(base: Seq<usize>, full: Seq<usize>, cell: int)
    requires
        is_solution(base, full),
        0 <= cell < 81,
        base[cell] == 0,
    ensures
        is_move((cell as usize, full[cell])),
        is_solution(with_move(base, (cell as usize, full[cell])), full),
        valid_moves_of(base).contains((cell as usize, full[cell])),
{
    let m = (cell as usize, full[cell]);
    let child = with_move(base, m);
    lemma_cleared_grid_stays_valid(child, full);
    assert(locally_valid(base)(m));
    lemma_moves_where(locally_valid(base), 729);
}

/// A grid that is not solved and none of whose valid moves leads to a
/// solvable grid has no solution.
pub proof fn lemma_dead_end(base: Seq<usize>)
    requires
        base.len() == 81,
        !(grid_complete(base) && grid_valid(base)),
        forall|j: int|
            0 <= j < valid_moves_of(base).len() ==> !solvable(
                with_move(base, #[trigger] valid_moves_of(base)[j]),
            ),
    ensures
        !solvable(base),
{
    if solvable(base) {
        let full = choose|full: Seq<usize>| is_solution(base, full);
        if grid_complete(base) {
            assert(full =~= base);
        } else {
            let cell = choose|i: int| 0 <= i < base.len() && base[i] == 0;
            lemma_solution_passes_through(base, full, cell);
            let m = (cell as usize, full[cell]);
            let moves = valid_moves_of(base);
            let j = choose|j: int| 0 <= j < moves.len() && moves[j] == m;
            assert(is_solution(with_move(base, moves[j]), full));
        }
    }
}

/// The moves that fill a grid start with the move into its first empty cell.
proof fn lemma_fill_moves_step(base: Seq<usize>, full: Seq<usize>, cell: int, n: int)
    requires
        base.len() == 81,
        full.len() == 81,
        0 <= cell < 81,
        base[cell] == 0,
        forall|i: int| 0 <= i < cell ==> base[i] != 0,
        1 <= full[cell] <= 9,
        0 <= n <= 729,
    ensures
        ({
            let m = (cell as usize, full[cell]);
            let child = with_move(base, m);
            if n <= rank_of(m) {
                moves_where(fills(base, full), n) == Seq::<Move>::empty() && moves_where(
                    fills(child, full),
                    n,
                ) == Seq::<Move>::empty()
            } else {
                moves_where(fills(base, full), n) == seq![m] + moves_where(fills(child, full), n)
            }
        }),
    decreases n,
{
    let m = (cell as usize, full[cell]);
    let child = with_move(base, m);
    if n > 0 {
        lemma_fill_moves_step(base, full, cell, n - 1);
        lemma_move_at_rank(n - 1);
        let here = move_at(n - 1);
        let before = moves_where(fills(base, full), n - 1);
        let before_child = moves_where(fills(child, full), n - 1);
        if n - 1 < rank_of(m) {
            assert(!fills(base, full)(here));
            assert(!fills(child, full)(here));
        } else if n - 1 == rank_of(m) {
            assert(here == m);
            assert(fills(base, full)(here));
            assert(!fills(child, full)(here));
            assert(before.push(m) =~= seq![m] + before_child);
        } else {
            assert(fills(base, full)(here) == fills(child, full)(here));
            if fills(base, full)(here) {
                assert(before.push(here) =~= seq![m] + before_child.push(here));
            }
        }
    }
}

/// When the valid moves are tried in order and a move is the first that
/// leads to a solvable grid, then the first solution of that grid is the
/// first solution of the grid before the move, the move went into the first
/// empty cell, and it heads the moves that fill the grid.
pub proof fn lemma_first_solvable_move(base: Seq<usize>, k: int, full: Seq<usize>)
    requires
        base.len() == 81,
        0 <= k < valid_moves_of(base).len(),
        forall|j: int|
            0 <= j < k ==> !solvable(with_move(base, #[trigger] valid_moves_of(base)[j])),
        is_first_solution(with_move(base, valid_moves_of(base)[k]), full),
    ensures
        is_first_solution(base, full),
        fill_moves(base, full) == seq![valid_moves_of(base)[k]] + fill_moves(
            with_move(base, valid_moves_of(base)[k]),
            full,
        ),
{
    let moves = valid_moves_of(base);
    let m = moves[k];
    let cell = m.0 as int;
    let child = with_move(base, m);
    lemma_moves_where(locally_valid(base), 729);
    assert(is_move(m) && locally_valid(base)(m));
    assert(full[cell] == m.1);
    assert(is_solution(base, full));

    // The move went into the first empty cell.
    assert forall|c: int| 0 <= c < cell implies base[c] != 0 by {
        if base[c] == 0 {
            lemma_solution_passes_through(base, full, c);
            let earlier = (c as usize, full[c]);
            let j = choose|j: int| 0 <= j < moves.len() && moves[j] == earlier;
            assert(rank_of(earlier) < rank_of(m));
            if j > k {
                assert(rank_of(moves[k]) < rank_of(moves[j]));
            }
            assert(j < k);
            assert(is_solution(with_move(base, moves[j]), full));
        }
    }

    // No other solution comes before it.
    assert forall|other: Seq<usize>| #[trigger] is_solution(base, other) implies other == full
        || lex_before(full, other) by {
        lemma_solution_passes_through(base, other, cell);
        let rival = (cell as usize, other[cell]);
        let j = choose|j: int| 0 <= j < moves.len() && moves[j] == rival;
        if other[cell] < m.1 {
            assert(rank_of(rival) < rank_of(m));
            if j > k {
                assert(rank_of(moves[k]) < rank_of(moves[j]));
            }
            assert(j < k);
            assert(is_solution(with_move(base, moves[j]), other));
        } else if other[cell] == m.1 {
            assert(is_solution(child, other));
        } else {
            assert(full[cell] < other[cell]);
            assert forall|i: int| 0 <= i < cell implies full[i] == other[i] by {
                assert(base[i] != 0);
            }
            assert(lex_before(full, other));
        }
    }
    lemma_fill_moves_step(base, full, cell, 729);
    lemma_rank_of_move(m);
}

} // verus!
