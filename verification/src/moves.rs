//! Moves and their enumeration in row-major cell order, digits ascending.

use vstd::prelude::*;
use crate::rules::grid_valid;

verus! {

/// A move: the index of a cell and the digit to write there.
pub type Move = (usize, usize);

/// The cell lies on the grid and the digit is one of 1 to 9.
pub open spec fn is_move(m: Move) -> bool {
    m.0 < 81 && 1 <= m.1 <= 9
}

/// Rank of a move in the enumeration order: cells ascending, and for one
/// cell digits ascending.
pub open spec fn rank_of(m: Move) -> int {
    m.0 * 9 + m.1 - 1
}

/// The move of the given rank.
pub open spec fn move_at(rank: int) -> Move {
    ((rank / 9) as usize, (rank % 9 + 1) as usize)
}

/// The cells after the digit of the move was written into its cell.
pub open spec fn with_move(cells: Seq<usize>, m: Move) -> Seq<usize> {
    cells.update(m.0 as int, m.1)
}

/// The moves of rank below `n` that satisfy `keep`, in ascending rank.
pub open spec fn moves_where(keep: spec_fn(Move) -> bool, n: int) -> Seq<Move>
    decreases n,
{
    if n <= 0 {
        Seq::empty()
    } else {
        let earlier = moves_where(keep, n - 1);
        if keep(move_at(n - 1)) {
            earlier.push(move_at(n - 1))
        } else {
            earlier
        }
    }
}

/// The move writes to a cell that is empty.
pub open spec fn targets_empty(cells: Seq<usize>) -> spec_fn(Move) -> bool {
    |m: Move| cells[m.0 as int] == 0
}

/// The grid is valid once the move has been written into it.
pub open spec fn stays_valid(cells: Seq<usize>) -> spec_fn(Move) -> bool {
    |m: Move| grid_valid(with_move(cells, m))
}

/// The move writes to an empty cell and leaves the grid valid.
pub open spec fn locally_valid(cells: Seq<usize>) -> spec_fn(Move) -> bool {
    |m: Move| cells[m.0 as int] == 0 && grid_valid(with_move(cells, m))
}

/// Every digit for every empty cell, whether or not it fits the rules.
pub open spec fn candidate_moves(cells: Seq<usize>) -> Seq<Move> {
    moves_where(targets_empty(cells), 729)
}

/// The candidate moves that leave the grid valid.
pub open spec fn valid_moves_of(cells: Seq<usize>) -> Seq<Move> {
    moves_where(locally_valid(cells), 729)
}

/// The digits that may be tried in an empty cell.
pub open spec fn digits() -> Seq<usize> {
    Seq::new(9, |k: int| (k + 1) as usize)
}

/// Ranks and moves correspond one to one.
pub proof fn lemma_move_at_rank(rank: int)
    requires
        0 <= rank < 729,
    ensures
        is_move(move_at(rank)),
        rank_of(move_at(rank)) == rank,
{
}

/// A move is the move of its rank, and its rank is below 729.
pub proof fn lemma_rank_of_move(m: Move)
    requires
        is_move(m),
    ensures
        0 <= rank_of(m) < 729,
        move_at(rank_of(m)) == m,
{
}

/// What an enumeration holds: exactly the moves of rank below `n` that
/// satisfy `keep`, each once, in ascending rank.
pub proof fn lemma_moves_where(keep: spec_fn(Move) -> bool, n: int)
    requires
        0 <= n <= 729,
    ensures
        moves_where(keep, n).len() <= n,
        forall|j: int|
            0 <= j < moves_where(keep, n).len() ==> {
                let m = #[trigger] moves_where(keep, n)[j];
                is_move(m) && rank_of(m) < n && keep(m)
            },
        forall|j: int, k: int|
            0 <= j < k < moves_where(keep, n).len() ==> rank_of(
                #[trigger] moves_where(keep, n)[j],
            ) < rank_of(#[trigger] moves_where(keep, n)[k]),
        forall|m: Move|
            is_move(m) && rank_of(m) < n && keep(m) ==> #[trigger] moves_where(keep, n).contains(m),
    decreases n,
{
    if n > 0 {
        let earlier = moves_where(keep, n - 1);
        let here = moves_where(keep, n);
        let last = move_at(n - 1);
        lemma_moves_where(keep, n - 1);
        lemma_move_at_rank(n - 1);
        assert forall|m: Move| is_move(m) && rank_of(m) < n && keep(m) implies here.contains(
            m,
        ) by {
            lemma_rank_of_move(m);
            if rank_of(m) == n - 1 {
                assert(m == last);
                assert(here[here.len() - 1] == m);
            } else {
                assert(earlier.contains(m));
                let j = choose|j: int| 0 <= j < earlier.len() && earlier[j] == m;
                assert(here[j] == m);
            }
        }
    }
}

/// Keeping, among the moves that satisfy `first`, those that satisfy
/// `second` gives the moves that satisfy both.
pub proof fn lemma_filter_moves_where(
    first: spec_fn(Move) -> bool,
    second: spec_fn(Move) -> bool,
    both: spec_fn(Move) -> bool,
    n: int,
)
    requires
        forall|m: Move| #[trigger] both(m) == (first(m) && second(m)),
    ensures
        moves_where(first, n).filter(second) == moves_where(both, n),
    decreases n,
{
    reveal(Seq::filter);
    if n > 0 {
        lemma_filter_moves_where(first, second, both, n - 1);
        let earlier = moves_where(first, n - 1);
        let last = move_at(n - 1);
        if first(last) {
            assert(earlier.push(last).drop_last() =~= earlier);
        }
    }
}

/// The per-cell candidate lists agree with the cells: all nine digits for an
/// empty cell, none for a filled one.
pub open spec fn cache_matches(cells: Seq<usize>, playable: Seq<Vec<usize>>) -> bool {
    &&& cells.len() == 81
    &&& playable.len() == 81
    &&& forall|i: int|
        0 <= i < 81 ==> (#[trigger] playable[i])@ == if cells[i] == 0 {
            digits()
        } else {
            Seq::<usize>::empty()
        }
}

/// A cell for which `keep` rejects every digit contributes no move.
pub proof fn lemma_no_moves_at(keep: spec_fn(Move) -> bool, cell: int, upto: int)
    requires
        0 <= cell < 81,
        0 <= upto <= 9,
        forall|m: Move| m.0 == cell && 1 <= m.1 <= 9 ==> !#[trigger] keep(m),
    ensures
        moves_where(keep, cell * 9 + upto) == moves_where(keep, cell * 9),
    decreases upto,
{
    if upto > 0 {
        lemma_no_moves_at(keep, cell, upto - 1);
        assert(move_at(cell * 9 + upto - 1) == (cell as usize, upto as usize));
    }
}

/// The digits 1 to 9 in a fresh vector.
pub fn all_digits() -> (list: Vec<usize>)
    ensures
        list@ == digits(),
{
    let mut list: Vec<usize> = Vec::new();
    let mut digit: usize = 1;
    while digit < 10
        invariant
            1 <= digit <= 10,
            list.len() == digit - 1,
            forall|k: int| 0 <= k < list.len() ==> list[k] == k + 1,
        decreases 10 - digit,
    {
        list.push(digit);
        digit += 1;
    }
    assert(list@ =~= digits());
    list
}

/// The candidate lists of a grid that has just been set up.
pub fn initial_candidates(cells: &Vec<usize>) -> (playable: Vec<Vec<usize>>)
    requires
        cells.len() == 81,
    ensures
        cache_matches(cells@, playable@),
{
    let mut playable: Vec<Vec<usize>> = Vec::new();
    let mut i: usize = 0;
    while i < cells.len()
        invariant
            i <= cells.len(),
            cells.len() == 81,
            playable.len() == i,
            forall|k: int|
                0 <= k < i ==> (#[trigger] playable[k])@ == if cells[k] == 0 {
                    digits()
                } else {
                    Seq::<usize>::empty()
                },
        decreases cells.len() - i,
    {
        if cells[i] == 0 {
            playable.push(all_digits());
        } else {
            playable.push(Vec::new());
        }
        i += 1;
    }
    playable
}

/// Lists one move per remaining candidate digit, cell by cell.
pub(crate) fn list_candidates(
    playable: &Vec<Vec<usize>>,
    Ghost(cells): Ghost<Seq<usize>>,
) -> (moves: Vec<Move>)
    requires
        cache_matches(cells, playable@),
    ensures
        moves@ == candidate_moves(cells),
{
    let ghost keep = targets_empty(cells);
    let mut moves: Vec<Move> = Vec::new();
    let mut i: usize = 0;
    while i < playable.len()
        invariant
            i <= 81,
            keep == targets_empty(cells),
            cache_matches(cells, playable@),
            moves@ == moves_where(keep, i * 9),
        decreases playable.len() - i,
    {
        let mut j: usize = 0;
        while j < playable[i].len()
            invariant
                i < 81,
                j <= playable[i as int]@.len(),
                keep == targets_empty(cells),
                cache_matches(cells, playable@),
                moves@ == moves_where(keep, i * 9 + j),
            decreases playable[i as int]@.len() - j,
        {
            let digit = playable[i][j];
            proof {
                assert(cells[i as int] == 0);
                assert(move_at(i * 9 + j) == (i, digit));
                assert(keep(move_at(i * 9 + j)));
            }
            moves.push((i, digit));
            j += 1;
        }
        proof {
            if cells[i as int] != 0 {
                lemma_no_moves_at(keep, i as int, 9);
            }
        }
        i += 1;
    }
    moves
}

} // verus!
