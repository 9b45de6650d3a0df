//! The placement rules of the 9x9 grid: rows, columns and 3x3 blocks in which
//! no digit may occur twice.
//!
//! A grid is a sequence of 81 cells in row-major order; `0` marks an empty cell.

use vstd::prelude::*;
use vstd::set_lib::{lemma_int_range, lemma_len_subset, set_int_range};

verus! {

/// One of the three kinds of unit that constrain a grid.
#[derive(Clone, Copy, Debug)]
pub enum Family {
    Row,
    Column,
    Block,
}

/// Index of the cell in position `slot` (0 to 8) of unit number `unit` (0 to 8)
/// of the given family. Blocks are numbered row-major, and so are the cells
/// inside a block.
pub open spec fn unit_cell(family: Family, unit: int, slot: int) -> int {
    match family {
        Family::Row => unit * 9 + slot,
        Family::Column => slot * 9 + unit,
        Family::Block => (unit / 3) * 27 + (unit % 3) * 3 + (slot / 3) * 9 + slot % 3,
    }
}

/// The cell at `a` is empty, or the cell at `b` holds another value.
pub open spec fn no_clash(cells: Seq<usize>, a: int, b: int) -> bool {
    cells[a] == 0 || cells[a] != cells[b]
}

/// No unit of the family holds the same non-zero value in two of its cells.
pub open spec fn family_valid(cells: Seq<usize>, family: Family) -> bool {
    forall|unit: int, j: int, k: int|
        0 <= unit < 9 && 0 <= j < k < 9 ==> #[trigger] no_clash(
            cells,
            unit_cell(family, unit, j),
            unit_cell(family, unit, k),
        )
}

/// Every row, every column and every block is free of repeated digits.
/// Empty cells never clash.
pub open spec fn grid_valid(cells: Seq<usize>) -> bool {
    &&& family_valid(cells, Family::Row)
    &&& family_valid(cells, Family::Column)
    &&& family_valid(cells, Family::Block)
}

/// Row of a cell.
pub open spec fn row_of(cell: int) -> int {
    cell / 9
}

/// Column of a cell.
pub open spec fn column_of(cell: int) -> int {
    cell % 9
}

/// Block of a cell; the blocks are numbered row-major.
pub open spec fn block_of(cell: int) -> int {
    (cell / 27) * 3 + (cell % 9) / 3
}

/// The two cells lie in one row, one column or one block.
pub open spec fn share_unit(a: int, b: int) -> bool {
    row_of(a) == row_of(b) || column_of(a) == column_of(b) || block_of(a) == block_of(b)
}

/// The grid of 81 empty cells.
pub open spec fn empty_grid() -> Seq<usize> {
    Seq::new(81, |i: int| 0usize)
}

/// No cell is empty.
pub open spec fn grid_complete(cells: Seq<usize>) -> bool {
    forall|i: int| 0 <= i < cells.len() ==> cells[i] != 0
}

/// Number of empty cells.
pub open spec fn empty_count(cells: Seq<usize>) -> nat
    decreases cells.len(),
{
    if cells.len() == 0 {
        0
    } else {
        empty_count(cells.drop_last()) + if cells.last() == 0 {
            1nat
        } else {
            0nat
        }
    }
}

/// `sub` is `full` with some cells cleared.
pub open spec fn cleared_from(sub: Seq<usize>, full: Seq<usize>) -> bool {
    &&& sub.len() == full.len()
    &&& forall|i: int| 0 <= i < sub.len() ==> sub[i] == 0 || sub[i] == full[i]
}

/// Every unit cell lies on the grid, in the row, column or block that its
/// unit number names.
pub proof fn lemma_unit_cell_position(family: Family, unit: int, slot: int)
    requires
        0 <= unit < 9,
        0 <= slot < 9,
    ensures
        0 <= unit_cell(family, unit, slot) < 81,
        family is Row ==> unit_cell(family, unit, slot) / 9 == unit && unit_cell(
            family,
            unit,
            slot,
        ) % 9 == slot,
        family is Column ==> unit_cell(family, unit, slot) / 9 == slot && unit_cell(
            family,
            unit,
            slot,
        ) % 9 == unit,
        family is Block ==> unit_cell(family, unit, slot) / 9 == (unit / 3) * 3 + slot / 3
            && unit_cell(family, unit, slot) % 9 == (unit % 3) * 3 + slot % 3,
{
}

/// Every cell is a unit cell of its row, of its column and of its block.
pub proof fn lemma_cell_in_its_units(cell: int)
    requires
        0 <= cell < 81,
    ensures
        unit_cell(Family::Row, row_of(cell), column_of(cell)) == cell,
        unit_cell(Family::Column, column_of(cell), row_of(cell)) == cell,
        unit_cell(Family::Block, block_of(cell), (row_of(cell) % 3) * 3 + column_of(cell) % 3)
            == cell,
        0 <= row_of(cell) < 9,
        0 <= column_of(cell) < 9,
        0 <= block_of(cell) < 9,
{
}

/// A grid is valid exactly when no two cells of one row, one column or one
/// block hold the same digit.
pub proof fn lemma_valid_cell_by_cell(cells: Seq<usize>)
    requires
        cells.len() == 81,
    ensures
        grid_valid(cells) <==> forall|a: int, b: int|
            0 <= a < 81 && 0 <= b < 81 && a != b && #[trigger] share_unit(a, b) && cells[a] != 0
                ==> cells[a] != cells[b],
{
    let cell_by_cell = forall|a: int, b: int|
        0 <= a < 81 && 0 <= b < 81 && a != b && #[trigger] share_unit(a, b) && cells[a] != 0
            ==> cells[a] != cells[b];
    if grid_valid(cells) {
        assert forall|a: int, b: int|
            0 <= a < 81 && 0 <= b < 81 && a != b && #[trigger] share_unit(a, b) && cells[a]
                != 0 implies cells[a] != cells[b] by {
            lemma_cell_in_its_units(a);
            lemma_cell_in_its_units(b);
            if row_of(a) == row_of(b) {
                lemma_no_clash_in_unit(cells, Family::Row, row_of(a), column_of(a), column_of(b));
            } else if column_of(a) == column_of(b) {
                lemma_no_clash_in_unit(cells, Family::Column, column_of(a), row_of(a), row_of(b));
            } else {
                lemma_no_clash_in_unit(
                    cells,
                    Family::Block,
                    block_of(a),
                    (row_of(a) % 3) * 3 + column_of(a) % 3,
                    (row_of(b) % 3) * 3 + column_of(b) % 3,
                );
            }
        }
    }
    if cell_by_cell {
        lemma_family_from_cells(cells, Family::Row);
        lemma_family_from_cells(cells, Family::Column);
        lemma_family_from_cells(cells, Family::Block);
    }
}

proof fn lemma_no_clash_in_unit(cells: Seq<usize>, family: Family, unit: int, j: int, k: int)
    requires
        family_valid(cells, family),
        0 <= unit < 9,
        0 <= j < 9,
        0 <= k < 9,
        j != k,
        cells[unit_cell(family, unit, j)] != 0,
    ensures
        cells[unit_cell(family, unit, j)] != cells[unit_cell(family, unit, k)],
{
    if j < k {
        assert(no_clash(cells, unit_cell(family, unit, j), unit_cell(family, unit, k)));
    } else {
        assert(no_clash(cells, unit_cell(family, unit, k), unit_cell(family, unit, j)));
    }
}

proof fn lemma_family_from_cells(cells: Seq<usize>, family: Family)
    requires
        cells.len() == 81,
        forall|a: int, b: int|
            0 <= a < 81 && 0 <= b < 81 && a != b && #[trigger] share_unit(a, b) && cells[a] != 0
                ==> cells[a] != cells[b],
    ensures
        family_valid(cells, family),
{
    assert forall|unit: int, j: int, k: int|
        0 <= unit < 9 && 0 <= j < k < 9 implies #[trigger] no_clash(
        cells,
        unit_cell(family, unit, j),
        unit_cell(family, unit, k),
    ) by {
        lemma_unit_cells_share_the_unit(family, unit, j, k);
    }
}

/// Two different slots of a unit are two different cells of one row, column
/// or block.
proof fn lemma_unit_cells_share_the_unit(family: Family, unit: int, j: int, k: int)
    requires
        0 <= unit < 9,
        0 <= j < k < 9,
    ensures
        0 <= unit_cell(family, unit, j) < 81,
        0 <= unit_cell(family, unit, k) < 81,
        unit_cell(family, unit, j) != unit_cell(family, unit, k),
        share_unit(unit_cell(family, unit, j), unit_cell(family, unit, k)),
{
    let a = unit_cell(family, unit, j);
    let b = unit_cell(family, unit, k);
    lemma_unit_cell_position(family, unit, j);
    lemma_unit_cell_position(family, unit, k);
    match family {
        Family::Row => {
            assert(row_of(a) == row_of(b));
        },
        Family::Column => {
            assert(column_of(a) == column_of(b));
        },
        Family::Block => {
            assert(a / 9 == (unit / 3) * 3 + j / 3);
            assert(b / 9 == (unit / 3) * 3 + k / 3);
            assert(a / 27 == unit / 3);
            assert(b / 27 == unit / 3);
            assert((a % 9) / 3 == unit % 3);
            assert((b % 9) / 3 == unit % 3);
            assert(block_of(a) == block_of(b));
            if j / 3 == k / 3 {
                assert(j % 3 != k % 3);
            }
        },
    }
}

/// Clearing cells of a valid grid leaves it valid.
pub proof fn lemma_cleared_grid_stays_valid(sub: Seq<usize>, full: Seq<usize>)
    requires
        full.len() == 81,
        cleared_from(sub, full),
        grid_valid(full),
    ensures
        grid_valid(sub),
{
    lemma_cleared_family_stays_valid(sub, full, Family::Row);
    lemma_cleared_family_stays_valid(sub, full, Family::Column);
    lemma_cleared_family_stays_valid(sub, full, Family::Block);
}

proof fn lemma_cleared_family_stays_valid(sub: Seq<usize>, full: Seq<usize>, family: Family)
    requires
        full.len() == 81,
        cleared_from(sub, full),
        family_valid(full, family),
    ensures
        family_valid(sub, family),
{
    assert forall|unit: int, j: int, k: int|
        0 <= unit < 9 && 0 <= j < k < 9 implies #[trigger] no_clash(
        sub,
        unit_cell(family, unit, j),
        unit_cell(family, unit, k),
    ) by {
        lemma_unit_cell_position(family, unit, j);
        lemma_unit_cell_position(family, unit, k);
        assert(no_clash(full, unit_cell(family, unit, j), unit_cell(family, unit, k)));
    }
}

/// Every cell holds a digit from 1 to 9.
pub open spec fn all_digits_set(cells: Seq<usize>) -> bool {
    forall|i: int| 0 <= i < cells.len() ==> 1 <= #[trigger] cells[i] <= 9
}

/// In a valid grid that holds a digit in every cell, each row, column and
/// block holds each digit: nine different digits fill nine cells. It holds
/// it once, as the grid is valid.
pub proof fn lemma_unit_holds_every_digit(cells: Seq<usize>, family: Family, unit: int, digit: int)
    requires
        cells.len() == 81,
        all_digits_set(cells),
        family_valid(cells, family),
        0 <= unit < 9,
        1 <= digit <= 9,
    ensures
        exists|slot: int| 0 <= slot < 9 && #[trigger] cells[unit_cell(family, unit, slot)] == digit,
        forall|j: int, k: int|
            0 <= j < 9 && 0 <= k < 9 && cells[#[trigger] unit_cell(family, unit, j)] == digit
                && cells[#[trigger] unit_cell(family, unit, k)] == digit ==> j == k,
{
    let held = Seq::new(9, |slot: int| cells[unit_cell(family, unit, slot)] as int);
    assert forall|j: int, k: int| 0 <= j < 9 && 0 <= k < 9 && j != k implies held[j]
        != held[k] by {
        lemma_unit_cell_position(family, unit, j);
        lemma_unit_cell_position(family, unit, k);
        if j < k {
            assert(no_clash(cells, unit_cell(family, unit, j), unit_cell(family, unit, k)));
        } else {
            assert(no_clash(cells, unit_cell(family, unit, k), unit_cell(family, unit, j)));
        }
    }
    held.unique_seq_to_set();
    if !held.contains(digit) {
        let others = set_int_range(1, 10).remove(digit);
        lemma_int_range(1, 10);
        assert forall|value: int| held.to_set().contains(value) implies others.contains(value) by {
            let slot = choose|slot: int| 0 <= slot < 9 && held[slot] == value;
            lemma_unit_cell_position(family, unit, slot);
        }
        lemma_len_subset(held.to_set(), others);
    }
    let slot = choose|slot: int| 0 <= slot < 9 && held[slot] == digit;
    assert(cells[unit_cell(family, unit, slot)] == digit);
    assert forall|j: int, k: int|
        0 <= j < 9 && 0 <= k < 9 && cells[#[trigger] unit_cell(family, unit, j)] == digit
            && cells[#[trigger] unit_cell(family, unit, k)] == digit implies j == k by {
        if j != k {
            assert(held[j] != held[k]);
        }
    }
}

/// A grid of `n` cells has at most `n` empty ones, and none exactly when it is
/// complete.
pub proof fn lemma_empty_count_bounds(cells: Seq<usize>)
    ensures
        empty_count(cells) <= cells.len(),
        empty_count(cells) == 0 <==> grid_complete(cells),
    decreases cells.len(),
{
    if cells.len() > 0 {
        let front = cells.drop_last();
        lemma_empty_count_bounds(front);
        if grid_complete(cells) {
            assert forall|i: int| 0 <= i < front.len() implies front[i] != 0 by {
                assert(front[i] == cells[i]);
            }
        }
        if empty_count(cells) == 0 {
            assert forall|i: int| 0 <= i < cells.len() implies cells[i] != 0 by {
                if i < front.len() {
                    assert(front[i] == cells[i]);
                }
            }
        }
    }
}

/// Filling an empty cell removes one from the count of empty cells; clearing
/// a filled cell adds one.
pub proof fn lemma_empty_count_update(cells: Seq<usize>, index: int, value: usize)
    requires
        0 <= index < cells.len(),
    ensures
        empty_count(cells.update(index, value)) + (if value == 0 {
            0int
        } else {
            1int
        }) == empty_count(cells) + (if cells[index] == 0 {
            0int
        } else {
            1int
        }),
    decreases cells.len(),
{
    let after = cells.update(index, value);
    if index == cells.len() - 1 {
        assert(after.drop_last() =~= cells.drop_last());
    } else {
        assert(after.drop_last() =~= cells.drop_last().update(index, value));
        lemma_empty_count_update(cells.drop_last(), index, value);
    }
}

/// Index of a unit cell, computed.
fn cell_index(family: Family, unit: usize, slot: usize) -> (index: usize)
    requires
        unit < 9,
        slot < 9,
    ensures
        index == unit_cell(family, unit as int, slot as int),
        index < 81,
{
    match family {
        Family::Row => unit * 9 + slot,
        Family::Column => slot * 9 + unit,
        Family::Block => (unit / 3) * 27 + (unit % 3) * 3 + (slot / 3) * 9 + slot % 3,
    }
}

/// Checks the units of one family for repeated digits.
pub fn family_is_valid(cells: &Vec<usize>, family: Family) -> (ok: bool)
    requires
        cells.len() == 81,
    ensures
        ok == family_valid(cells@, family),
{
    let mut unit: usize = 0;
    while unit < 9
        invariant
            unit <= 9,
            cells.len() == 81,
            forall|u: int, j: int, k: int|
                0 <= u < unit && 0 <= j < k < 9 ==> #[trigger] no_clash(
                    cells@,
                    unit_cell(family, u, j),
                    unit_cell(family, u, k),
                ),
        decreases 9 - unit,
    {
        let mut first: usize = 0;
        while first < 9
            invariant
                unit < 9,
                first <= 9,
                cells.len() == 81,
                forall|j: int, k: int|
                    0 <= j < first && j < k < 9 ==> #[trigger] no_clash(
                        cells@,
                        unit_cell(family, unit as int, j),
                        unit_cell(family, unit as int, k),
                    ),
            decreases 9 - first,
        {
            let digit = cells[cell_index(family, unit, first)];
            if digit != 0 {
                let mut second: usize = first + 1;
                while second < 9
                    invariant
                        unit < 9,
                        first < second <= 9,
                        cells.len() == 81,
                        digit != 0,
                        digit == cells@[unit_cell(family, unit as int, first as int)],
                        forall|k: int|
                            first < k < second ==> #[trigger] no_clash(
                                cells@,
                                unit_cell(family, unit as int, first as int),
                                unit_cell(family, unit as int, k),
                            ),
                    decreases 9 - second,
                {
                    if cells[cell_index(family, unit, second)] == digit {
                        assert(!no_clash(
                            cells@,
                            unit_cell(family, unit as int, first as int),
                            unit_cell(family, unit as int, second as int),
                        ));
                        return false;
                    }
                    second += 1;
                }
            }
            first += 1;
        }
        unit += 1;
    }
    true
}

/// Checks rows, columns and blocks, each family on its own.
pub fn cells_valid(cells: &Vec<usize>) -> (ok: bool)
    requires
        cells.len() == 81,
    ensures
        ok == grid_valid(cells@),
{
    family_is_valid(cells, Family::Row) && family_is_valid(cells, Family::Column)
        && family_is_valid(cells, Family::Block)
}

/// Counts the empty cells.
pub fn count_empty(cells: &Vec<usize>) -> (count: usize)
    ensures
        count == empty_count(cells@),
{
    let mut count: usize = 0;
    let mut i: usize = 0;
    while i < cells.len()
        invariant
            i <= cells.len(),
            count == empty_count(cells@.take(i as int)),
            count <= i,
        decreases cells.len() - i,
    {
        proof {
            assert(cells@.take(i as int + 1).drop_last() =~= cells@.take(i as int));
        }
        if cells[i] == 0 {
            count += 1;
        }
        i += 1;
    }
    proof {
        assert(cells@.take(cells.len() as int) =~= cells@);
    }
    count
}

} // verus!
