//! The grid as text: one line per row, cells between bars, an empty cell as
//! a blank.

use vstd::prelude::*;

verus! {

/// The character of a decimal digit.
pub open spec fn digit_char(digit: int) -> char {
    if digit == 0 {
        '0'
    } else if digit == 1 {
        '1'
    } else if digit == 2 {
        '2'
    } else if digit == 3 {
        '3'
    } else if digit == 4 {
        '4'
    } else if digit == 5 {
        '5'
    } else if digit == 6 {
        '6'
    } else if digit == 7 {
        '7'
    } else if digit == 8 {
        '8'
    } else {
        '9'
    }
}

/// A number in decimal, without leading zeros.
pub open spec fn decimal(n: nat) -> Seq<char>
    decreases n,
{
    if n < 10 {
        seq![digit_char(n as int)]
    } else {
        decimal(n / 10).push(digit_char((n % 10) as int))
    }
}

/// What stands for a cell: a blank if it is empty, else its value.
pub open spec fn cell_text(value: usize) -> Seq<char> {
    if value == 0 {
        seq![' ']
    } else {
        decimal(value as nat)
    }
}

/// The first `count` cells, each between blanks and closed by a bar.
pub open spec fn cells_text(cells: Seq<usize>, count: int) -> Seq<char>
    decreases count,
{
    if count <= 0 {
        Seq::empty()
    } else {
        cells_text(cells, count - 1) + seq![' '] + cell_text(cells[count - 1]) + seq![' ', '|']
    }
}

/// The first `rows` rows of nine cells, each opened by a bar and closed by a
/// line feed.
pub open spec fn rows_text(cells: Seq<usize>, rows: int) -> Seq<char>
    decreases rows,
{
    if rows <= 0 {
        Seq::empty()
    } else {
        rows_text(cells, rows - 1) + seq!['|'] + cells_text(cells.skip((rows - 1) * 9), 9)
            + seq!['\n']
    }
}

/// The whole grid as text.
pub open spec fn grid_text(cells: Seq<usize>) -> Seq<char> {
    rows_text(cells, 9)
}

/// Appends one character with `String::push`: the text afterwards is the
/// text before, followed by that character.
#[verifier::external_body]
fn push_char(text: &mut String, c: char)
    ensures
        final(text)@ == old(text)@.push(c),
{
    text.push(c)
}

fn digit_to_char(digit: usize) -> (c: char)
    requires
        digit < 10,
    ensures
        c == digit_char(digit as int),
{
    match digit {
        0 => '0',
        1 => '1',
        2 => '2',
        3 => '3',
        4 => '4',
        5 => '5',
        6 => '6',
        7 => '7',
        8 => '8',
        _ => '9',
    }
}

/// Appends a number in decimal.
pub fn push_decimal(text: &mut String, n: usize)
    ensures
        final(text)@ == old(text)@ + decimal(n as nat),
    decreases n,
{
    if n >= 10 {
        push_decimal(text, n / 10);
    }
    push_char(text, digit_to_char(n % 10));
    proof {
        if n < 10 {
            assert(old(text)@.push(digit_char(n as int)) =~= old(text)@ + decimal(n as nat));
        } else {
            assert((old(text)@ + decimal((n / 10) as nat)).push(digit_char((n % 10) as int))
                =~= old(text)@ + decimal(n as nat));
        }
    }
}

/// Writes out a grid of 81 cells.
pub fn render_cells(cells: &Vec<usize>) -> (text: String)
    requires
        cells.len() == 81,
    ensures
        text@ == grid_text(cells@),
{
    let mut text = String::new();
    let mut i: usize = 0;
    while i < 9
        invariant
            i <= 9,
            cells.len() == 81,
            text@ == rows_text(cells@, i as int),
        decreases 9 - i,
    {
        let ghost before = text@;
        let ghost row = cells@.skip(i * 9);
        push_char(&mut text, '|');
        let mut j: usize = 0;
        while j < 9
            invariant
                i < 9,
                j <= 9,
                cells.len() == 81,
                row == cells@.skip(i * 9),
                text@ == before + seq!['|'] + cells_text(row, j as int),
            decreases 9 - j,
        {
            let ghost so_far = text@;
            let value = cells[i * 9 + j];
            assert(row[j as int] == value);
            push_char(&mut text, ' ');
            if value != 0 {
                push_decimal(&mut text, value);
            } else {
                push_char(&mut text, ' ');
            }
            push_char(&mut text, ' ');
            push_char(&mut text, '|');
            assert(text@ =~= so_far + seq![' '] + cell_text(value) + seq![' ', '|']);
            assert(text@ =~= before + seq!['|'] + cells_text(row, j as int + 1));
            j += 1;
        }
        push_char(&mut text, '\n');
        assert(text@ =~= rows_text(cells@, i as int + 1));
        i += 1;
    }
    text
}

} // verus!
