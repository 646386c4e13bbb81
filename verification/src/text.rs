//! A board as text: a line of three equals signs, then the five rows of the
//! grid, one character for each cell.

use vstd::prelude::*;
use crate::board::Board;
use crate::rules::{Cell, Position};
use crate::WIDTH;

verus! {

/// The character that stands for a cell: a dot for an empty cell, `x` and `o`
/// for the upright pieces of players 0 and 1, `X` and `O` for their flipped
/// pieces.
pub open spec fn glyph(cell: Cell) -> char {
    match cell {
        Cell::Empty => '.',
        Cell::Upright(p) => if p == 0 { 'x' } else { 'o' },
        Cell::Flipped(p) => if p == 0 { 'X' } else { 'O' },
    }
}

/// The `k`-th character of the picture of a position. After the heading of four
/// characters each row takes six: five cells and the newline that ends it.
pub open spec fn picture_char(pos: Position, k: int) -> char {
    if k < 3 {
        '='
    } else if k == 3 || (k - 4) % 6 == 5 {
        '\n'
    } else {
        glyph(pos.cells[5 * ((k - 4) / 6) + (k - 4) % 6])
    }
}

/// The picture of a position: `===`, a newline, and the five rows with a newline
/// between two rows; 33 characters in all, and no newline at the end.
pub open spec fn picture(pos: Position) -> Seq<char> {
    Seq::new(33, |k: int| picture_char(pos, k))
}

/// The character that stands for a cell.
pub fn cell_glyph(cell: Cell) -> (c: char)
    ensures
        c == glyph(cell),
{
    match cell {
        Cell::Empty => '.',
        Cell::Upright(p) => if p == 0 { 'x' } else { 'o' },
        Cell::Flipped(p) => if p == 0 { 'X' } else { 'O' },
    }
}

/// `String::from_iter` on a vector of characters. Trusted: the string holds the
/// characters of the vector, in their order.
#[verifier::external_body]
fn string_of(chars: Vec<char>) -> (s: String)
    ensures
        s@ == chars@,
{
    String::from_iter(chars)
}

impl Board {
    /// The board as text.
    pub fn render(&self) -> (s: String)
        requires
            self.wf(),
        ensures
            s@ == picture(self@),
    {
        let mut out: Vec<char> = Vec::new();
        out.push('=');
        out.push('=');
        out.push('=');
        out.push('\n');
        let mut i: usize = 0;
        while i < 25
            invariant
                i <= 25,
                self.wf(),
                out@.len() == 4 + i + (if i == 0 { 0int } else { (i - 1) / 5 }),
                forall|k: int| 0 <= k < out@.len() ==> out@[k] == picture_char(self@, k),
            decreases 25 - i,
        {
            if i != 0 && i % WIDTH == 0 {
                out.push('\n');
            }
            out.push(cell_glyph(self.cell(i)));
            i += 1;
        }
        string_of(out)
    }
}

} // verus!
