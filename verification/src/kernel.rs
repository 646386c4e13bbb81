//! The neighbour kernel: which cells of a mask have two, or three, neighbours in
//! the same mask.

use vstd::prelude::*;
use crate::bits::{bit, bit32, FULL};

verus! {

/// Whether cell `i` is on the grid.
pub open spec fn on_grid(i: int) -> bool {
    0 <= i < 25
}

/// The number of orthogonal neighbours of cell `i` that are in `board`, counted
/// cell by cell. A cell in the first column has no left neighbour, one in the last
/// column no right neighbour; rows above and below the grid hold nothing.
pub open spec fn neighbor_count(board: u32, i: int) -> nat {
    let left: nat = if i % 5 != 0 && bit(board, i - 1) { 1 } else { 0 };
    let right: nat = if i % 5 != 4 && bit(board, i + 1) { 1 } else { 0 };
    let up: nat = if i >= 5 && bit(board, i - 5) { 1 } else { 0 };
    let down: nat = if i < 20 && bit(board, i + 5) { 1 } else { 0 };
    left + right + up + down
}

/// Whether cell `i` is in `board` and has at least `k` neighbours there.
pub open spec fn crowded(board: u32, i: int, k: nat) -> bool {
    on_grid(i) && bit(board, i) && neighbor_count(board, i) >= k
}

spec fn pair_right(board: u32) -> u32 {
    (board >> 1) & 0b01111_01111_01111_01111_01111 & board
}

spec fn pair_left(board: u32) -> u32 {
    (board << 1) & 0b11110_11110_11110_11110_11110 & board
}

spec fn pair_down(board: u32) -> u32 {
    (board >> 5) & board
}

spec fn pair_up(board: u32) -> u32 {
    (board << 5) & board
}

proof fn lemma_pairs(board: u32, i: u32)
    by (bit_vector)
    requires
        board <= FULL,
        i < 25,
    ensures
        bit32(pair_right(board), i) == (bit32(board, i) && i % 5 != 4 && bit32(
            board,
            (i + 1) as u32,
        )),
        bit32(pair_left(board), i) == (bit32(board, i) && i % 5 != 0 && bit32(
            board,
            (i - 1) as u32,
        )),
        bit32(pair_down(board), i) == (bit32(board, i) && i < 20 && bit32(board, (i + 5) as u32)),
        bit32(pair_up(board), i) == (bit32(board, i) && i >= 5 && bit32(board, (i - 5) as u32)),
{
}

proof fn lemma_combine(a: u32, b: u32, c: u32, d: u32, i: u32)
    by (bit_vector)
    requires
        i < 32,
    ensures
        bit32((a & b) | (c & d) | ((a | b) & (c | d)), i) == ((bit32(a, i) && bit32(b, i)) || (
        bit32(c, i) && bit32(d, i)) || ((bit32(a, i) || bit32(b, i)) && (bit32(c, i) || bit32(
            d,
            i,
        )))),
        bit32(((a & b) & (c | d)) | ((a | b) & (c & d)), i) == ((bit32(a, i) && bit32(b, i) && (
        bit32(c, i) || bit32(d, i))) || ((bit32(a, i) || bit32(b, i)) && bit32(c, i) && bit32(
            d,
            i,
        ))),
{
}

proof fn lemma_within(board: u32)
    by (bit_vector)
    requires
        board <= FULL,
    ensures
        ({
            let a = pair_right(board);
            let b = pair_left(board);
            let c = pair_down(board);
            let d = pair_up(board);
            &&& (a & b) | (c & d) | ((a | b) & (c | d)) <= FULL
            &&& ((a & b) & (c | d)) | ((a | b) & (c & d)) <= FULL
        }),
{
}

/// The masks of the cells of `board` that have at least three, and at least two,
/// neighbours in `board`, in this order.
///
/// Computed with shifts and boolean combinations of the whole mask; the result
/// is, bit for bit, what counting the neighbours of each cell gives.
pub fn count_neighbors(board: u32) -> (r: (u32, u32))
    requires
        board <= FULL,
    ensures
        r.0 <= FULL,
        r.1 <= FULL,
        forall|i: int| #![trigger bit(r.0, i)] on_grid(i) ==> bit(r.0, i) == crowded(board, i, 3),
        forall|i: int| #![trigger bit(r.1, i)] on_grid(i) ==> bit(r.1, i) == crowded(board, i, 2),
{
    let a: u32 = (board >> 1) & 0b01111_01111_01111_01111_01111 & board;
    let b: u32 = (board << 1) & 0b11110_11110_11110_11110_11110 & board;
    let c: u32 = (board >> 5) & board;
    let d: u32 = (board << 5) & board;
    let has_2_neighs: u32 = (a & b) | (c & d) | ((a | b) & (c | d));
    let has_3_neighs: u32 = ((a & b) & (c | d)) | ((a | b) & (c & d));
    proof {
        lemma_within(board);
        assert forall|i: int| on_grid(i) implies bit(has_3_neighs, i) == crowded(board, i, 3)
            && bit(has_2_neighs, i) == crowded(board, i, 2) by {
            lemma_pairs(board, i as u32);
            lemma_combine(a, b, c, d, i as u32);
        }
    }
    (has_3_neighs, has_2_neighs)
}

} // verus!
