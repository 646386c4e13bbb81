//! What holds of every position that play can reach.

use vstd::prelude::*;
use crate::board::SCORE_MAX;
use crate::rules::{key_of, Cell, Position};
use crate::search::signed_score;

verus! {

proof fn lemma_xor(a: u64, b: u64, c: u64, d: u64, k: u64, u: u64, f: u64)
    by (bit_vector)
    ensures
        a ^ 0 == a,
        (a ^ b) ^ b == a,
        (a ^ b) ^ k == (a ^ k) ^ b,
        a ^ b == c ^ d ==> a ^ (b ^ k) == c ^ (d ^ k),
        a ^ b == c ^ d ==> (a ^ (u ^ f)) ^ (b ^ u) == c ^ (d ^ f),
        a ^ b == b ^ c ==> a == c,
        (((a ^ b) ^ c) ^ d) ^ k == a ^ (((b ^ k) ^ d) ^ c),
{
}

/// The key of what a cell holds; zero for an empty cell.
pub open spec fn cell_key(z: Seq<u64>, i: int, cell: Cell) -> u64 {
    if cell is Empty {
        0
    } else {
        key_of(z, i, cell.tag())
    }
}

/// Whether `next` is what a legal move of `player` makes of `pos`: a placement
/// into an empty cell, or a swap of two upright pieces.
pub open spec fn is_move(pos: Position, next: Position, player: usize, z: Seq<u64>) -> bool {
    ||| exists|c: int|
        0 <= c < 25 && pos.cells[c] is Empty && next == #[trigger] pos.placed(c, player, z)
    ||| exists|i: int, j: int|
        0 <= i < j < 25 && pos.swappable(i) && pos.swappable(j) && next == #[trigger] pos.swapped(
            i,
            j,
            player,
            z,
        )
}

/// Whether each position of `line` but the first comes from the one before it
/// by a legal move of one of the two players.
pub open spec fn is_line(line: Seq<Position>, z: Seq<u64>) -> bool {
    forall|k: int|
        0 <= k < line.len() - 1 ==> is_move(#[trigger] line[k], line[k + 1], 0, z) || is_move(
            line[k],
            line[k + 1],
            1,
            z,
        )
}

/// Changing what one cell holds changes the hash of the cells by the key that
/// goes out and the key that comes in.
pub proof fn lemma_key_sum_update(pos: Position, z: Seq<u64>, c: int, cell: Cell, n: int)
    requires
        pos.cells.len() == 25,
        0 <= c < 25,
        0 <= n <= 25,
    ensures
        ({
            let next = Position { cells: pos.cells.update(c, cell), hash: pos.hash };
            next.key_sum(z, n) == if n <= c {
                pos.key_sum(z, n)
            } else {
                (pos.key_sum(z, n) ^ cell_key(z, c, pos.cells[c])) ^ cell_key(z, c, cell)
            }
        }),
    decreases n,
{
    let next = Position { cells: pos.cells.update(c, cell), hash: pos.hash };
    if n > 0 {
        lemma_key_sum_update(pos, z, c, cell, n - 1);
        let h = pos.key_sum(z, n - 1);
        let out = cell_key(z, c, pos.cells[c]);
        let inn = cell_key(z, c, cell);
        if n - 1 == c {
            // the key of the old piece goes out of the sum, that of the new one in
            lemma_xor(h, out, 0, 0, 0, 0, 0);
        } else if n - 1 > c {
            // the key of a later cell moves past the two keys of cell `c`
            let k = cell_key(z, n - 1, pos.cells[n - 1]);
            lemma_xor(h ^ out, inn, 0, 0, k, 0, 0);
            lemma_xor(h, out, 0, 0, k, 0, 0);
        }
    }
}

/// The hash of a position depends on its cells alone.
pub proof fn lemma_key_sum_cells(a: Position, b: Position, z: Seq<u64>, n: int)
    requires
        a.cells =~= b.cells,
    ensures
        a.key_sum(z, n) == b.key_sum(z, n),
    decreases n,
{
    if n > 0 {
        lemma_key_sum_cells(a, b, z, n - 1);
    }
}

/// The empty position is valid and its hash is the hash of its cells.
pub proof fn lemma_empty_consistent(z: Seq<u64>)
    ensures
        Position::empty().valid(),
        Position::empty().consistent(z),
{
    lemma_empty_key_sum(z, 25);
}

proof fn lemma_empty_key_sum(z: Seq<u64>, n: int)
    requires
        n <= 25,
    ensures
        Position::empty().key_sum(z, n) == 0,
    decreases n,
{
    if n > 0 {
        lemma_empty_key_sum(z, n - 1);
    }
}

proof fn lemma_propagated_key_sum(pos: Position, player: usize, z: Seq<u64>, n: int)
    requires
        pos.valid(),
        player < 2,
        0 <= n <= 25,
    ensures
        pos.flip_hash(player, z, n) ^ pos.key_sum(z, n) == pos.hash ^ pos.propagated(
            player,
            z,
        ).key_sum(z, n),
    decreases n,
{
    if n > 0 {
        lemma_propagated_key_sum(pos, player, z, n - 1);
        let next = pos.propagated(player, z);
        let a = pos.flip_hash(player, z, n - 1);
        let b = pos.key_sum(z, n - 1);
        let c = pos.hash;
        let d = next.key_sum(z, n - 1);
        if pos.flips(n - 1, player) {
            let u = key_of(z, n - 1, player as int);
            let f = key_of(z, n - 1, 2 + player);
            lemma_xor(a, b, c, d, 0, u, f);
        } else if !(pos.cells[n - 1] is Empty) {
            let k = key_of(z, n - 1, pos.cells[n - 1].tag());
            lemma_xor(a, b, c, d, k, 0, 0);
        }
    }
}

/// Flipping keeps a position valid and its hash the hash of its cells, and
/// leaves every flipped piece as it is.
pub proof fn lemma_propagated(pos: Position, player: usize, z: Seq<u64>)
    requires
        pos.valid(),
        player < 2,
    ensures
        pos.propagated(player, z).valid(),
        pos.consistent(z) ==> pos.propagated(player, z).consistent(z),
        forall|i: int|
            0 <= i < 25 && (#[trigger] pos.cells[i]).is_flipped() ==> pos.propagated(
                player,
                z,
            ).cells[i] == pos.cells[i],
        forall|i: int|
            0 <= i < 25 ==> (#[trigger] pos.propagated(player, z).cells[i]).owned_by(player)
                == pos.cells[i].owned_by(player),
{
    lemma_propagated_key_sum(pos, player, z, 25);
    let next = pos.propagated(player, z);
    if pos.consistent(z) {
        lemma_xor(pos.flip_hash(player, z, 25), pos.hash, next.key_sum(z, 25), 0, 0, 0, 0);
    }
}

proof fn lemma_flip_hash_still(pos: Position, player: usize, z: Seq<u64>, n: int)
    requires
        forall|i: int| 0 <= i < n ==> !pos.flips(i, player),
    ensures
        pos.flip_hash(player, z, n) == pos.hash,
    decreases n,
{
    if n > 0 {
        lemma_flip_hash_still(pos, player, z, n - 1);
    }
}

/// Flipping is idempotent: once the pieces of a player have been looked over,
/// looking them over again changes nothing.
pub proof fn lemma_propagated_twice(pos: Position, player: usize, z: Seq<u64>)
    requires
        pos.cells.len() == 25,
    ensures
        pos.propagated(player, z).propagated(player, z) == pos.propagated(player, z),
{
    let once = pos.propagated(player, z);
    let twice = once.propagated(player, z);
    assert forall|i: int| once.owned(i, player) == pos.owned(i, player) by {}
    lemma_flip_hash_still(once, player, z, 25);
    assert(twice.cells =~= once.cells);
}

/// A position without an empty cell has no placement.
pub proof fn lemma_full_board_has_no_placement(pos: Position, player: usize, z: Seq<u64>, n: int)
    requires
        n <= 25,
        forall|i: int| 0 <= i < 25 ==> !(pos.cells[i] is Empty),
    ensures
        pos.placements(player, z, n).len() == 0,
    decreases n,
{
    if n > 0 {
        lemma_full_board_has_no_placement(pos, player, z, n - 1);
    }
}

proof fn lemma_no_swap_of(pos: Position, player: usize, z: Seq<u64>, i: int, n: int)
    requires
        n <= 25,
        forall|j: int| i < j < 25 ==> !pos.swappable(j),
    ensures
        pos.swaps_of(player, z, i, n).len() == 0,
    decreases n - i,
{
    if n > i + 1 {
        lemma_no_swap_of(pos, player, z, i, n - 1);
    }
}

/// A position with fewer than two upright pieces has no swap.
pub proof fn lemma_one_upright_has_no_swap(pos: Position, player: usize, z: Seq<u64>, m: int)
    requires
        m <= 25,
        forall|i: int, j: int| 0 <= i < j < 25 ==> !(pos.swappable(i) && pos.swappable(j)),
    ensures
        pos.swaps(player, z, m).len() == 0,
    decreases m,
{
    if m > 0 {
        lemma_one_upright_has_no_swap(pos, player, z, m - 1);
        if pos.swappable(m - 1) {
            lemma_no_swap_of(pos, player, z, m - 1, 25);
        }
    }
}

/// The hash after a swap that makes no further piece flip differs from the hash
/// before by four keys: those of the two upright pieces go out, those of the
/// two flipped pieces, each in the other's cell, come in.
pub proof fn lemma_swap_changes_four_keys(
    pos: Position,
    i: int,
    j: int,
    player: usize,
    z: Seq<u64>,
)
    requires
        pos.cells.len() == 25,
        0 <= i < j < 25,
        player < 2,
        forall|c: int|
            0 <= c < 25 ==> !pos.exchanged(i, j, z).flips(c, 0) && !pos.exchanged(i, j, z).flips(
                c,
                1,
            ),
    ensures
        pos.swapped(i, j, player, z) == pos.exchanged(i, j, z),
        pos.swapped(i, j, player, z).hash == pos.hash ^ (key_of(z, i, pos.owner(i) as int)
            ^ key_of(z, j, pos.owner(i) + 2) ^ key_of(z, j, pos.owner(j) as int) ^ key_of(
            z,
            i,
            pos.owner(j) + 2,
        )),
{
    let mid = pos.exchanged(i, j, z);
    lemma_flip_hash_still(mid, 0, z, 25);
    lemma_flip_hash_still(mid, 1, z, 25);
    assert(mid.propagated(0, z).cells =~= mid.cells);
    assert(mid.propagated(1, z).cells =~= mid.cells);
}

/// A placement into an empty cell keeps a position valid and its hash the hash
/// of its cells, and leaves every flipped piece as it is.
pub proof fn lemma_placed(pos: Position, c: int, player: usize, z: Seq<u64>)
    requires
        pos.valid(),
        player < 2,
        0 <= c < 25,
        pos.cells[c] is Empty,
    ensures
        pos.placed(c, player, z).valid(),
        pos.consistent(z) ==> pos.placed(c, player, z).consistent(z),
        forall|i: int|
            0 <= i < 25 && (#[trigger] pos.cells[i]).is_flipped() ==> pos.placed(
                c,
                player,
                z,
            ).cells[i] == pos.cells[i],
{
    let cell = Cell::Upright(player);
    let mid = Position {
        cells: pos.cells.update(c, cell),
        hash: pos.hash ^ key_of(z, c, player as int),
    };
    let same = Position { cells: pos.cells.update(c, cell), hash: pos.hash };
    lemma_key_sum_update(pos, z, c, cell, 25);
    lemma_key_sum_cells(mid, same, z, 25);
    lemma_xor(pos.key_sum(z, 25), 0, 0, 0, 0, 0, 0);
    lemma_propagated(mid, player, z);
}

/// A swap of two upright pieces keeps a position valid and its hash the hash of
/// its cells, and leaves every flipped piece as it is.
pub proof fn lemma_swapped(pos: Position, i: int, j: int, player: usize, z: Seq<u64>)
    requires
        pos.valid(),
        player < 2,
        0 <= i < j < 25,
        pos.swappable(i),
        pos.swappable(j),
    ensures
        pos.swapped(i, j, player, z).valid(),
        pos.consistent(z) ==> pos.swapped(i, j, player, z).consistent(z),
        forall|k: int|
            0 <= k < 25 && (#[trigger] pos.cells[k]).is_flipped() ==> pos.swapped(
                i,
                j,
                player,
                z,
            ).cells[k] == pos.cells[k],
{
    let a = pos.owner(i);
    let b = pos.owner(j);
    let first = Position { cells: pos.cells.update(i, Cell::Flipped(b)), hash: pos.hash };
    let second = Position { cells: first.cells.update(j, Cell::Flipped(a)), hash: pos.hash };
    let mid = pos.exchanged(i, j, z);
    lemma_key_sum_update(pos, z, i, Cell::Flipped(b), 25);
    lemma_key_sum_update(first, z, j, Cell::Flipped(a), 25);
    lemma_key_sum_cells(mid, second, z, 25);
    if pos.consistent(z) {
        lemma_xor(
            pos.hash,
            key_of(z, i, a as int),
            key_of(z, i, b + 2),
            key_of(z, j, b as int),
            key_of(z, j, a + 2),
            0,
            0,
        );
    }
    lemma_propagated(mid, player, z);
    let after = mid.propagated(player, z);
    lemma_propagated(after, (1 - player) as usize, z);
}

/// Every position in the list of successors comes from a legal move.
pub proof fn lemma_successor_is_move(pos: Position, player: usize, z: Seq<u64>, k: int)
    requires
        pos.cells.len() == 25,
        0 <= k < pos.successors(player, z).len(),
    ensures
        is_move(pos, pos.successors(player, z)[k], player, z),
{
    let placed = pos.placements(player, z, 25);
    if k < placed.len() {
        lemma_placement_is_move(pos, player, z, 25, k);
    } else {
        lemma_swap_is_move(pos, player, z, 25, k - placed.len());
    }
}

proof fn lemma_placement_is_move(pos: Position, player: usize, z: Seq<u64>, n: int, k: int)
    requires
        0 <= n <= 25,
        0 <= k < pos.placements(player, z, n).len(),
    ensures
        exists|c: int|
            0 <= c < n && pos.cells[c] is Empty && pos.placements(player, z, n)[k]
                == #[trigger] pos.placed(c, player, z),
    decreases n,
{
    if n > 0 {
        let before = pos.placements(player, z, n - 1);
        if k < before.len() {
            lemma_placement_is_move(pos, player, z, n - 1, k);
        }
    }
}

proof fn lemma_swap_of_is_move(pos: Position, player: usize, z: Seq<u64>, i: int, n: int, k: int)
    requires
        0 <= i < 25,
        n <= 25,
        0 <= k < pos.swaps_of(player, z, i, n).len(),
    ensures
        exists|j: int|
            i < j < n && pos.swappable(j) && pos.swaps_of(player, z, i, n)[k]
                == #[trigger] pos.swapped(i, j, player, z),
    decreases n - i,
{
    if n > i + 1 {
        let before = pos.swaps_of(player, z, i, n - 1);
        if k < before.len() {
            lemma_swap_of_is_move(pos, player, z, i, n - 1, k);
        }
    }
}

proof fn lemma_swap_is_move(pos: Position, player: usize, z: Seq<u64>, m: int, k: int)
    requires
        0 <= m <= 25,
        0 <= k < pos.swaps(player, z, m).len(),
    ensures
        exists|i: int, j: int|
            0 <= i < j < 25 && i < m && pos.swappable(i) && pos.swappable(j) && pos.swaps(
                player,
                z,
                m,
            )[k] == #[trigger] pos.swapped(i, j, player, z),
    decreases m,
{
    if m > 0 {
        let before = pos.swaps(player, z, m - 1);
        if k < before.len() {
            lemma_swap_is_move(pos, player, z, m - 1, k);
        } else {
            lemma_swap_of_is_move(pos, player, z, m - 1, 25, k - before.len());
        }
    }
}

proof fn lemma_placement_listed(pos: Position, player: usize, z: Seq<u64>, n: int, c: int)
    requires
        0 <= c < n <= 25,
        pos.cells[c] is Empty,
    ensures
        pos.placements(player, z, n).contains(pos.placed(c, player, z)),
    decreases n,
{
    let before = pos.placements(player, z, n - 1);
    let all = pos.placements(player, z, n);
    if c == n - 1 {
        assert(all[all.len() - 1] == pos.placed(c, player, z));
    } else {
        lemma_placement_listed(pos, player, z, n - 1, c);
        let k = choose|k: int| 0 <= k < before.len() && before[k] == pos.placed(c, player, z);
        assert(all[k] == before[k]);
    }
}

proof fn lemma_swap_of_listed(pos: Position, player: usize, z: Seq<u64>, i: int, n: int, j: int)
    requires
        0 <= i < j < n <= 25,
        pos.swappable(j),
    ensures
        pos.swaps_of(player, z, i, n).contains(pos.swapped(i, j, player, z)),
    decreases n,
{
    let before = pos.swaps_of(player, z, i, n - 1);
    let all = pos.swaps_of(player, z, i, n);
    if j == n - 1 {
        assert(all[all.len() - 1] == pos.swapped(i, j, player, z));
    } else {
        lemma_swap_of_listed(pos, player, z, i, n - 1, j);
        let k = choose|k: int| 0 <= k < before.len() && before[k] == pos.swapped(i, j, player, z);
        assert(all[k] == before[k]);
    }
}

proof fn lemma_swap_listed(pos: Position, player: usize, z: Seq<u64>, m: int, i: int, j: int)
    requires
        0 <= i < j < 25,
        i < m <= 25,
        pos.swappable(i),
        pos.swappable(j),
    ensures
        pos.swaps(player, z, m).contains(pos.swapped(i, j, player, z)),
    decreases m,
{
    let before = pos.swaps(player, z, m - 1);
    let all = pos.swaps(player, z, m);
    if i == m - 1 {
        let tail = pos.swaps_of(player, z, i, 25);
        lemma_swap_of_listed(pos, player, z, i, 25, j);
        let k = choose|k: int| 0 <= k < tail.len() && tail[k] == pos.swapped(i, j, player, z);
        assert(all[before.len() + k] == tail[k]);
    } else {
        lemma_swap_listed(pos, player, z, m - 1, i, j);
        let k = choose|k: int| 0 <= k < before.len() && before[k] == pos.swapped(i, j, player, z);
        assert(all[k] == before[k]);
    }
}

/// The list of successors holds the legal moves and nothing else.
pub proof fn lemma_successors_are_the_moves(
    pos: Position,
    next: Position,
    player: usize,
    z: Seq<u64>,
)
    requires
        pos.cells.len() == 25,
    ensures
        pos.successors(player, z).contains(next) <==> is_move(pos, next, player, z),
{
    let succ = pos.successors(player, z);
    let placed = pos.placements(player, z, 25);
    let swaps = pos.swaps(player, z, 25);
    if succ.contains(next) {
        let k = choose|k: int| 0 <= k < succ.len() && succ[k] == next;
        lemma_successor_is_move(pos, player, z, k);
    }
    if is_move(pos, next, player, z) {
        if exists|c: int|
            0 <= c < 25 && pos.cells[c] is Empty && next == #[trigger] pos.placed(c, player, z) {
            let c = choose|c: int|
                0 <= c < 25 && pos.cells[c] is Empty && next == #[trigger] pos.placed(c, player, z);
            lemma_placement_listed(pos, player, z, 25, c);
            let k = choose|k: int| 0 <= k < placed.len() && placed[k] == next;
            assert(succ[k] == next);
        } else {
            let (i, j) = choose|i: int, j: int|
                0 <= i < j < 25 && pos.swappable(i) && pos.swappable(j) && next
                    == #[trigger] pos.swapped(i, j, player, z);
            lemma_swap_listed(pos, player, z, 25, i, j);
            let k = choose|k: int| 0 <= k < swaps.len() && swaps[k] == next;
            assert(succ[placed.len() + k] == next);
        }
    }
}

/// A legal move keeps a position valid and its hash the hash of its cells, and
/// leaves every flipped piece as it is: flipped, and with the same owner.
pub proof fn lemma_move(pos: Position, next: Position, player: usize, z: Seq<u64>)
    requires
        pos.valid(),
        player < 2,
        is_move(pos, next, player, z),
    ensures
        next.valid(),
        pos.consistent(z) ==> next.consistent(z),
        forall|i: int|
            0 <= i < 25 && (#[trigger] pos.cells[i]).is_flipped() ==> next.cells[i] == pos.cells[i],
{
    if exists|c: int|
        0 <= c < 25 && pos.cells[c] is Empty && next == #[trigger] pos.placed(c, player, z) {
        let c = choose|c: int|
            0 <= c < 25 && pos.cells[c] is Empty && next == #[trigger] pos.placed(c, player, z);
        lemma_placed(pos, c, player, z);
    } else {
        let (i, j) = choose|i: int, j: int|
            0 <= i < j < 25 && pos.swappable(i) && pos.swappable(j) && next
                == #[trigger] pos.swapped(i, j, player, z);
        lemma_swapped(pos, i, j, player, z);
    }
}

/// Hash consistency: along any line of play that starts from a valid position
/// whose hash is the hash of its cells, every position is valid and has the hash
/// of its cells.
pub proof fn lemma_line_consistent(line: Seq<Position>, z: Seq<u64>, k: int)
    requires
        is_line(line, z),
        0 <= k < line.len(),
        line[0].valid(),
        line[0].consistent(z),
    ensures
        line[k].valid(),
        line[k].consistent(z),
    decreases k,
{
    if k > 0 {
        lemma_line_consistent(line, z, k - 1);
        let pos = line[k - 1];
        if is_move(pos, line[k], 0, z) {
            lemma_move(pos, line[k], 0, z);
        } else {
            lemma_move(pos, line[k], 1, z);
        }
    }
}

/// Every position that play reaches from the empty board is valid and has the
/// hash of its cells.
pub proof fn lemma_play_is_consistent(line: Seq<Position>, z: Seq<u64>, k: int)
    requires
        is_line(line, z),
        0 <= k < line.len(),
        line[0] == Position::empty(),
    ensures
        line[k].valid(),
        line[k].consistent(z),
{
    lemma_empty_consistent(z);
    lemma_line_consistent(line, z, k);
}

/// Flips are for good: a piece that is flipped at one point of a line of play is
/// flipped, and of the same owner, at every later point.
pub proof fn lemma_flips_stay(line: Seq<Position>, z: Seq<u64>, k: int, m: int, i: int)
    requires
        is_line(line, z),
        0 <= k <= m < line.len(),
        line[k].valid(),
        0 <= i < 25,
        line[k].cells[i].is_flipped(),
    ensures
        line[m].valid(),
        line[m].cells[i] == line[k].cells[i],
    decreases m - k,
{
    if k < m {
        lemma_flips_stay(line, z, k, m - 1, i);
        let pos = line[m - 1];
        if is_move(pos, line[m], 0, z) {
            lemma_move(pos, line[m], 0, z);
        } else {
            lemma_move(pos, line[m], 1, z);
        }
    }
}

/// The number of corners of the grid among the cells below `n`.
pub open spec fn corners_below(n: int) -> int {
    (if n > 0 { 1int } else { 0int }) + (if n > 4 { 1int } else { 0int }) + (if n > 20 {
        1int
    } else {
        0int
    }) + (if n > 24 { 1int } else { 0int })
}

proof fn lemma_crowd_bound(pos: Position, player: usize, k: nat, n: int)
    requires
        0 <= n <= 25,
    ensures
        pos.crowd(player, k, n) <= n,
        k >= 3 ==> pos.crowd(player, k, n) <= n - corners_below(n),
    decreases n,
{
    if n > 0 {
        lemma_crowd_bound(pos, player, k, n - 1);
        // a corner has two neighbours on the grid
        assert(pos.friends(0, player) <= 2);
        assert(pos.friends(4, player) <= 2);
        assert(pos.friends(20, player) <= 2);
        assert(pos.friends(24, player) <= 2);
    }
}

/// No score is above `SCORE_MAX`: at most the 21 cells that are no corner hold a
/// piece with three neighbours of its own, and at most all 25 one with two.
pub proof fn lemma_score_bound(pos: Position)
    ensures
        forall|player: usize| 0 <= #[trigger] pos.score_of(player) <= SCORE_MAX,
        -SCORE_MAX <= pos.score() <= SCORE_MAX,
        forall|player: usize| -SCORE_MAX <= #[trigger] signed_score(pos, player) <= SCORE_MAX,
{
    assert forall|player: usize| 0 <= #[trigger] pos.score_of(player) <= SCORE_MAX by {
        lemma_crowd_bound(pos, player, 3, 25);
        lemma_crowd_bound(pos, player, 2, 25);
    }
    assert(0 <= pos.score_of(0) <= SCORE_MAX);
    assert(0 <= pos.score_of(1) <= SCORE_MAX);
}

proof fn lemma_mirrored_crowd(pos: Position, player: usize, k: nat, n: int)
    requires
        pos.valid(),
        player < 2,
        0 <= n <= 25,
    ensures
        pos.mirrored().crowd(player, k, n) == pos.crowd((1 - player) as usize, k, n),
    decreases n,
{
    if n > 0 {
        lemma_mirrored_crowd(pos, player, k, n - 1);
    }
}

/// Score symmetry: with the two players exchanged, each has the score that the
/// other had, and the score of the position is the negation of what it was.
pub proof fn lemma_score_mirrored(pos: Position)
    requires
        pos.valid(),
    ensures
        pos.mirrored().valid(),
        pos.mirrored().score_of(0) == pos.score_of(1),
        pos.mirrored().score_of(1) == pos.score_of(0),
        pos.mirrored().score() == -pos.score(),
{
    lemma_mirrored_crowd(pos, 0, 3, 25);
    lemma_mirrored_crowd(pos, 0, 2, 25);
    lemma_mirrored_crowd(pos, 1, 3, 25);
    lemma_mirrored_crowd(pos, 1, 2, 25);
}

} // verus!
