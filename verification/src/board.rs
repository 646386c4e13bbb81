//! The board: a position held as three bit masks and a hash.

use vstd::prelude::*;
use crate::bits::{
    bit, has_bit, lemma_bit_ops, lemma_bit_range, lemma_bit_single, lemma_bits_equal,
    lemma_ones_below, lemma_split, lemma_within, ones_below, popcount, single, single_bit, FULL,
};
use crate::kernel::{count_neighbors, crowded, neighbor_count, on_grid};
use crate::laws::{
    lemma_empty_consistent, lemma_move, lemma_propagated, lemma_score_bound,
    lemma_successor_is_move,
};
use crate::rules::{key_of, side, Cell, Position};
use crate::zobrist::Zobrist;

verus! {

/// No player scores more than this: 1000 for each of the 21 cells that are no
/// corner, which alone can have three neighbours, and 1 for each of the 25
/// cells.
pub const SCORE_MAX: i32 = 21025;

/// One position of the game.
///
/// Three masks over the 25 cells say which cells hold a piece, which pieces
/// belong to player 1, and which pieces have flipped. The hash is kept up to
/// date by every move.
#[derive(Clone, Copy, Debug, PartialEq, Eq, Structural)]
pub struct Board {
    nonempty: u32,
    player: u32,
    flipped: u32,
    hash: u64,
}

impl View for Board {
    type V = Position;

    closed spec fn view(&self) -> Position {
        Position { cells: Seq::new(25, |i: int| self.cell_at(i)), hash: self.hash }
    }
}

/// The positions of a sequence of boards, one by one.
pub open spec fn positions(boards: Seq<Board>) -> Seq<Position> {
    Seq::new(boards.len(), |k: int| boards[k]@)
}

/// Whether every board of a sequence is well formed.
pub open spec fn all_wf(boards: Seq<Board>) -> bool {
    forall|k: int| 0 <= k < boards.len() ==> (#[trigger] boards[k]).wf()
}

/// Whether every board of a sequence has the hash of its cells.
pub open spec fn all_consistent(boards: Seq<Board>, z: Seq<u64>) -> bool {
    forall|k: int| 0 <= k < boards.len() ==> (#[trigger] boards[k])@.consistent(z)
}

impl Board {
    /// What cell `i` holds, read off the masks.
    spec fn cell_at(&self, i: int) -> Cell {
        let owner: usize = if bit(self.player, i) { 1 } else { 0 };
        if !bit(self.nonempty, i) {
            Cell::Empty
        } else if bit(self.flipped, i) {
            Cell::Flipped(owner)
        } else {
            Cell::Upright(owner)
        }
    }

    /// The masks hold nothing outside the grid, and only cells that hold a piece
    /// have an owner or are flipped.
    pub closed spec fn wf(&self) -> bool {
        &&& self.nonempty <= FULL
        &&& forall|i: int| #![trigger bit(self.player, i)] bit(self.player, i) ==> bit(self.nonempty, i)
        &&& forall|i: int|
            #![trigger bit(self.flipped, i)]
            bit(self.flipped, i) ==> bit(self.nonempty, i)
    }

    /// The mask of the pieces of `player`; any player but 0 counts as player 1.
    spec fn owner_mask(&self, player: usize) -> u32 {
        if player != 0 {
            self.nonempty & self.player
        } else {
            self.nonempty & !self.player
        }
    }

    /// The mask of the upright pieces of `player`; any player but 0 counts as
    /// player 1.
    pub closed spec fn upright_bits(&self, player: usize) -> u32 {
        if player != 0 {
            self.nonempty & self.player & !self.flipped
        } else {
            self.nonempty & !self.player & !self.flipped
        }
    }

    /// The mask of the flipped pieces of `player`; any player but 0 counts as
    /// player 1.
    pub closed spec fn flipped_bits(&self, player: usize) -> u32 {
        if player != 0 {
            self.nonempty & self.player & self.flipped
        } else {
            self.nonempty & !self.player & self.flipped
        }
    }

    /// Occupancy disjointness: the masks of the upright and of the flipped
    /// pieces of the two players have no cell in common, and together they hold
    /// at most 25 cells, all on the grid.
    pub proof fn lemma_masks_disjoint(&self)
        requires
            self.wf(),
        ensures
            self.upright_bits(0) & self.upright_bits(1) == 0,
            self.upright_bits(0) & self.flipped_bits(0) == 0,
            self.upright_bits(0) & self.flipped_bits(1) == 0,
            self.upright_bits(1) & self.flipped_bits(0) == 0,
            self.upright_bits(1) & self.flipped_bits(1) == 0,
            self.flipped_bits(0) & self.flipped_bits(1) == 0,
            (self.upright_bits(0) | self.upright_bits(1) | self.flipped_bits(0)
                | self.flipped_bits(1)) <= FULL,
            popcount(
                self.upright_bits(0) | self.upright_bits(1) | self.flipped_bits(0)
                    | self.flipped_bits(1),
            ) <= 25,
    {
        lemma_split(self.nonempty, self.player, self.flipped);
        lemma_ones_below(self.nonempty, 32);
        lemma_ones_below(self.nonempty, 25);
    }

    /// A cell is in one of the four masks exactly when the position has the
    /// piece of that kind there.
    pub proof fn lemma_masks_cells(&self, player: usize)
        requires
            self.wf(),
            player < 2,
        ensures
            forall|i: int|
                #![trigger bit(self.upright_bits(player), i)]
                bit(self.upright_bits(player), i) == (0 <= i < 25 && self@.cells[i]
                    == Cell::Upright(player)),
            forall|i: int|
                #![trigger bit(self.flipped_bits(player), i)]
                bit(self.flipped_bits(player), i) == (0 <= i < 25 && self@.cells[i]
                    == Cell::Flipped(player)),
    {
        let own = self.owner_mask(player);
        self.lemma_owner_mask(player);
        lemma_bit_ops(own, self.flipped);
        lemma_bit_ops(own, !self.flipped);
        lemma_bit_ops(self.flipped, self.flipped);
    }

    /// The position of a well-formed board is valid.
    pub proof fn lemma_valid(&self)
        requires
            self.wf(),
        ensures
            self@.valid(),
            self@.cells.len() == 25,
    {
    }

    /// Two well-formed boards with the same position are the same board.
    pub proof fn lemma_view_injective(a: Board, b: Board)
        requires
            a.wf(),
            b.wf(),
            a@ == b@,
        ensures
            a == b,
    {
        lemma_bit_range(a.nonempty);
        lemma_bit_range(b.nonempty);
        assert forall|i: int| 0 <= i < 32 implies bit(a.nonempty, i) == bit(b.nonempty, i) && bit(
            a.player,
            i,
        ) == bit(b.player, i) && bit(a.flipped, i) == bit(b.flipped, i) by {
            if i < 25 {
                assert(b@.cells[i] == b.cell_at(i));
            }
        }
        lemma_bits_equal(a.nonempty, b.nonempty);
        lemma_bits_equal(a.player, b.player);
        lemma_bits_equal(a.flipped, b.flipped);
    }

    proof fn lemma_owner_mask(&self, player: usize)
        requires
            self.wf(),
            player < 2,
        ensures
            self.owner_mask(player) <= FULL,
            forall|i: int|
                #![trigger bit(self.owner_mask(player), i)]
                bit(self.owner_mask(player), i) == self@.owned(i, player),
            forall|i: int|
                #![trigger neighbor_count(self.owner_mask(player), i)]
                on_grid(i) ==> neighbor_count(self.owner_mask(player), i) == self@.friends(
                    i,
                    player,
                ),
            forall|i: int, k: nat|
                #![trigger crowded(self.owner_mask(player), i, k)]
                on_grid(i) ==> crowded(self.owner_mask(player), i, k) == self@.crowded(i, player, k),
    {
        lemma_within(self.nonempty, self.player);
        lemma_within(self.nonempty, !self.player);
        lemma_bit_ops(self.nonempty, self.player);
        lemma_bit_ops(self.nonempty, !self.player);
        lemma_bit_ops(self.player, self.player);
        lemma_bit_range(self.nonempty);
    }

    proof fn lemma_crowd(pos: Position, mask: u32, player: usize, k: nat, n: int)
        requires
            0 <= n <= 25,
            forall|i: int| #![trigger bit(mask, i)] on_grid(i) ==> bit(mask, i) == pos.crowded(i, player, k),
        ensures
            ones_below(mask, n) == pos.crowd(player, k, n),
        decreases n,
    {
        if n > 0 {
            Self::lemma_crowd(pos, mask, player, k, n - 1);
        }
    }

    proof fn lemma_flip_hash_skip(pos: Position, player: usize, z: Seq<u64>, a: int, b: int)
        requires
            0 <= a <= b,
            forall|i: int| a <= i < b ==> !pos.flips(i, player),
        ensures
            pos.flip_hash(player, z, b) == pos.flip_hash(player, z, a),
        decreases b - a,
    {
        if a < b {
            Self::lemma_flip_hash_skip(pos, player, z, a, b - 1);
        }
    }

    /// The board before the first move: no piece, and hash zero.
    pub fn new() -> (b: Board)
        ensures
            b.wf(),
            b@ == Position::empty(),
            forall|z: Seq<u64>| #[trigger] b@.consistent(z),
    {
        let b = Board { nonempty: 0, player: 0, flipped: 0, hash: 0 };
        proof {
            lemma_bit_range(0);
            assert(b@.cells =~= Position::empty().cells);
            assert forall|z: Seq<u64>| #[trigger] b@.consistent(z) by {
                lemma_empty_consistent(z);
            }
        }
        b
    }

    /// What cell `i` holds. A cell off the grid is empty.
    pub fn cell(&self, i: usize) -> (c: Cell)
        requires
            self.wf(),
        ensures
            i < 25 ==> c == self@.cells[i as int],
            i >= 25 ==> c == Cell::Empty,
            c.valid(),
    {
        if i >= 25 {
            return Cell::Empty;
        }
        if !has_bit(self.nonempty, i) {
            Cell::Empty
        } else {
            let owner: usize = if has_bit(self.player, i) { 1 } else { 0 };
            if has_bit(self.flipped, i) {
                Cell::Flipped(owner)
            } else {
                Cell::Upright(owner)
            }
        }
    }

    /// The mask of the upright pieces of `player`: bit `i` is set where cell `i`
    /// holds one. Any `player` but 0 is player 1.
    pub fn upright_mask(&self, player: usize) -> (m: u32)
        requires
            self.wf(),
        ensures
            m == self.upright_bits(player),
            m <= FULL,
            forall|i: int|
                #![trigger bit(m, i)]
                bit(m, i) == (0 <= i < 25 && self@.cells[i] == Cell::Upright(side(player))),
    {
        proof {
            let p: usize = if player != 0 { 1 } else { 0 };
            self.lemma_masks_cells(p);
            assert(self.upright_bits(player) == self.upright_bits(p));
            lemma_within(self.nonempty, self.player);
            lemma_within(self.nonempty, !self.player);
            lemma_within(self.nonempty & self.player, !self.flipped);
            lemma_within(self.nonempty & !self.player, !self.flipped);
        }
        if player != 0 {
            self.nonempty & self.player & !self.flipped
        } else {
            self.nonempty & !self.player & !self.flipped
        }
    }

    /// The mask of the flipped pieces of `player`: bit `i` is set where cell `i`
    /// holds one. Any `player` but 0 is player 1.
    pub fn flipped_mask(&self, player: usize) -> (m: u32)
        requires
            self.wf(),
        ensures
            m == self.flipped_bits(player),
            m <= FULL,
            forall|i: int|
                #![trigger bit(m, i)]
                bit(m, i) == (0 <= i < 25 && self@.cells[i] == Cell::Flipped(side(player))),
    {
        proof {
            let p: usize = if player != 0 { 1 } else { 0 };
            self.lemma_masks_cells(p);
            assert(self.flipped_bits(player) == self.flipped_bits(p));
            lemma_within(self.nonempty, self.player);
            lemma_within(self.nonempty, !self.player);
            lemma_within(self.nonempty & self.player, self.flipped);
            lemma_within(self.nonempty & !self.player, self.flipped);
        }
        if player != 0 {
            self.nonempty & self.player & self.flipped
        } else {
            self.nonempty & !self.player & self.flipped
        }
    }

    /// Whether the hash that the moves have maintained is the hash of the cells.
    /// It is, on every board that play reaches; the test is there to catch a
    /// fault in the bookkeeping.
    pub fn is_consistent(&self, z: &Zobrist) -> (ok: bool)
        requires
            self.wf(),
            z.wf(),
        ensures
            ok == self@.consistent(z@),
    {
        self.hash(z) == self.hash
    }

    /// The hash that the moves have maintained.
    pub fn incremental_hash(&self) -> (h: u64)
        ensures
            h == self@.hash,
    {
        self.hash
    }

    /// The score of one player: 1000 for each of the player's pieces with three
    /// neighbours of the same owner, and 1 for each with two. Any `player` but 0
    /// is player 1.
    pub fn score_one_player(&self, player: usize) -> (s: i32)
        requires
            self.wf(),
        ensures
            s == self@.score_of(side(player)),
            0 <= s <= SCORE_MAX,
    {
        let board: u32 = if player != 0 {
            self.nonempty & self.player
        } else {
            self.nonempty & !self.player
        };
        let ghost p: usize = if player != 0 { 1 } else { 0 };
        proof {
            self.lemma_owner_mask(p);
        }
        let (has_3_neighs, has_2_neighs) = count_neighbors(board);
        let n3: u32 = has_3_neighs.count_ones();
        let n2: u32 = has_2_neighs.count_ones();
        proof {
            Self::lemma_crowd(self@, has_3_neighs, p, 3, 25);
            Self::lemma_crowd(self@, has_2_neighs, p, 2, 25);
            lemma_ones_below(has_3_neighs, 32);
            lemma_ones_below(has_2_neighs, 32);
            lemma_score_bound(self@);
        }
        (n3 * 1000 + n2) as i32
    }

    /// The score of the position, from player 0's side: player 0's score less
    /// player 1's.
    pub fn score(&self) -> (s: i32)
        requires
            self.wf(),
        ensures
            s == self@.score(),
            -SCORE_MAX <= s <= SCORE_MAX,
    {
        let s0: i32 = self.score_one_player(0);
        let s1: i32 = self.score_one_player(1);
        s0 - s1
    }

    /// Flips every upright piece of `player` that has three neighbours of the
    /// same owner, and brings the hash up to date: for each flip the key of the
    /// upright piece goes out and the key of the flipped piece comes in.
    pub fn propagate(&mut self, player: usize, z: &Zobrist)
        requires
            old(self).wf(),
            player < 2,
            z.wf(),
        ensures
            final(self).wf(),
            final(self)@ == old(self)@.propagated(player, z@),
            old(self)@.consistent(z@) ==> final(self)@.consistent(z@),
    {
        let ghost start = *self;
        proof {
            lemma_propagated(start@, player, z@);
        }
        let board: u32 = if player != 0 {
            self.nonempty & self.player
        } else {
            self.nonempty & !self.player
        };
        proof {
            self.lemma_owner_mask(player);
        }
        let has3: u32 = count_neighbors(board).0;
        let to_flip: u32 = has3 & !self.flipped;
        proof {
            lemma_within(has3, !self.flipped);
            lemma_bit_ops(has3, !self.flipped);
            lemma_bit_ops(self.flipped, to_flip);
            lemma_bit_range(has3);
        }
        self.flipped ^= to_flip;
        let ghost cells = self@.cells;
        assert(cells =~= start@.propagated(player, z@).cells);
        // `tmp` holds the flips that the hash does not know yet; they lie in the
        // cells from `done` on
        let mut tmp: u32 = to_flip;
        let ghost done: int = 0;
        while tmp != 0
            invariant
                z.wf(),
                player < 2,
                0 <= done <= 25,
                to_flip <= FULL,
                self.wf(),
                self@.cells == cells,
                forall|i: int| #![trigger bit(tmp, i)] bit(tmp, i) == (bit(to_flip, i) && i >= done),
                forall|i: int| #![trigger bit(to_flip, i)] bit(to_flip, i) == start@.flips(i, player),
                self.hash == start@.flip_hash(player, z@, done),
            decreases 25 - done,
        {
            let pos: u32 = tmp.trailing_zeros();
            proof {
                assert(bit(tmp, pos as int));
                assert forall|i: int| done <= i < pos implies !start@.flips(i, player) by {
                    assert(!bit(tmp, i));
                }
                Self::lemma_flip_hash_skip(start@, player, z@, done, pos as int);
            }
            let up: u64 = z.key(pos as usize, player as u8);
            let down: u64 = z.key(pos as usize, 2 + player as u8);
            self.hash ^= up ^ down;
            let ghost before = tmp;
            tmp ^= single_bit(pos as usize);
            proof {
                lemma_bit_ops(before, single(pos as int));
                lemma_bit_single(pos as int);
                done = pos + 1;
            }
        }
        proof {
            assert forall|i: int| done <= i < 25 implies !start@.flips(i, player) by {
                assert(!bit(tmp, i));
            }
            Self::lemma_flip_hash_skip(start@, player, z@, done, 25);
        }
    }

    /// The hash of the board computed from nothing: the XOR of the keys of all
    /// pieces. Slow; it is there to check the hash that the moves maintain.
    pub fn hash(&self, z: &Zobrist) -> (h: u64)
        requires
            self.wf(),
            z.wf(),
        ensures
            h == self@.zobrist_hash(z@),
    {
        let mut hash: u64 = 0;
        let mut i: usize = 0;
        while i < 25
            invariant
                i <= 25,
                self.wf(),
                z.wf(),
                hash == self@.key_sum(z@, i as int),
            decreases 25 - i,
        {
            if has_bit(self.nonempty, i) {
                let fl: u8 = if has_bit(self.flipped, i) { 2 } else { 0 };
                let pl: u8 = if has_bit(self.player, i) { 1 } else { 0 };
                hash ^= z.key(i, fl + pl);
            }
            i += 1;
        }
        hash
    }

    /// The board after `player` has placed a piece in the empty cell `c`.
    fn place(&self, c: usize, player: usize, z: &Zobrist) -> (b: Board)
        requires
            self.wf(),
            z.wf(),
            player < 2,
            c < 25,
            self@.cells[c as int] is Empty,
        ensures
            b.wf(),
            b@ == self@.placed(c as int, player, z@),
    {
        let mut b: Board = *self;
        let m: u32 = single_bit(c);
        b.nonempty |= m;
        if player != 0 {
            b.player |= m;
        }
        b.hash ^= z.key(c, player as u8);
        proof {
            lemma_within(self.nonempty, m);
            lemma_bit_ops(self.nonempty, m);
            lemma_bit_ops(self.player, m);
            lemma_bit_single(c as int);
            let target = Position {
                cells: self@.cells.update(c as int, Cell::Upright(player)),
                hash: self.hash ^ key_of(z@, c as int, player as int),
            };
            assert(b@.cells =~= target.cells);
        }
        b.propagate(player, z);
        b
    }

    /// The board after `player` has swapped the upright pieces in cells `i` and
    /// `j`.
    fn swap(&self, i: usize, j: usize, player: usize, z: &Zobrist) -> (b: Board)
        requires
            self.wf(),
            z.wf(),
            player < 2,
            i < j < 25,
            self@.swappable(i as int),
            self@.swappable(j as int),
        ensures
            b.wf(),
            b@ == self@.swapped(i as int, j as int, player, z@),
    {
        let mut b: Board = *self;
        let i_player: u8 = if has_bit(self.player, i) { 1 } else { 0 };
        let j_player: u8 = if has_bit(self.player, j) { 1 } else { 0 };
        let both: u32 = single_bit(i) | single_bit(j);
        b.flipped |= both;
        if i_player != j_player {
            b.player ^= both;
        }
        b.hash ^= z.key(i, i_player) ^ z.key(j, i_player + 2) ^ z.key(j, j_player) ^ z.key(
            i,
            j_player + 2,
        );
        proof {
            lemma_bit_ops(single(i as int), single(j as int));
            lemma_bit_ops(self.flipped, both);
            lemma_bit_ops(self.player, both);
            lemma_bit_single(i as int);
            lemma_bit_single(j as int);
            let target = self@.exchanged(i as int, j as int, z@);
            assert(b@.cells =~= target.cells);
        }
        b.propagate(player, z);
        if i_player != j_player {
            b.propagate(1 - player, z);
        }
        b
    }

    /// Every board that `player` can move to, in a fixed order: a placement for
    /// each empty cell, by rising cell, then a swap for each pair of cells that
    /// hold upright pieces, by rising first and then second cell.
    ///
    /// A full board has no placement, and a board with fewer than two upright
    /// pieces no swap; the list may be empty.
    pub fn moves(self, player: usize, z: &Zobrist) -> (r: Vec<Board>)
        requires
            self.wf(),
            z.wf(),
            player < 2,
        ensures
            all_wf(r@),
            positions(r@) == self@.successors(player, z@),
            self@.consistent(z@) ==> all_consistent(r@, z@),
    {
        proof {
            assert forall|k: int|
                0 <= k < self@.successors(player, z@).len() && self@.consistent(
                    z@,
                ) implies (#[trigger] self@.successors(player, z@)[k]).consistent(z@) by {
                lemma_successor_is_move(self@, player, z@, k);
                lemma_move(self@, self@.successors(player, z@)[k], player, z@);
            }
        }
        let mut out: Vec<Board> = Vec::new();
        let mut c: usize = 0;
        while c < 25
            invariant
                c <= 25,
                self.wf(),
                z.wf(),
                player < 2,
                all_wf(out@),
                positions(out@) == self@.placements(player, z@, c as int),
            decreases 25 - c,
        {
            if !has_bit(self.nonempty, c) {
                let b: Board = self.place(c, player, z);
                out.push(b);
            }
            c += 1;
        }
        let swaplegal: u32 = self.nonempty & !self.flipped;
        proof {
            lemma_bit_ops(self.nonempty, !self.flipped);
            lemma_bit_ops(self.flipped, self.flipped);
        }
        let ghost placed = self@.placements(player, z@, 25);
        let mut i: usize = 0;
        while i < 25
            invariant
                i <= 25,
                self.wf(),
                z.wf(),
                player < 2,
                all_wf(out@),
                forall|k: int| 0 <= k < 25 ==> bit(swaplegal, k) == self@.swappable(k),
                placed == self@.placements(player, z@, 25),
                positions(out@) == placed + self@.swaps(player, z@, i as int),
            decreases 25 - i,
        {
            if has_bit(swaplegal, i) {
                let ghost head = self@.swaps(player, z@, i as int);
                let mut j: usize = i + 1;
                while j < 25
                    invariant
                        i < j <= 25,
                        self.wf(),
                        z.wf(),
                        player < 2,
                        all_wf(out@),
                        self@.swappable(i as int),
                        forall|k: int| 0 <= k < 25 ==> bit(swaplegal, k) == self@.swappable(k),
                        positions(out@) == placed + head + self@.swaps_of(
                            player,
                            z@,
                            i as int,
                            j as int,
                        ),
                    decreases 25 - j,
                {
                    if has_bit(swaplegal, j) {
                        let b: Board = self.swap(i, j, player, z);
                        let ghost before = out@;
                        out.push(b);
                        assert(positions(before).push(b@) =~= placed + head + self@.swaps_of(
                            player,
                            z@,
                            i as int,
                            j as int,
                        ).push(b@));
                    }
                    j += 1;
                }
            }
            i += 1;
        }
        proof {
            assert forall|k: int| 0 <= k < out@.len() && self@.consistent(z@) implies (
            #[trigger] out@[k])@.consistent(z@) by {
                assert(positions(out@)[k] == out@[k]@);
            }
        }
        out
    }
}

} // verus!
