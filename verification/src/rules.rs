//! The rules of the game, stated on a mathematical model of a position.
//!
//! A [`Position`] is a sequence of 25 cells, row by row, and a hash. Nothing here
//! is executable: the functions of this module say what placing, swapping,
//! flipping, hashing and scoring mean, and the executable board is proved against
//! them.

use vstd::prelude::*;
use crate::NEIGHBORS;

verus! {

/// What one cell of the grid holds. The number is the owner, 0 or 1.
#[derive(Clone, Copy, Debug, PartialEq, Eq, Structural)]
pub enum Cell {
    /// No piece.
    Empty,
    /// A piece that has not flipped. Only such pieces can be swapped.
    Upright(usize),
    /// A piece that has flipped. It stays as it is for the rest of the game.
    Flipped(usize),
}

impl Cell {
    /// Whether the cell holds a piece of `player`, upright or flipped.
    pub open spec fn owned_by(self, player: usize) -> bool {
        self == Cell::Upright(player) || self == Cell::Flipped(player)
    }

    /// Whether the cell holds a flipped piece.
    pub open spec fn is_flipped(self) -> bool {
        self is Flipped
    }

    /// Whether the cell is empty or its owner is one of the two players.
    pub open spec fn valid(self) -> bool {
        match self {
            Cell::Empty => true,
            Cell::Upright(p) => p < 2,
            Cell::Flipped(p) => p < 2,
        }
    }

    /// The state tag under which the cell is hashed: the owner for an upright
    /// piece, the owner plus two for a flipped one.
    pub open spec fn tag(self) -> int {
        match self {
            Cell::Empty => 0,
            Cell::Upright(p) => p as int,
            Cell::Flipped(p) => 2 + p,
        }
    }

    /// The same piece in the other player's hands.
    pub open spec fn mirrored(self) -> Cell {
        match self {
            Cell::Empty => Cell::Empty,
            Cell::Upright(p) => Cell::Upright((1 - p) as usize),
            Cell::Flipped(p) => Cell::Flipped((1 - p) as usize),
        }
    }
}

/// The player that a number stands for: any number but 0 is player 1.
pub open spec fn side(player: usize) -> usize {
    if player != 0 {
        1
    } else {
        0
    }
}

/// The key of a cell in a given state: entry `4 * cell + tag` of the key table.
pub open spec fn key_of(z: Seq<u64>, cell: int, tag: int) -> u64 {
    z[4 * cell + tag]
}

/// A position of the game: the 25 cells, row by row, and the hash kept with them.
pub struct Position {
    /// The cells; cell `5 * y + x` is column `x` of row `y`.
    pub cells: Seq<Cell>,
    /// The hash that is maintained move by move.
    pub hash: u64,
}

impl Position {
    /// The position before the first move.
    pub open spec fn empty() -> Position {
        Position { cells: Seq::new(25, |i: int| Cell::Empty), hash: 0 }
    }

    /// There are 25 cells, and every piece belongs to player 0 or player 1.
    pub open spec fn valid(self) -> bool {
        &&& self.cells.len() == 25
        &&& forall|i: int| 0 <= i < 25 ==> (#[trigger] self.cells[i]).valid()
    }

    /// Whether cell `i` is on the grid and holds a piece of `player`.
    pub open spec fn owned(self, i: int, player: usize) -> bool {
        0 <= i < 25 && self.cells[i].owned_by(player)
    }

    /// The number of orthogonal neighbours of cell `i` that hold a piece of
    /// `player`.
    pub open spec fn friends(self, i: int, player: usize) -> nat {
        let left: nat = if i % 5 != 0 && self.owned(i - 1, player) { 1 } else { 0 };
        let right: nat = if i % 5 != 4 && self.owned(i + 1, player) { 1 } else { 0 };
        let up: nat = if self.owned(i - 5, player) { 1 } else { 0 };
        let down: nat = if self.owned(i + 5, player) { 1 } else { 0 };
        left + right + up + down
    }

    /// Whether cell `i` holds a piece of `player` with at least `k` neighbours of
    /// the same owner.
    pub open spec fn crowded(self, i: int, player: usize, k: nat) -> bool {
        self.owned(i, player) && self.friends(i, player) >= k
    }

    /// Whether the piece in cell `i` flips when `player`'s pieces are looked
    /// over: it is an upright piece of `player` with `NEIGHBORS` neighbours of its
    /// own, or more.
    pub open spec fn flips(self, i: int, player: usize) -> bool {
        0 <= i < 25 && self.cells[i] == Cell::Upright(player) && self.friends(i, player)
            >= NEIGHBORS
    }

    /// The hash after the flips of `player` in the cells below `n`: each flip
    /// takes the key of the upright piece out and puts the key of the flipped
    /// piece in.
    pub open spec fn flip_hash(self, player: usize, z: Seq<u64>, n: int) -> u64
        decreases n,
    {
        if n <= 0 {
            self.hash
        } else {
            let h = self.flip_hash(player, z, n - 1);
            if self.flips(n - 1, player) {
                h ^ (key_of(z, n - 1, player as int) ^ key_of(z, n - 1, 2 + player))
            } else {
                h
            }
        }
    }

    /// The position after every upright piece of `player` that has three
    /// neighbours of its own has flipped.
    pub open spec fn propagated(self, player: usize, z: Seq<u64>) -> Position {
        Position {
            cells: Seq::new(
                25,
                |i: int| if self.flips(i, player) { Cell::Flipped(player) } else { self.cells[i] },
            ),
            hash: self.flip_hash(player, z, 25),
        }
    }

    /// The position after `player` has placed a piece in cell `c`.
    pub open spec fn placed(self, c: int, player: usize, z: Seq<u64>) -> Position {
        Position {
            cells: self.cells.update(c, Cell::Upright(player)),
            hash: self.hash ^ key_of(z, c, player as int),
        }.propagated(player, z)
    }

    /// The owner of the piece in cell `i`; 0 for an empty cell.
    pub open spec fn owner(self, i: int) -> usize {
        match self.cells[i] {
            Cell::Empty => 0,
            Cell::Upright(p) => p,
            Cell::Flipped(p) => p,
        }
    }

    /// The position after cells `i` and `j` have been swapped, before any
    /// further flip: each piece is flipped and lies in the other's cell.
    pub open spec fn exchanged(self, i: int, j: int, z: Seq<u64>) -> Position {
        let a = self.owner(i);
        let b = self.owner(j);
        Position {
            cells: self.cells.update(i, Cell::Flipped(b)).update(j, Cell::Flipped(a)),
            hash: self.hash ^ (key_of(z, i, a as int) ^ key_of(z, j, a + 2) ^ key_of(z, j, b as int)
                ^ key_of(z, i, b + 2)),
        }
    }

    /// The position after `player` has swapped cells `i` and `j`. The pieces of
    /// `player` are looked over for flips, and those of the other player too
    /// where the swap has changed owners.
    pub open spec fn swapped(self, i: int, j: int, player: usize, z: Seq<u64>) -> Position {
        let after = self.exchanged(i, j, z).propagated(player, z);
        if self.owner(i) != self.owner(j) {
            after.propagated((1 - player) as usize, z)
        } else {
            after
        }
    }

    /// Whether the piece in cell `i` can be swapped.
    pub open spec fn swappable(self, i: int) -> bool {
        0 <= i < 25 && self.cells[i] is Upright
    }

    /// The placements of `player` into the empty cells below `n`, by rising cell.
    pub open spec fn placements(self, player: usize, z: Seq<u64>, n: int) -> Seq<Position>
        decreases n,
    {
        if n <= 0 {
            Seq::empty()
        } else {
            let before = self.placements(player, z, n - 1);
            if self.cells[n - 1] is Empty {
                before.push(self.placed(n - 1, player, z))
            } else {
                before
            }
        }
    }

    /// The swaps of cell `i` with the swappable cells `j`, `i < j < n`, by
    /// rising `j`.
    pub open spec fn swaps_of(self, player: usize, z: Seq<u64>, i: int, n: int) -> Seq<Position>
        decreases n - i,
    {
        if n <= i + 1 {
            Seq::empty()
        } else {
            let before = self.swaps_of(player, z, i, n - 1);
            if self.swappable(n - 1) {
                before.push(self.swapped(i, n - 1, player, z))
            } else {
                before
            }
        }
    }

    /// The swaps of the pairs `i < j` of swappable cells with `i < m`, by rising
    /// `i`, then by rising `j`.
    pub open spec fn swaps(self, player: usize, z: Seq<u64>, m: int) -> Seq<Position>
        decreases m,
    {
        if m <= 0 {
            Seq::empty()
        } else {
            let before = self.swaps(player, z, m - 1);
            if self.swappable(m - 1) {
                before + self.swaps_of(player, z, m - 1, 25)
            } else {
                before
            }
        }
    }

    /// Every position that `player` can move to: the placements, then the swaps.
    pub open spec fn successors(self, player: usize, z: Seq<u64>) -> Seq<Position> {
        self.placements(player, z, 25) + self.swaps(player, z, 25)
    }

    /// The XOR of the keys of the pieces in the cells below `n`.
    pub open spec fn key_sum(self, z: Seq<u64>, n: int) -> u64
        decreases n,
    {
        if n <= 0 {
            0
        } else {
            let h = self.key_sum(z, n - 1);
            if self.cells[n - 1] is Empty {
                h
            } else {
                h ^ key_of(z, n - 1, self.cells[n - 1].tag())
            }
        }
    }

    /// The hash of the cells, computed from nothing: the XOR of the keys of all
    /// pieces.
    pub open spec fn zobrist_hash(self, z: Seq<u64>) -> u64 {
        self.key_sum(z, 25)
    }

    /// Whether the hash kept with the position is the hash of its cells.
    pub open spec fn consistent(self, z: Seq<u64>) -> bool {
        self.hash == self.zobrist_hash(z)
    }

    /// The number of cells below `n` that hold a piece of `player` with at least
    /// `k` neighbours of the same owner.
    pub open spec fn crowd(self, player: usize, k: nat, n: int) -> nat
        decreases n,
    {
        if n <= 0 {
            0
        } else {
            self.crowd(player, k, n - 1) + if self.crowded(n - 1, player, k) { 1nat } else { 0nat }
        }
    }

    /// The score of one player: 1000 for each piece with three neighbours of its
    /// own, and 1 for each piece with two.
    pub open spec fn score_of(self, player: usize) -> int {
        1000 * (self.crowd(player, 3, 25) as int) + self.crowd(player, 2, 25)
    }

    /// The score of the position: positive where player 0 is ahead.
    pub open spec fn score(self) -> int {
        self.score_of(0) - self.score_of(1)
    }

    /// The position with the two players exchanged. The hash is left as it is.
    pub open spec fn mirrored(self) -> Position {
        Position { cells: Seq::new(25, |i: int| self.cells[i].mirrored()), hash: self.hash }
    }
}

} // verus!
