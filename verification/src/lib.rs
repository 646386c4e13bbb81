//! A search engine for a two-player game on a 5x5 grid.
//!
//! Players place pieces or swap pieces that are already placed. A piece that has
//! three neighbours of its own owner flips, and stays flipped. The engine keeps a
//! position as bitboards with an incrementally maintained Zobrist hash, generates
//! the successors of a position, scores positions, and picks a move by an
//! alpha-beta search with transposition tables.
//!
//! Every function is stated against a mathematical model of the game, the
//! [`Position`](crate::rules::Position), and proved to follow it.

use vstd::prelude::*;

pub mod bits;
pub mod board;
pub mod kernel;
pub mod laws;
pub mod pruning;
pub mod rules;
pub mod search;
pub mod search_laws;
pub mod solver;
pub mod table;
pub mod text;
pub mod zobrist;

pub use crate::board::Board;
pub use crate::kernel::count_neighbors;
pub use crate::rules::Cell;
pub use crate::rules::Position;
pub use crate::solver::Solver;
pub use crate::zobrist::init_zobrist;
pub use crate::zobrist::Zobrist;

verus! {

/// Number of columns of the grid.
pub const WIDTH: usize = 5;

/// Number of rows of the grid.
pub const HEIGHT: usize = 5;

/// Number of neighbours of its own owner at which a piece flips.
pub const NEIGHBORS: i32 = 3;

} // verus!
