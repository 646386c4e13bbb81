//! What the search computes, stated on positions.
//!
//! The search is a negamax with an alpha-beta window over the successors of a
//! position. It remembers what it found in a table keyed by the position's hash,
//! and takes from the table of the previous, shallower search the move to try
//! first. Because the tables are keyed by a hash, what the search returns is a
//! function of the tables as much as of the position; the functions here say
//! exactly which.

use vstd::prelude::*;
use crate::rules::Position;

verus! {

/// The constant that tells the two sides apart in a table key.
pub const PLAYER_HASH: u64 = 0x1337;

/// The depth of the first search of a solver that has no hints yet.
pub const START_DEPTH: i32 = 4;

/// The depth of a full search.
pub const FULL_DEPTH: i32 = 7;

/// The widest window's upper end; the lower end is its negation.
pub const INFINITY: i32 = i32::MAX;

/// What a table remembers of a node.
pub struct Entry {
    /// The score of the node for the player to move.
    pub score: int,
    /// The best successor, if the search found one.
    pub best: Option<Position>,
}

/// What a search hands back: the table as the search leaves it, the score of
/// the node for the player to move, and the best successor.
pub struct Outcome {
    /// The table of the running search.
    pub memo: Map<u64, Entry>,
    /// The score of the node.
    pub score: int,
    /// The best successor, if there is one.
    pub best: Option<Position>,
}

/// The other player.
pub open spec fn opponent(player: usize) -> usize {
    (1 - player) as usize
}

/// The key of a node: the position's hash, XORed with `PLAYER_HASH` where
/// player 1 is to move.
pub open spec fn node_key(pos: Position, player: usize) -> u64 {
    pos.hash ^ ((PLAYER_HASH * player) as u64)
}

/// The score of a position for the player to move: the score as it is for
/// player 0, its negation for player 1.
pub open spec fn signed_score(pos: Position, player: usize) -> int {
    if player == 0 {
        pos.score()
    } else {
        -pos.score()
    }
}

/// The first `n` of the positions `succ`, without those equal to `hint`.
pub open spec fn others(succ: Seq<Position>, hint: Position, n: int) -> Seq<Position>
    decreases n,
{
    if n <= 0 {
        Seq::empty()
    } else {
        let before = others(succ, hint, n - 1);
        if succ[n - 1] != hint {
            before.push(succ[n - 1])
        } else {
            before
        }
    }
}

/// The order in which a node's successors are searched: the move that the
/// previous search found best, where there is one, then the other successors in
/// their own order.
pub open spec fn candidates(hint: Option<Position>, succ: Seq<Position>) -> Seq<Position> {
    match hint {
        None => succ,
        Some(h) => seq![h] + others(succ, h, succ.len() as int),
    }
}

/// The move that a table gives for a node, if any.
pub open spec fn hint_of(hints: Map<u64, Entry>, key: u64) -> Option<Position> {
    if hints.dom().contains(key) {
        hints[key].best
    } else {
        None
    }
}

/// Whether the search of a node searches a successor: the depth is one ply or
/// more, the running table does not know the node, and there is a candidate.
/// Only then is the window negated.
pub open spec fn expands(
    z: Seq<u64>,
    memo: Map<u64, Entry>,
    hints: Map<u64, Entry>,
    pos: Position,
    player: usize,
    depth: nat,
) -> bool {
    let key = node_key(pos, player);
    &&& depth > 0
    &&& !memo.dom().contains(key)
    &&& candidates(hint_of(hints, key), pos.successors(player, z)).len() > 0
}

/// The search of one node.
///
/// At depth zero the node is a leaf and has its signed score. A node that the
/// running table knows has what the table says. Otherwise the candidates are
/// searched in turn with `scan`, and the node gets the best score found; a node
/// without a candidate is a leaf and has its signed score. The result goes into
/// the table.
pub open spec fn search(
    z: Seq<u64>,
    memo: Map<u64, Entry>,
    hints: Map<u64, Entry>,
    pos: Position,
    player: usize,
    depth: nat,
    alpha: int,
    beta: int,
) -> Outcome
    decreases depth, 1nat, 0nat,
{
    let key = node_key(pos, player);
    if depth == 0 {
        Outcome { memo, score: signed_score(pos, player), best: None }
    } else if memo.dom().contains(key) {
        Outcome { memo, score: memo[key].score, best: memo[key].best }
    } else {
        let cands = candidates(hint_of(hints, key), pos.successors(player, z));
        let found = scan(z, memo, hints, cands, 0, player, depth, alpha, beta, 0, None);
        let score = if found.best is None {
            signed_score(pos, player)
        } else {
            found.score
        };
        Outcome {
            memo: found.memo.insert(key, Entry { score, best: found.best }),
            score,
            best: found.best,
        }
    }
}

/// The search of the candidates from the `k`-th on, with the best score and
/// successor found among those before it.
///
/// Each candidate is searched one ply less deep for the opponent, with the
/// window negated and turned round, and scores the negation of what comes back.
/// It becomes the best where nothing was found yet or it scores more than the
/// best so far. The lower end of the window rises to its score; once it reaches
/// the upper end the remaining candidates are left out.
pub open spec fn scan(
    z: Seq<u64>,
    memo: Map<u64, Entry>,
    hints: Map<u64, Entry>,
    cands: Seq<Position>,
    k: int,
    player: usize,
    depth: nat,
    alpha: int,
    beta: int,
    score: int,
    best: Option<Position>,
) -> Outcome
    decreases depth, 0nat, cands.len() - k,
{
    if depth == 0 || k < 0 || k >= cands.len() {
        Outcome { memo, score, best }
    } else {
        let child = search(
            z,
            memo,
            hints,
            cands[k],
            opponent(player),
            (depth - 1) as nat,
            -beta,
            -alpha,
        );
        let s = -child.score;
        let better = best is None || s > score;
        let score1 = if better { s } else { score };
        let best1 = if better { Some(cands[k]) } else { best };
        let alpha1 = if s > alpha { s } else { alpha };
        if alpha1 >= beta {
            Outcome { memo: child.memo, score: score1, best: best1 }
        } else {
            scan(z, child.memo, hints, cands, k + 1, player, depth, alpha1, beta, score1, best1)
        }
    }
}

/// The searches of iterative deepening from `depth` up to `max_depth`: each
/// starts with an empty table and takes its hints from the table of the one
/// before it. Hands back the table of the last search and the move it found;
/// with no search to run, the hints and the move as they were.
pub open spec fn deepen(
    z: Seq<u64>,
    memo: Map<u64, Entry>,
    hints: Map<u64, Entry>,
    pos: Position,
    player: usize,
    depth: int,
    max_depth: int,
    best: Option<Position>,
) -> Outcome
    decreases max_depth - depth + 1,
{
    if depth < 0 || depth > max_depth {
        Outcome { memo: hints, score: 0, best }
    } else {
        let found = search(z, memo, hints, pos, player, depth as nat, -INFINITY, INFINITY as int);
        deepen(z, Map::empty(), found.memo, pos, player, depth + 1, max_depth, found.best)
    }
}

/// The depth at which a solver starts: the full depth where it has hints from an
/// earlier call, else the shallow start, or the full depth where that is less.
pub open spec fn first_depth(warm: bool, max_depth: int) -> int {
    if warm || max_depth < START_DEPTH {
        max_depth
    } else {
        START_DEPTH as int
    }
}

} // verus!
