//! What holds of every search.

use vstd::prelude::*;
use crate::laws::{is_move, lemma_successor_is_move};
use crate::rules::Position;
use crate::search::{
    candidates, deepen, first_depth, hint_of, node_key, opponent, others, scan, search,
    signed_score, Entry, Outcome, INFINITY,
};
use crate::solver::SolverState;

verus! {

/// A scan hands back a successor once it has one or a candidate is left, and
/// what it hands back is the successor it started with or one of the candidates
/// left. With no candidate left it hands back what it was given.
pub proof fn lemma_scan(
    z: Seq<u64>,
    memo: Map<u64, Entry>,
    hints: Map<u64, Entry>,
    cands: Seq<Position>,
    k: int,
    player: usize,
    depth: nat,
    alpha: int,
    beta: int,
    score: int,
    best: Option<Position>,
)
    requires
        depth > 0,
        0 <= k,
    ensures
        ({
            let found = scan(z, memo, hints, cands, k, player, depth, alpha, beta, score, best);
            &&& best is Some || k < cands.len() ==> found.best is Some
            &&& found.best == best || exists|j: int|
                k <= j < cands.len() && found.best == Some(#[trigger] cands[j])
            &&& k >= cands.len() ==> found == (Outcome { memo, score, best })
        }),
    decreases cands.len() - k,
{
    if k < cands.len() {
        let child = search(
            z,
            memo,
            hints,
            cands[k],
            opponent(player),
            (depth - 1) as nat,
            -beta,
            -alpha,
        );
        let s = -child.score;
        let better = best is None || s > score;
        let score1 = if better { s } else { score };
        let best1 = if better { Some(cands[k]) } else { best };
        let alpha1 = if s > alpha { s } else { alpha };
        if alpha1 < beta {
            lemma_scan(z, child.memo, hints, cands, k + 1, player, depth, alpha1, beta, score1, best1);
        }
    }
}

proof fn lemma_others(succ: Seq<Position>, hint: Position, n: int, j: int)
    requires
        0 <= n <= succ.len(),
        0 <= j < others(succ, hint, n).len(),
    ensures
        exists|i: int| 0 <= i < n && others(succ, hint, n)[j] == #[trigger] succ[i],
    decreases n,
{
    if n > 0 {
        let before = others(succ, hint, n - 1);
        if j < before.len() {
            lemma_others(succ, hint, n - 1, j);
        }
    }
}

/// Every candidate of a node is the hint or one of the successors.
pub proof fn lemma_candidate(hint: Option<Position>, succ: Seq<Position>, j: int)
    requires
        0 <= j < candidates(hint, succ).len(),
    ensures
        hint == Some(candidates(hint, succ)[j]) || exists|i: int|
            0 <= i < succ.len() && candidates(hint, succ)[j] == #[trigger] succ[i],
{
    if let Some(h) = hint {
        if j > 0 {
            lemma_others(succ, h, succ.len() as int, j - 1);
        }
    }
}

/// The search of a node that the running table does not know, at a depth of one
/// ply or more.
///
/// The node is stored under its key with the result. A successor is found
/// exactly when there is a candidate, and it is one of the candidates; a node
/// with no candidate gets its signed score, as a leaf does. Where the table of the previous
/// search gives no move for the node, the successor found is a legal move, and
/// none is found exactly when the node has no legal move.
pub proof fn lemma_search_miss(
    z: Seq<u64>,
    memo: Map<u64, Entry>,
    hints: Map<u64, Entry>,
    pos: Position,
    player: usize,
    depth: nat,
    alpha: int,
    beta: int,
)
    requires
        pos.cells.len() == 25,
        depth > 0,
        !memo.dom().contains(node_key(pos, player)),
    ensures
        ({
            let key = node_key(pos, player);
            let found = search(z, memo, hints, pos, player, depth, alpha, beta);
            let succ = pos.successors(player, z);
            let cands = candidates(hint_of(hints, key), succ);
            &&& found.memo.dom().contains(key)
            &&& found.memo[key] == (Entry { score: found.score, best: found.best })
            &&& found.best is None <==> cands.len() == 0
            &&& found.best is None ==> found.score == signed_score(pos, player)
            &&& found.best matches Some(m) ==> cands.contains(m)
            &&& hint_of(hints, key) is None ==> {
                &&& found.best is None <==> succ.len() == 0
                &&& found.best matches Some(m) ==> is_move(pos, m, player, z)
            }
        }),
{
    let key = node_key(pos, player);
    let succ = pos.successors(player, z);
    let hint = hint_of(hints, key);
    let cands = candidates(hint, succ);
    lemma_scan(z, memo, hints, cands, 0, player, depth, alpha, beta, 0, None);
    let found = search(z, memo, hints, pos, player, depth, alpha, beta);
    if let Some(m) = found.best {
        let j = choose|j: int| 0 <= j < cands.len() && found.best == Some(#[trigger] cands[j]);
        if hint is None {
            lemma_successor_is_move(pos, player, z, j);
        }
    }
}

proof fn lemma_deepen(
    z: Seq<u64>,
    memo: Map<u64, Entry>,
    hints: Map<u64, Entry>,
    pos: Position,
    player: usize,
    depth: int,
    max_depth: int,
    best: Option<Position>,
)
    requires
        pos.cells.len() == 25,
        1 <= depth <= max_depth,
        !memo.dom().contains(node_key(pos, player)),
    ensures
        ({
            let found = deepen(z, memo, hints, pos, player, depth, max_depth, best);
            let succ = pos.successors(player, z);
            &&& succ.len() > 0 ==> found.best is Some
            &&& succ.len() == 0 && hint_of(hints, node_key(pos, player)) is None ==> found.best is None
            &&& hint_of(hints, node_key(pos, player)) is None ==> (found.best matches Some(m)
                ==> is_move(pos, m, player, z))
        }),
    decreases max_depth - depth,
{
    let key = node_key(pos, player);
    let first = search(z, memo, hints, pos, player, depth as nat, -INFINITY, INFINITY as int);
    lemma_search_miss(z, memo, hints, pos, player, depth as nat, -INFINITY, INFINITY as int);
    if depth < max_depth {
        lemma_deepen(z, Map::empty(), first.memo, pos, player, depth + 1, max_depth, first.best);
        if hint_of(hints, key) is None {
            if let Some(m) = first.best {
                // the hint of the next search is this legal move: its candidates are
                // this move and the other successors, so what it finds is a legal move
                lemma_search_miss(
                    z,
                    Map::empty(),
                    first.memo,
                    pos,
                    player,
                    (depth + 1) as nat,
                    -INFINITY,
                    INFINITY as int,
                );
                lemma_deepen_legal(z, first.memo, pos, player, depth + 1, max_depth, first.best);
            }
        }
    }
}

/// Whether the move that a table gives for a node, if any, is a legal move.
pub open spec fn hint_is_legal(
    hints: Map<u64, Entry>,
    pos: Position,
    player: usize,
    z: Seq<u64>,
) -> bool {
    hint_of(hints, node_key(pos, player)) matches Some(h) ==> is_move(pos, h, player, z)
}

proof fn lemma_search_legal(
    z: Seq<u64>,
    memo: Map<u64, Entry>,
    hints: Map<u64, Entry>,
    pos: Position,
    player: usize,
    depth: nat,
    alpha: int,
    beta: int,
)
    requires
        pos.cells.len() == 25,
        depth > 0,
        !memo.dom().contains(node_key(pos, player)),
        hint_is_legal(hints, pos, player, z),
    ensures
        ({
            let found = search(z, memo, hints, pos, player, depth, alpha, beta);
            &&& found.best matches Some(m) ==> is_move(pos, m, player, z)
            &&& hint_is_legal(found.memo, pos, player, z)
        }),
{
    let key = node_key(pos, player);
    let succ = pos.successors(player, z);
    let hint = hint_of(hints, key);
    let cands = candidates(hint, succ);
    lemma_search_miss(z, memo, hints, pos, player, depth, alpha, beta);
    let found = search(z, memo, hints, pos, player, depth, alpha, beta);
    if let Some(m) = found.best {
        let j = choose|j: int| 0 <= j < cands.len() && cands[j] == m;
        lemma_candidate(hint, succ, j);
        if hint != Some(m) {
            let i = choose|i: int| 0 <= i < succ.len() && cands[j] == #[trigger] succ[i];
            lemma_successor_is_move(pos, player, z, i);
        }
    }
}

proof fn lemma_deepen_legal(
    z: Seq<u64>,
    hints: Map<u64, Entry>,
    pos: Position,
    player: usize,
    depth: int,
    max_depth: int,
    best: Option<Position>,
)
    requires
        pos.cells.len() == 25,
        1 <= depth,
        hint_is_legal(hints, pos, player, z),
        best matches Some(m) ==> is_move(pos, m, player, z),
    ensures
        deepen(z, Map::empty(), hints, pos, player, depth, max_depth, best).best matches Some(m)
            ==> is_move(pos, m, player, z),
    decreases max_depth - depth + 1,
{
    if depth <= max_depth {
        let first = search(
            z,
            Map::empty(),
            hints,
            pos,
            player,
            depth as nat,
            -INFINITY,
            INFINITY as int,
        );
        lemma_search_legal(
            z,
            Map::empty(),
            hints,
            pos,
            player,
            depth as nat,
            -INFINITY,
            INFINITY as int,
        );
        lemma_deepen_legal(z, first.memo, pos, player, depth + 1, max_depth, first.best);
    }
}

/// What `solve` answers, for a solver whose running table does not know the
/// node, as it is between two calls of `solve`, and a depth of one ply or more.
///
/// Where the position has a legal move, `solve` returns a successor. Where the
/// table of the previous search gives no move for the node, `solve` returns a
/// legal move, and nothing exactly when there is none.
pub proof fn lemma_solve_answer(s: SolverState, pos: Position, player: usize, max_depth: int)
    requires
        pos.cells.len() == 25,
        max_depth >= 1,
        !s.memo.dom().contains(node_key(pos, player)),
    ensures
        ({
            let found = deepen(
                s.keys,
                s.memo,
                s.hints,
                pos,
                player,
                first_depth(s.warm, max_depth),
                max_depth,
                None,
            );
            let succ = pos.successors(player, s.keys);
            &&& succ.len() > 0 ==> found.best is Some
            &&& hint_of(s.hints, node_key(pos, player)) is None ==> {
                &&& found.best is None <==> succ.len() == 0
                &&& found.best matches Some(m) ==> is_move(pos, m, player, s.keys)
            }
        }),
{
    lemma_deepen(
        s.keys,
        s.memo,
        s.hints,
        pos,
        player,
        first_depth(s.warm, max_depth),
        max_depth,
        None,
    );
}

/// Search determinism: what `solve` returns, and the hints it leaves, are a
/// function of the key table, the state of the solver, the position, the player
/// and the depth. Two solvers in the same state, as any two that have not run
/// and hold the keys of the same seed are, give the same answer.
pub proof fn lemma_solve_deterministic(
    a: SolverState,
    b: SolverState,
    pos: Position,
    player: usize,
    max_depth: int,
)
    requires
        a.memo =~= b.memo,
        a.hints =~= b.hints,
        a.warm == b.warm,
        a.keys.len() == b.keys.len(),
        forall|k: int| 0 <= k < a.keys.len() ==> a.keys[k] == b.keys[k],
    ensures
        deepen(
            a.keys,
            a.memo,
            a.hints,
            pos,
            player,
            first_depth(a.warm, max_depth),
            max_depth,
            None,
        ) == deepen(
            b.keys,
            b.memo,
            b.hints,
            pos,
            player,
            first_depth(b.warm, max_depth),
            max_depth,
            None,
        ),
{
    assert(a.keys =~= b.keys);
}

} // verus!
