//! The alpha-beta window against full search.
//!
//! The window alone never changes what a search finds: as long as the tables
//! stay silent, a search returns the value of full search wherever that value
//! lies inside the window, and a bound on it on the side where it lies outside.
//! Only an answer from a table, which may have been found under another window or
//! at another depth, can make the two differ.

use vstd::prelude::*;
use crate::rules::Position;
use crate::board::SCORE_MAX;
use crate::laws::lemma_score_bound;
use crate::search::{
    candidates, hint_of, node_key, opponent, scan, search, signed_score, Entry, INFINITY,
};

verus! {

/// The value of a node by full search, `depth` plies deep: the signed score of a
/// leaf, which a node at depth zero is and a node without a move, and else the
/// best of the negated values of the successors.
pub open spec fn exact(z: Seq<u64>, pos: Position, player: usize, depth: nat) -> int
    decreases depth, 1nat, 0nat,
{
    if depth == 0 {
        signed_score(pos, player)
    } else {
        let succ = pos.successors(player, z);
        if succ.len() == 0 {
            signed_score(pos, player)
        } else {
            best_reply(z, succ, player, depth, succ.len() as int)
        }
    }
}

/// The best, for `player`, of the negated values of the first `n` successors,
/// each searched in full one ply less deep.
pub open spec fn best_reply(
    z: Seq<u64>,
    succ: Seq<Position>,
    player: usize,
    depth: nat,
    n: int,
) -> int
    decreases depth, 0nat, n,
{
    if depth == 0 || n <= 0 {
        0
    } else {
        let v = -exact(z, succ[n - 1], opponent(player), (depth - 1) as nat);
        if n == 1 {
            v
        } else {
            let b = best_reply(z, succ, player, depth, n - 1);
            if v > b {
                v
            } else {
                b
            }
        }
    }
}

/// Whether neither table knows a node: the running table does not hold its key,
/// and the table of the previous search gives no move for it.
pub open spec fn unknown(
    memo: Map<u64, Entry>,
    hints: Map<u64, Entry>,
    pos: Position,
    player: usize,
) -> bool {
    &&& !memo.dom().contains(node_key(pos, player))
    &&& hint_of(hints, node_key(pos, player)) is None
}

/// Whether the tables stay silent in the search of a node: neither this search
/// nor any search it runs finds its node in the running table, or a move for it
/// in the table of the previous search.
pub open spec fn quiet(
    z: Seq<u64>,
    memo: Map<u64, Entry>,
    hints: Map<u64, Entry>,
    pos: Position,
    player: usize,
    depth: nat,
    alpha: int,
    beta: int,
) -> bool
    decreases depth, 1nat, 0nat,
{
    depth == 0 || {
        &&& unknown(memo, hints, pos, player)
        &&& quiet_scan(z, memo, hints, pos.successors(player, z), 0, player, depth, alpha, beta)
    }
}

/// Whether the tables stay silent in the searches of the candidates from the
/// `k`-th on, as far as the window lets the scan go.
pub open spec fn quiet_scan(
    z: Seq<u64>,
    memo: Map<u64, Entry>,
    hints: Map<u64, Entry>,
    cands: Seq<Position>,
    k: int,
    player: usize,
    depth: nat,
    alpha: int,
    beta: int,
) -> bool
    decreases depth, 0nat, cands.len() - k,
{
    depth == 0 || k < 0 || k >= cands.len() || {
        let child = search(
            z,
            memo,
            hints,
            cands[k],
            opponent(player),
            (depth - 1) as nat,
            -beta,
            -alpha,
        );
        let s = -child.score;
        let alpha1 = if s > alpha { s } else { alpha };
        &&& quiet(z, memo, hints, cands[k], opponent(player), (depth - 1) as nat, -beta, -alpha)
        &&& alpha1 >= beta || quiet_scan(
            z,
            child.memo,
            hints,
            cands,
            k + 1,
            player,
            depth,
            alpha1,
            beta,
        )
    }
}

/// What a score `found` under the window from `alpha` to `beta` says of the
/// value `full`: the value itself inside the window, an upper bound at or below
/// the lower end, a lower bound at or above the upper end.
pub open spec fn tells(found: int, full: int, alpha: int, beta: int) -> bool {
    &&& found <= alpha ==> full <= found
    &&& found >= beta ==> full >= found
    &&& alpha < found < beta ==> full == found
}

/// The value of full search is at most `SCORE_MAX` either way.
pub proof fn lemma_exact_bound(z: Seq<u64>, pos: Position, player: usize, depth: nat)
    ensures
        -SCORE_MAX <= exact(z, pos, player, depth) <= SCORE_MAX,
    decreases depth, 1nat, 0nat,
{
    lemma_score_bound(pos);
    if depth > 0 {
        let succ = pos.successors(player, z);
        if succ.len() > 0 {
            lemma_best_reply_bound(z, succ, player, depth, succ.len() as int);
        }
    }
}

proof fn lemma_best_reply_bound(z: Seq<u64>, succ: Seq<Position>, player: usize, depth: nat, n: int)
    requires
        depth > 0,
        1 <= n,
    ensures
        -SCORE_MAX <= best_reply(z, succ, player, depth, n) <= SCORE_MAX,
    decreases depth, 0nat, n,
{
    lemma_exact_bound(z, succ[n - 1], opponent(player), (depth - 1) as nat);
    if n > 1 {
        lemma_best_reply_bound(z, succ, player, depth, n - 1);
    }
}

proof fn lemma_best_reply_max(
    z: Seq<u64>,
    succ: Seq<Position>,
    player: usize,
    depth: nat,
    m: int,
    n: int,
)
    requires
        depth > 0,
        1 <= m <= n,
    ensures
        best_reply(z, succ, player, depth, m) <= best_reply(z, succ, player, depth, n),
        -exact(z, succ[m - 1], opponent(player), (depth - 1) as nat) <= best_reply(
            z,
            succ,
            player,
            depth,
            n,
        ),
    decreases n - m,
{
    if m < n {
        lemma_best_reply_max(z, succ, player, depth, m, n - 1);
    }
}

proof fn lemma_search_tells(
    z: Seq<u64>,
    memo: Map<u64, Entry>,
    hints: Map<u64, Entry>,
    pos: Position,
    player: usize,
    depth: nat,
    alpha: int,
    beta: int,
)
    requires
        alpha < beta,
        quiet(z, memo, hints, pos, player, depth, alpha, beta),
    ensures
        tells(
            search(z, memo, hints, pos, player, depth, alpha, beta).score,
            exact(z, pos, player, depth),
            alpha,
            beta,
        ),
    decreases depth, 1nat, 0nat,
{
    if depth > 0 {
        let succ = pos.successors(player, z);
        if succ.len() > 0 {
            lemma_scan_tells(z, memo, hints, succ, 0, player, depth, alpha, alpha, beta, 0, None);
        }
    }
}

proof fn lemma_scan_tells(
    z: Seq<u64>,
    memo: Map<u64, Entry>,
    hints: Map<u64, Entry>,
    cands: Seq<Position>,
    k: int,
    player: usize,
    depth: nat,
    low: int,
    alpha: int,
    beta: int,
    score: int,
    best: Option<Position>,
)
    requires
        depth > 0,
        0 <= k <= cands.len(),
        cands.len() > 0,
        low <= alpha < beta,
        quiet_scan(z, memo, hints, cands, k, player, depth, alpha, beta),
        best is None ==> k == 0 && alpha == low,
        best is Some ==> {
            &&& k > 0
            &&& score < beta
            &&& alpha == if score > low { score } else { low }
            &&& score <= low ==> best_reply(z, cands, player, depth, k) <= score
            &&& score > low ==> best_reply(z, cands, player, depth, k) == score
        },
    ensures
        scan(z, memo, hints, cands, k, player, depth, alpha, beta, score, best).best is Some,
        tells(
            scan(z, memo, hints, cands, k, player, depth, alpha, beta, score, best).score,
            best_reply(z, cands, player, depth, cands.len() as int),
            low,
            beta,
        ),
    decreases depth, 0nat, cands.len() - k,
{
    let n = cands.len() as int;
    if k < n {
        let child = search(
            z,
            memo,
            hints,
            cands[k],
            opponent(player),
            (depth - 1) as nat,
            -beta,
            -alpha,
        );
        lemma_search_tells(
            z,
            memo,
            hints,
            cands[k],
            opponent(player),
            (depth - 1) as nat,
            -beta,
            -alpha,
        );
        let s = -child.score;
        let value = -exact(z, cands[k], opponent(player), (depth - 1) as nat);
        let better = best is None || s > score;
        let score1 = if better { s } else { score };
        let best1 = if better { Some(cands[k]) } else { best };
        let alpha1 = if s > alpha { s } else { alpha };
        lemma_best_reply_max(z, cands, player, depth, k + 1, n);
        if alpha1 < beta {
            lemma_scan_tells(
                z,
                child.memo,
                hints,
                cands,
                k + 1,
                player,
                depth,
                low,
                alpha1,
                beta,
                score1,
                best1,
            );
        }
    }
}

/// Alpha-beta equivalence, within a window: while the tables stay silent, the
/// score that a search returns is the value of full search where it lies inside
/// the window; at or below the lower end it is an upper bound of that value, at
/// or above the upper end a lower bound.
pub proof fn lemma_pruning_is_sound(
    z: Seq<u64>,
    memo: Map<u64, Entry>,
    hints: Map<u64, Entry>,
    pos: Position,
    player: usize,
    depth: nat,
    alpha: int,
    beta: int,
)
    requires
        alpha < beta,
        quiet(z, memo, hints, pos, player, depth, alpha, beta),
    ensures
        tells(
            search(z, memo, hints, pos, player, depth, alpha, beta).score,
            exact(z, pos, player, depth),
            alpha,
            beta,
        ),
{
    lemma_search_tells(z, memo, hints, pos, player, depth, alpha, beta);
}

/// Alpha-beta equivalence: while the tables stay silent, a search with the
/// widest window returns the value of full search.
pub proof fn lemma_pruning_is_exact(
    z: Seq<u64>,
    memo: Map<u64, Entry>,
    hints: Map<u64, Entry>,
    pos: Position,
    player: usize,
    depth: nat,
)
    requires
        quiet(z, memo, hints, pos, player, depth, -INFINITY, INFINITY as int),
    ensures
        search(z, memo, hints, pos, player, depth, -INFINITY, INFINITY as int).score == exact(
            z,
            pos,
            player,
            depth,
        ),
{
    lemma_search_tells(z, memo, hints, pos, player, depth, -INFINITY, INFINITY as int);
    lemma_exact_bound(z, pos, player, depth);
}

proof fn lemma_leaves_are_quiet(
    z: Seq<u64>,
    memo: Map<u64, Entry>,
    hints: Map<u64, Entry>,
    cands: Seq<Position>,
    k: int,
    player: usize,
    alpha: int,
    beta: int,
)
    requires
        0 <= k,
    ensures
        quiet_scan(z, memo, hints, cands, k, player, 1, alpha, beta),
    decreases cands.len() - k,
{
    if k < cands.len() {
        let child = search(z, memo, hints, cands[k], opponent(player), 0, -beta, -alpha);
        let s = -child.score;
        let alpha1 = if s > alpha { s } else { alpha };
        assert(quiet(z, memo, hints, cands[k], opponent(player), 0, -beta, -alpha));
        lemma_leaves_are_quiet(z, child.memo, hints, cands, k + 1, player, alpha1, beta);
    }
}

/// A search of one ply is exact: from a node that neither table knows, the
/// search with the widest window returns the value of full search, whatever
/// else the tables hold.
pub proof fn lemma_one_ply_is_exact(
    z: Seq<u64>,
    memo: Map<u64, Entry>,
    hints: Map<u64, Entry>,
    pos: Position,
    player: usize,
)
    requires
        unknown(memo, hints, pos, player),
    ensures
        search(z, memo, hints, pos, player, 1, -INFINITY, INFINITY as int).score == exact(
            z,
            pos,
            player,
            1,
        ),
{
    lemma_leaves_are_quiet(
        z,
        memo,
        hints,
        pos.successors(player, z),
        0,
        player,
        -INFINITY,
        INFINITY as int,
    );
    lemma_pruning_is_exact(z, memo, hints, pos, player, 1);
}

proof fn lemma_one_ply_scan_memo(
    z: Seq<u64>,
    memo: Map<u64, Entry>,
    hints: Map<u64, Entry>,
    cands: Seq<Position>,
    k: int,
    player: usize,
    alpha: int,
    beta: int,
    score: int,
    best: Option<Position>,
)
    requires
        0 <= k,
    ensures
        scan(z, memo, hints, cands, k, player, 1, alpha, beta, score, best).memo == memo,
    decreases cands.len() - k,
{
    if k < cands.len() {
        let child = search(z, memo, hints, cands[k], opponent(player), 0, -beta, -alpha);
        let s = -child.score;
        let better = best is None || s > score;
        let score1 = if better { s } else { score };
        let best1 = if better { Some(cands[k]) } else { best };
        let alpha1 = if s > alpha { s } else { alpha };
        if alpha1 < beta {
            lemma_one_ply_scan_memo(z, memo, hints, cands, k + 1, player, alpha1, beta, score1, best1);
        }
    }
}

proof fn lemma_two_ply_scan_is_quiet(
    z: Seq<u64>,
    memo: Map<u64, Entry>,
    hints: Map<u64, Entry>,
    succ: Seq<Position>,
    k: int,
    player: usize,
    alpha: int,
    beta: int,
)
    requires
        0 <= k,
        forall|i: int| k <= i < succ.len() ==> unknown(memo, hints, #[trigger] succ[i], opponent(player)),
        forall|i: int, j: int|
            k <= i < j < succ.len() ==> node_key(#[trigger] succ[i], opponent(player)) != node_key(
                #[trigger] succ[j],
                opponent(player),
            ),
    ensures
        quiet_scan(z, memo, hints, succ, k, player, 2, alpha, beta),
    decreases succ.len() - k,
{
    if k < succ.len() {
        let other = opponent(player);
        let child = search(z, memo, hints, succ[k], other, 1, -beta, -alpha);
        let s = -child.score;
        let alpha1 = if s > alpha { s } else { alpha };
        // the successor is unknown, and below it there are leaves only
        assert(unknown(memo, hints, succ[k], other));
        lemma_leaves_are_quiet(z, memo, hints, succ[k].successors(other, z), 0, other, -beta, -alpha);
        assert(quiet(z, memo, hints, succ[k], other, 1, -beta, -alpha));
        // its search stores this successor and nothing else
        lemma_one_ply_scan_memo(
            z,
            memo,
            hints,
            candidates(hint_of(hints, node_key(succ[k], other)), succ[k].successors(other, z)),
            0,
            other,
            -beta,
            -alpha,
            0,
            None,
        );
        assert forall|i: int| k + 1 <= i < succ.len() implies unknown(
            child.memo,
            hints,
            #[trigger] succ[i],
            other,
        ) by {
            assert(unknown(memo, hints, succ[i], other));
            assert(node_key(succ[k], other) != node_key(succ[i], other));
        }
        lemma_two_ply_scan_is_quiet(z, child.memo, hints, succ, k + 1, player, alpha1, beta);
    }
}

/// A search of two plies is exact: where neither table knows the node or one of
/// its successors, as with a solver that has not run, and no two successors
/// have the same key, the search with the widest window returns the value of
/// full search.
pub proof fn lemma_two_plies_are_exact(
    z: Seq<u64>,
    memo: Map<u64, Entry>,
    hints: Map<u64, Entry>,
    pos: Position,
    player: usize,
)
    requires
        unknown(memo, hints, pos, player),
        forall|i: int|
            0 <= i < pos.successors(player, z).len() ==> unknown(
                memo,
                hints,
                #[trigger] pos.successors(player, z)[i],
                opponent(player),
            ),
        forall|i: int, j: int|
            0 <= i < j < pos.successors(player, z).len() ==> node_key(
                #[trigger] pos.successors(player, z)[i],
                opponent(player),
            ) != node_key(#[trigger] pos.successors(player, z)[j], opponent(player)),
    ensures
        search(z, memo, hints, pos, player, 2, -INFINITY, INFINITY as int).score == exact(
            z,
            pos,
            player,
            2,
        ),
{
    lemma_two_ply_scan_is_quiet(
        z,
        memo,
        hints,
        pos.successors(player, z),
        0,
        player,
        -INFINITY,
        INFINITY as int,
    );
    lemma_pruning_is_exact(z, memo, hints, pos, player, 2);
}

} // verus!
