//! The solver: alpha-beta search with two transposition tables, driven by
//! iterative deepening.

use vstd::prelude::*;
use crate::board::{all_consistent, all_wf, positions, Board, SCORE_MAX};
use crate::rules::Position;
use crate::search::{
    candidates, deepen, expands, first_depth, others, scan, search, signed_score, Entry, Outcome,
    INFINITY, PLAYER_HASH, START_DEPTH,
};
use crate::table::{table_clear, table_entries, table_get, table_insert, table_new, Slot, Table};
use crate::zobrist::{init_zobrist, seeded_draw, Zobrist, ZOBRIST_SEED};

verus! {

/// The position of a board that may be missing.
pub open spec fn option_view(b: Option<Board>) -> Option<Position> {
    match b {
        Some(x) => Some(x@),
        None => None,
    }
}

/// What a stored slot says, on positions.
pub open spec fn slot_view(s: Slot) -> Entry {
    Entry { score: s.0 as int, best: option_view(s.1) }
}

/// What a table says, on positions.
pub open spec fn slots_view(m: Map<u64, Slot>) -> Map<u64, Entry> {
    Map::new(|k: u64| m.dom().contains(k), |k: u64| slot_view(m[k]))
}

/// A slot holds a score that a position can have, and a well-formed board that
/// has the hash of its cells.
pub open spec fn slot_wf(s: Slot, z: Seq<u64>) -> bool {
    &&& -SCORE_MAX <= s.0 <= SCORE_MAX
    &&& s.1 matches Some(b) ==> b.wf() && b@.consistent(z)
}

/// Every slot of a table is well formed.
pub open spec fn slots_wf(m: Map<u64, Slot>, z: Seq<u64>) -> bool {
    forall|k: u64| m.dom().contains(k) ==> slot_wf(#[trigger] m[k], z)
}

/// What a solver knows, on positions.
pub struct SolverState {
    /// The table of the running search. Empty between two calls of `solve`.
    pub memo: Map<u64, Entry>,
    /// The table of the search before, which gives the moves to try first.
    pub hints: Map<u64, Entry>,
    /// Whether `solve` has run before.
    pub warm: bool,
    /// The key table.
    pub keys: Seq<u64>,
}

/// The search engine. It owns the key table and the two transposition tables.
pub struct Solver {
    cache: Table,
    old_cache: Table,
    use_old_cache: bool,
    zobrist: Zobrist,
}

impl View for Solver {
    type V = SolverState;

    closed spec fn view(&self) -> SolverState {
        SolverState {
            memo: slots_view(table_entries(self.cache)),
            hints: slots_view(table_entries(self.old_cache)),
            warm: self.use_old_cache,
            keys: self.zobrist@,
        }
    }
}

/// The candidates of a node in the order of search: the hint, then the moves
/// that differ from it.
fn order_candidates(hint: Option<Board>, moves: Vec<Board>) -> (r: Vec<Board>)
    requires
        all_wf(moves@),
        hint matches Some(h) ==> h.wf(),
    ensures
        all_wf(r@),
        positions(r@) == candidates(option_view(hint), positions(moves@)),
        forall|k: int|
            0 <= k < r@.len() ==> hint == Some(#[trigger] r@[k]) || moves@.contains(r@[k]),
{
    match hint {
        None => moves,
        Some(h) => {
            let mut out: Vec<Board> = Vec::new();
            out.push(h);
            let mut k: usize = 0;
            while k < moves.len()
                invariant
                    k <= moves.len(),
                    all_wf(out@),
                    all_wf(moves@),
                    h.wf(),
                    positions(out@) == seq![h@] + others(positions(moves@), h@, k as int),
                    forall|j: int|
                        0 <= j < out@.len() ==> h == #[trigger] out@[j] || moves@.contains(out@[j]),
                decreases moves.len() - k,
            {
                let m: Board = moves[k];
                proof {
                    if m@ == h@ {
                        Board::lemma_view_injective(m, h);
                    }
                }
                if !(m == h) {
                    let ghost before = out@;
                    out.push(m);
                    assert(positions(before).push(m@) =~= seq![h@] + others(
                        positions(moves@),
                        h@,
                        k as int,
                    ).push(m@));
                }
                k += 1;
            }
            out
        },
    }
}

/// The score of a board for the player to move: the score as it is for
/// player 0, its negation for player 1.
fn leaf_score(b: &Board, player: usize) -> (s: i32)
    requires
        b.wf(),
        player < 2,
    ensures
        s == signed_score(b@, player),
        -SCORE_MAX <= s <= SCORE_MAX,
{
    let s: i32 = b.score();
    let sign: i32 = 1 - 2 * (player as i32);
    assert(s * sign == signed_score(b@, player)) by (nonlinear_arith)
        requires
            sign == 1 - 2 * player,
            player < 2,
            s == b@.score(),
    ;
    s * sign
}

impl Solver {
    /// The key table is complete, and every slot of the two tables holds a score
    /// that a position can have and a well-formed board with the hash of its
    /// cells.
    pub closed spec fn wf(&self) -> bool {
        &&& self.zobrist.wf()
        &&& slots_wf(table_entries(self.cache), self.zobrist@)
        &&& slots_wf(table_entries(self.old_cache), self.zobrist@)
    }

    /// The key table of the solver.
    pub fn zobrist(&self) -> (z: &Zobrist)
        requires
            self.wf(),
        ensures
            z.wf(),
            z@ == self@.keys,
    {
        &self.zobrist
    }

    /// Searches the node `b` with `player` to move, `depth` plies deep, within
    /// the window from `alpha` to `beta`. Returns the score of the node for
    /// `player` and the best successor found.
    ///
    /// The result and the table afterwards are exactly those of `search`. A node
    /// that the running table knows is not searched again; a node that it does
    /// not know is stored with its result. A node at depth zero, and one without
    /// a candidate, is a leaf: it has its score for the player to move.
    ///
    /// The board has the hash of its cells, and so has every node that the
    /// search visits. The ends of the window are negated only where a successor
    /// is searched, and only then must they not be `i32::MIN`.
    pub fn minimax(&mut self, b: &Board, player: usize, depth: i32, alpha: i32, beta: i32) -> (r: (
        i32,
        Option<Board>,
    ))
        requires
            old(self).wf(),
            b.wf(),
            b@.consistent(old(self)@.keys),
            player < 2,
            depth >= 0,
            expands(
                old(self)@.keys,
                old(self)@.memo,
                old(self)@.hints,
                b@,
                player,
                depth as nat,
            ) ==> alpha > i32::MIN && beta > i32::MIN,
        ensures
            final(self).wf(),
            final(self)@.hints == old(self)@.hints,
            final(self)@.warm == old(self)@.warm,
            final(self)@.keys == old(self)@.keys,
            ({
                let found = search(
                    old(self)@.keys,
                    old(self)@.memo,
                    old(self)@.hints,
                    b@,
                    player,
                    depth as nat,
                    alpha as int,
                    beta as int,
                );
                &&& final(self)@.memo == found.memo
                &&& r.0 == found.score
                &&& option_view(r.1) == found.best
            }),
            -SCORE_MAX <= r.0 <= SCORE_MAX,
            r.1 matches Some(m) ==> m.wf() && m@.consistent(old(self)@.keys),
        decreases depth,
    {
        let ghost z = self@.keys;
        let ghost memo0 = self@.memo;
        let ghost hints = self@.hints;
        let ghost warm = self@.warm;
        if depth == 0 {
            return (leaf_score(b, player), None);
        }
        let bhash: u64 = b.incremental_hash() ^ PLAYER_HASH * (player as u64);
        match table_get(&self.cache, bhash) {
            Some(slot) => {
                return (slot.0, slot.1);
            },
            None => {},
        }
        let prev_best: Option<Board> = match table_get(&self.old_cache, bhash) {
            Some(slot) => slot.1,
            None => None,
        };
        let cands: Vec<Board> = order_candidates(prev_best, b.moves(player, &self.zobrist));
        let ghost lined = positions(cands@);
        // what the scan of all candidates will give; the loop keeps what is left
        // of the scan equal to it
        let ghost total = scan(
            z,
            memo0,
            hints,
            lined,
            0,
            player,
            depth as nat,
            alpha as int,
            beta as int,
            0,
            None,
        );
        let mut best_so_far: i32 = 0;
        let mut best_board: Option<Board> = None;
        let mut alpha: i32 = alpha;
        let mut k: usize = 0;
        while k < cands.len()
            invariant_except_break
                k <= cands.len(),
                scan(
                    z,
                    self@.memo,
                    hints,
                    lined,
                    k as int,
                    player,
                    depth as nat,
                    alpha as int,
                    beta as int,
                    best_so_far as int,
                    option_view(best_board),
                ) == total,
            invariant
                self.wf(),
                self@.hints == hints,
                self@.warm == warm,
                self@.keys == z,
                all_wf(cands@),
                all_consistent(cands@, z),
                positions(cands@) == lined,
                player < 2,
                depth > 0,
                cands@.len() > 0 ==> alpha > i32::MIN && beta > i32::MIN,
                -SCORE_MAX <= best_so_far <= SCORE_MAX,
                best_board matches Some(m) ==> m.wf() && m@.consistent(z),
            ensures
                (Outcome {
                    memo: self@.memo,
                    score: best_so_far as int,
                    best: option_view(best_board),
                }) == total,
            decreases cands.len() - k,
        {
            let board: Board = cands[k];
            let s: i32 = -self.minimax(&board, 1 - player, depth - 1, -beta, -alpha).0;
            if best_board.is_none() || s > best_so_far {
                best_so_far = s;
                best_board = Some(board);
            }
            if s > alpha {
                alpha = s;
            }
            if alpha >= beta {
                break ;
            }
            k += 1;
        }
        if best_board.is_none() {
            best_so_far = leaf_score(b, player);
        }
        table_insert(&mut self.cache, bhash, (best_so_far, best_board));
        (best_so_far, best_board)
    }

    /// Picks the move of `player` on the board `b` by iterative deepening up to
    /// `max_depth` plies. Returns the best successor that the deepest search
    /// found, or nothing.
    ///
    /// A solver that has not run before starts at depth `START_DEPTH`, or at
    /// `max_depth` where that is less; one that has run starts at `max_depth`,
    /// with the hints that the last call left. Each search starts with an empty
    /// table and takes its hints from the search before it.
    pub fn solve(&mut self, b: &Board, player: usize, max_depth: i32) -> (r: Option<Board>)
        requires
            old(self).wf(),
            b.wf(),
            b@.consistent(old(self)@.keys),
            player < 2,
            max_depth >= 0,
        ensures
            final(self).wf(),
            final(self)@.warm,
            final(self)@.keys == old(self)@.keys,
            final(self)@.memo == Map::<u64, Entry>::empty(),
            ({
                let found = deepen(
                    old(self)@.keys,
                    old(self)@.memo,
                    old(self)@.hints,
                    b@,
                    player,
                    first_depth(old(self)@.warm, max_depth as int),
                    max_depth as int,
                    None,
                );
                &&& final(self)@.hints == found.memo
                &&& option_view(r) == found.best
            }),
            r matches Some(m) ==> m.wf() && m@.consistent(old(self)@.keys),
    {
        let ghost z = self@.keys;
        let mut res: Option<Board> = None;
        let start_depth: i32 = if self.use_old_cache || max_depth < START_DEPTH {
            max_depth
        } else {
            START_DEPTH
        };
        let ghost total = deepen(
            z,
            self@.memo,
            self@.hints,
            b@,
            player,
            start_depth as int,
            max_depth as int,
            None,
        );
        let mut depth: i32 = start_depth;
        let mut done: bool = false;
        while !done
            invariant
                self.wf(),
                self@.keys == z,
                b.wf(),
                b@.consistent(z),
                player < 2,
                0 <= depth <= max_depth,
                res matches Some(m) ==> m.wf() && m@.consistent(z),
                !done ==> deepen(
                    z,
                    self@.memo,
                    self@.hints,
                    b@,
                    player,
                    depth as int,
                    max_depth as int,
                    option_view(res),
                ) == total,
                done ==> self@.memo == Map::<u64, Entry>::empty() && (Outcome {
                    memo: self@.hints,
                    score: 0,
                    best: option_view(res),
                }) == total,
            decreases max_depth - depth + (if done { 0int } else { 1int }),
        {
            let (_s, br) = self.minimax(b, player, depth, -INFINITY, INFINITY);
            res = br;
            std::mem::swap(&mut self.cache, &mut self.old_cache);
            table_clear(&mut self.cache);
            assert(self@.memo =~= Map::<u64, Entry>::empty());
            if depth >= max_depth {
                assert(deepen(
                    z,
                    self@.memo,
                    self@.hints,
                    b@,
                    player,
                    depth + 1,
                    max_depth as int,
                    option_view(res),
                ) == (Outcome { memo: self@.hints, score: 0, best: option_view(res) }));
                done = true;
            } else {
                depth += 1;
            }
        }
        self.use_old_cache = true;
        res
    }
}

impl Default for Solver {
    /// A solver that has not run: empty tables, and the key table of
    /// `init_zobrist`.
    fn default() -> (s: Solver)
        ensures
            s.wf(),
            s@.memo == Map::<u64, Entry>::empty(),
            s@.hints == Map::<u64, Entry>::empty(),
            !s@.warm,
            s@.keys.len() == 100,
            forall|k: int| 0 <= k < 100 ==> #[trigger] s@.keys[k] == seeded_draw(ZOBRIST_SEED, k as nat),
    {
        let s = Solver {
            cache: table_new(),
            old_cache: table_new(),
            use_old_cache: false,
            zobrist: init_zobrist(),
        };
        s
    }
}

} // verus!
