use flipboard::init_zobrist;
use flipboard::search::INFINITY;
use flipboard::Board;
use flipboard::Cell;
use flipboard::Solver;
use flipboard::Zobrist;

fn place(b: &Board, c: usize, player: usize, z: &Zobrist) -> Board {
    assert_eq!(b.cell(c), Cell::Empty);
    let before = (0..c).filter(|&i| b.cell(i) == Cell::Empty).count();
    b.moves(player, z)[before]
}

fn board_of(pieces: &[(usize, usize)], z: &Zobrist) -> Board {
    let mut b = Board::new();
    for &(c, p) in pieces {
        b = place(&b, c, p, z);
    }
    b
}

/// Two threats: player 0 lacks cell 6, player 1 lacks cell 22.
fn two_threats(z: &Zobrist) -> Board {
    board_of(&[(1, 0), (5, 0), (7, 0), (17, 1), (21, 1), (23, 1)], z)
}

fn terminal_board(z: &Zobrist) -> Board {
    let mut b = Board::new();
    let mut turn = 0usize;
    loop {
        let succ = b.moves(turn & 1, z);
        if succ.is_empty() {
            return b;
        }
        b = succ[succ.len() / 2];
        turn += 1;
    }
}

/// The value of a node by full search: no window, no table.
fn negamax(b: &Board, player: usize, depth: i32, z: &Zobrist) -> i32 {
    if depth == 0 {
        return b.score() * (1 - 2 * player as i32);
    }
    let succ = b.moves(player, z);
    if succ.is_empty() {
        return b.score() * (1 - 2 * player as i32);
    }
    let mut best = i32::MIN;
    for s in succ.iter() {
        best = best.max(-negamax(s, 1 - player, depth - 1, z));
    }
    best
}

#[test]
fn solver_holds_the_seeded_keys() {
    let solver = Solver::default();
    let z = init_zobrist();
    for cell in 0..25usize {
        for tag in 0..4u8 {
            assert_eq!(solver.zobrist().key(cell, tag), z.key(cell, tag));
        }
    }
}

#[test]
fn leaf_has_its_score_for_the_player_to_move() {
    let z = init_zobrist();
    let b = board_of(&[(1, 0), (5, 0), (7, 0), (6, 0)], &z);
    assert_eq!(b.score(), 1001);
    let mut solver = Solver::default();
    assert_eq!(solver.minimax(&b, 0, 0, -INFINITY, INFINITY), (1001, None));
    assert_eq!(solver.minimax(&b, 1, 0, -INFINITY, INFINITY), (-1001, None));
}

#[test]
fn one_ply_takes_the_best_placement() {
    let z = init_zobrist();
    let b = two_threats(&z);
    let mut solver = Solver::default();
    let (score, best) = solver.minimax(&b, 0, 1, -INFINITY, INFINITY);
    assert_eq!(score, 1001);
    assert_eq!(best, Some(place(&b, 6, 0, &z)));
    let mut solver = Solver::default();
    let (score, best) = solver.minimax(&b, 1, 1, -INFINITY, INFINITY);
    assert_eq!(score, 1001);
    assert_eq!(best, Some(place(&b, 22, 1, &z)));
}

#[test]
fn ties_go_to_the_first_move() {
    let z = init_zobrist();
    let b = Board::new();
    let mut solver = Solver::default();
    let (score, best) = solver.minimax(&b, 0, 1, -INFINITY, INFINITY);
    assert_eq!(score, 0);
    assert_eq!(best, Some(b.moves(0, &z)[0]));
}

#[test]
fn pruned_search_agrees_with_full_search() {
    let z = init_zobrist();
    let boards = [
        Board::new(),
        board_of(&[(12, 0)], &z),
        board_of(&[(0, 0), (24, 1)], &z),
        board_of(&[(6, 0), (7, 1), (8, 0)], &z),
        board_of(&[(1, 0), (5, 0), (7, 0)], &z),
    ];
    for b in boards.iter() {
        for player in 0..2 {
            for depth in 0..4 {
                let mut solver = Solver::default();
                let (score, _) = solver.minimax(b, player, depth, -INFINITY, INFINITY);
                assert_eq!(score, negamax(b, player, depth, &z), "depth {}", depth);
            }
        }
    }
}

#[test]
fn pruned_search_agrees_with_full_search_on_a_crowded_board() {
    let z = init_zobrist();
    let b = two_threats(&z);
    for player in 0..2 {
        for depth in 0..3 {
            let mut solver = Solver::default();
            let (score, _) = solver.minimax(&b, player, depth, -INFINITY, INFINITY);
            assert_eq!(score, negamax(&b, player, depth, &z), "depth {}", depth);
        }
    }
}

#[test]
fn best_move_is_a_legal_move_with_the_score_found() {
    let z = init_zobrist();
    let b = two_threats(&z);
    for player in 0..2 {
        for depth in 1..3 {
            let mut solver = Solver::default();
            let (score, best) = solver.minimax(&b, player, depth, -INFINITY, INFINITY);
            let best = best.unwrap();
            assert!(b.moves(player, &z).contains(&best));
            assert_eq!(score, -negamax(&best, 1 - player, depth - 1, &z));
        }
    }
}

#[test]
fn solve_answers_alike_on_fresh_solvers() {
    let z = init_zobrist();
    let b = two_threats(&z);
    for player in 0..2 {
        for depth in 1..4 {
            let first = Solver::default().solve(&b, player, depth);
            let second = Solver::default().solve(&b, player, depth);
            assert!(first.is_some());
            assert_eq!(first, second);
            assert!(b.moves(player, &z).contains(&first.unwrap()));
        }
    }
}

#[test]
fn solve_gives_what_the_search_of_the_last_depth_gives() {
    let z = init_zobrist();
    let b = two_threats(&z);
    for depth in 1..4 {
        let solved = Solver::default().solve(&b, 0, depth);
        let (_, best) = Solver::default().minimax(&b, 0, depth, -INFINITY, INFINITY);
        assert_eq!(solved, best);
    }
}

#[test]
fn solve_at_depth_zero_finds_nothing() {
    let z = init_zobrist();
    let b = two_threats(&z);
    assert_eq!(Solver::default().solve(&b, 0, 0), None);
}

#[test]
fn solve_finds_nothing_where_no_move_is_left() {
    let z = init_zobrist();
    let b = terminal_board(&z);
    assert!(b.moves(0, &z).is_empty());
    assert!(b.moves(1, &z).is_empty());
    for player in 0..2 {
        let mut solver = Solver::default();
        assert_eq!(solver.solve(&b, player, 3), None);
    }
}

#[test]
fn node_without_a_move_has_its_score_for_the_player_to_move() {
    let z = init_zobrist();
    let b = terminal_board(&z);
    assert!(b.moves(0, &z).is_empty());
    assert!(b.moves(1, &z).is_empty());
    assert_ne!(b.score(), 0);
    for depth in 1..4 {
        let mut solver = Solver::default();
        assert_eq!(solver.minimax(&b, 0, depth, -INFINITY, INFINITY), (b.score(), None));
        let mut solver = Solver::default();
        assert_eq!(solver.minimax(&b, 1, depth, -INFINITY, INFINITY), (-b.score(), None));
        // no successor is searched, so any window will do
        let mut solver = Solver::default();
        assert_eq!(solver.minimax(&b, 1, depth, i32::MIN, i32::MIN), (-b.score(), None));
    }
}

#[test]
fn search_values_the_end_of_the_game_for_the_player_to_move() {
    let z = init_zobrist();
    // one ply before the end: the only moves lead to boards without a move
    let mut b = Board::new();
    let mut turn = 0usize;
    loop {
        let succ = b.moves(turn & 1, &z);
        let next = succ[succ.len() / 2];
        if next.moves(0, &z).is_empty() {
            break;
        }
        b = next;
        turn += 1;
    }
    let player = turn & 1;
    for depth in 1..4 {
        let mut solver = Solver::default();
        let (score, _) = solver.minimax(&b, player, depth, -INFINITY, INFINITY);
        assert_eq!(score, negamax(&b, player, depth, &z), "depth {}", depth);
    }
}

#[test]
fn leaf_and_known_node_take_any_window() {
    let z = init_zobrist();
    let b = two_threats(&z);
    let mut solver = Solver::default();
    assert_eq!(solver.minimax(&b, 0, 0, i32::MIN, i32::MIN), (0, None));
    assert_eq!(solver.minimax(&b, 1, 0, i32::MAX, i32::MIN), (0, None));
    let found = solver.minimax(&b, 0, 2, -INFINITY, INFINITY);
    assert_eq!(solver.minimax(&b, 0, 2, i32::MIN, i32::MIN), found);
    assert_eq!(solver.minimax(&b, 0, 5, i32::MIN, i32::MAX), found);
}

#[test]
fn known_node_is_answered_from_the_table() {
    let z = init_zobrist();
    let b = two_threats(&z);
    let shallow = Solver::default().minimax(&b, 0, 1, -INFINITY, INFINITY);
    let mut solver = Solver::default();
    let deep = solver.minimax(&b, 0, 2, -INFINITY, INFINITY);
    assert_eq!(shallow.0, 1001);
    assert_ne!(deep.0, shallow.0);
    // the node is in the table now, so the depth and the window no longer matter
    assert_eq!(solver.minimax(&b, 0, 1, -INFINITY, INFINITY), deep);
    assert_eq!(solver.minimax(&b, 0, 3, -5, 5), deep);
    // the other side to move is another node
    let other = solver.minimax(&b, 1, 1, -INFINITY, INFINITY);
    assert_eq!(other, Solver::default().minimax(&b, 1, 1, -INFINITY, INFINITY));
}

#[test]
fn solve_leaves_the_running_table_empty() {
    let z = init_zobrist();
    let b = two_threats(&z);
    let mut solver = Solver::default();
    let deep = solver.solve(&b, 0, 2);
    assert!(deep.is_some());
    // a search of one ply is not answered with what the two plies found
    let (score, best) = solver.minimax(&b, 0, 1, -INFINITY, INFINITY);
    assert_eq!(score, 1001);
    assert_eq!(best, Some(place(&b, 6, 0, &z)));
}

#[test]
fn hint_is_searched_first() {
    let z = init_zobrist();
    let b = Board::new();
    let mut solver = Solver::default();
    // every first move scores alike; the search keeps the first candidate
    let first = solver.solve(&b, 0, 1);
    assert_eq!(first, Some(b.moves(0, &z)[0]));
    let again = solver.solve(&b, 0, 1);
    assert_eq!(again, first);
    // a window that the first candidate already fills cuts the others off
    let mut solver = Solver::default();
    let (score, best) = solver.minimax(&b, 0, 1, -INFINITY, 0);
    assert_eq!((score, best), (0, Some(b.moves(0, &z)[0])));
}

#[test]
fn window_cuts_the_search_short() {
    let z = init_zobrist();
    let b = two_threats(&z);
    // the placement in cell 0 gives that cell two neighbours: it scores 1, which
    // is past the upper end
    let mut solver = Solver::default();
    let (score, best) = solver.minimax(&b, 0, 1, -INFINITY, 0);
    assert_eq!(score, 1);
    assert_eq!(best, Some(place(&b, 0, 0, &z)));
    // with the upper end at 1000 the search goes on to the placement in cell 6
    let mut solver = Solver::default();
    let (score, best) = solver.minimax(&b, 0, 1, -INFINITY, 1000);
    assert_eq!(score, 1001);
    assert_eq!(best, Some(place(&b, 6, 0, &z)));
}

#[test]
fn deepening_starts_at_four_plies() {
    let z = init_zobrist();
    let b = two_threats(&z);
    let mut solver = Solver::default();
    let solved = solver.solve(&b, 0, 4);
    let (_, best) = Solver::default().minimax(&b, 0, 4, -INFINITY, INFINITY);
    assert_eq!(solved, best);
    assert!(b.moves(0, &z).contains(&solved.unwrap()));
}
