use flipboard::init_zobrist;
use flipboard::Board;
use flipboard::Cell;
use flipboard::Zobrist;

fn occupied(b: &Board) -> Vec<usize> {
    (0..25).filter(|&i| b.cell(i) != Cell::Empty).collect()
}

/// The successor of `b` in which `player` has placed a piece in cell `c`.
fn place(b: &Board, c: usize, player: usize, z: &Zobrist) -> Board {
    assert_eq!(b.cell(c), Cell::Empty);
    let before = (0..c).filter(|&i| b.cell(i) == Cell::Empty).count();
    b.moves(player, z)[before]
}

fn is_upright(b: &Board, i: usize) -> bool {
    matches!(b.cell(i), Cell::Upright(_))
}

/// The successor of `b` in which `player` has swapped cells `i` and `j`.
fn swap(b: &Board, i: usize, j: usize, player: usize, z: &Zobrist) -> Board {
    assert!(i < j && is_upright(b, i) && is_upright(b, j));
    let placements = (0..25).filter(|&k| b.cell(k) == Cell::Empty).count();
    let mut index = placements;
    for a in 0..25 {
        if !is_upright(b, a) {
            continue;
        }
        for c in a + 1..25 {
            if !is_upright(b, c) {
                continue;
            }
            if (a, c) == (i, j) {
                return b.moves(player, z)[index];
            }
            index += 1;
        }
    }
    unreachable!()
}

#[test]
fn empty_board_has_zero_score_and_hash() {
    let z = init_zobrist();
    let b = Board::new();
    assert_eq!(b.score(), 0);
    assert_eq!(b.score_one_player(0), 0);
    assert_eq!(b.score_one_player(1), 0);
    assert_eq!(b.incremental_hash(), 0);
    assert_eq!(b.hash(&z), 0);
    assert!(b.is_consistent(&z));
    assert!(occupied(&b).is_empty());
    assert_eq!(b.upright_mask(0), 0);
    assert_eq!(b.upright_mask(1), 0);
    assert_eq!(b.flipped_mask(0), 0);
    assert_eq!(b.flipped_mask(1), 0);
}

#[test]
fn first_move_is_one_of_25_placements() {
    let z = init_zobrist();
    let succ = Board::new().moves(0, &z);
    assert_eq!(succ.len(), 25);
    for (k, b) in succ.iter().enumerate() {
        assert_eq!(occupied(b), vec![k]);
        assert_eq!(b.cell(k), Cell::Upright(0));
        assert_eq!(b.upright_mask(0), 1 << k);
        assert_eq!(b.upright_mask(1), 0);
        assert_eq!(b.flipped_mask(0), 0);
        assert_eq!(b.flipped_mask(1), 0);
        assert_eq!(b.incremental_hash(), z.key(k, 0));
        assert_eq!(b.hash(&z), z.key(k, 0));
        assert_eq!(b.score(), 0);
    }
}

#[test]
fn first_move_of_player_one() {
    let z = init_zobrist();
    let succ = Board::new().moves(1, &z);
    assert_eq!(succ.len(), 25);
    for (k, b) in succ.iter().enumerate() {
        assert_eq!(occupied(b), vec![k]);
        assert_eq!(b.cell(k), Cell::Upright(1));
        assert_eq!(b.upright_mask(1), 1 << k);
        assert_eq!(b.upright_mask(0), 0);
        assert_eq!(b.incremental_hash(), z.key(k, 1));
    }
}

#[test]
fn one_piece_gives_no_swap() {
    let z = init_zobrist();
    let b = place(&Board::new(), 12, 0, &z);
    let succ = b.moves(1, &z);
    assert_eq!(succ.len(), 24);
    for s in succ.iter() {
        assert_eq!(occupied(s).len(), 2);
        assert_eq!(s.cell(12), Cell::Upright(0));
    }
}

#[test]
fn two_upright_pieces_give_one_swap() {
    let z = init_zobrist();
    let b = place(&place(&Board::new(), 0, 0, &z), 24, 1, &z);
    let succ = b.moves(0, &z);
    assert_eq!(succ.len(), 23 + 1);
    let swapped = succ[23];
    assert_eq!(swapped, swap(&b, 0, 24, 0, &z));
    assert_eq!(occupied(&swapped), vec![0, 24]);
}

#[test]
fn swap_of_two_owners_exchanges_them_and_flips_both() {
    let z = init_zobrist();
    let b = place(&place(&Board::new(), 0, 0, &z), 24, 1, &z);
    assert_eq!(b.incremental_hash(), z.key(0, 0) ^ z.key(24, 1));
    for player in 0..2 {
        let s = swap(&b, 0, 24, player, &z);
        assert_eq!(s.cell(0), Cell::Flipped(1));
        assert_eq!(s.cell(24), Cell::Flipped(0));
        assert_eq!(occupied(&s), vec![0, 24]);
        let delta = z.key(0, 0) ^ z.key(24, 2) ^ z.key(24, 1) ^ z.key(0, 3);
        assert_eq!(s.incremental_hash(), b.incremental_hash() ^ delta);
        assert_eq!(s.incremental_hash(), z.key(0, 3) ^ z.key(24, 2));
        assert_eq!(s.hash(&z), s.incremental_hash());
        assert_eq!(s.upright_mask(0), 0);
        assert_eq!(s.upright_mask(1), 0);
        assert_eq!(s.flipped_mask(0), 1 << 24);
        assert_eq!(s.flipped_mask(1), 1);
        assert!(s.moves(0, &z).len() == 23);
    }
}

#[test]
fn swap_of_one_owner_flips_both_and_keeps_the_owner() {
    let z = init_zobrist();
    let b = place(&place(&Board::new(), 3, 1, &z), 10, 1, &z);
    let s = swap(&b, 3, 10, 0, &z);
    assert_eq!(s.cell(3), Cell::Flipped(1));
    assert_eq!(s.cell(10), Cell::Flipped(1));
    let delta = z.key(3, 1) ^ z.key(10, 3) ^ z.key(10, 1) ^ z.key(3, 3);
    assert_eq!(s.incremental_hash(), b.incremental_hash() ^ delta);
    assert!(s.is_consistent(&z));
}

#[test]
fn piece_with_three_neighbours_flips() {
    let z = init_zobrist();
    let mut b = Board::new();
    for c in [1, 5, 7] {
        b = place(&b, c, 0, &z);
        assert_eq!(b.flipped_mask(0), 0);
    }
    b = place(&b, 6, 0, &z);
    assert_eq!(b.cell(6), Cell::Flipped(0));
    assert_eq!(b.cell(1), Cell::Upright(0));
    assert_eq!(b.cell(5), Cell::Upright(0));
    assert_eq!(b.cell(7), Cell::Upright(0));
    assert_eq!(b.flipped_mask(0), 1 << 6);
    assert_eq!(b.upright_mask(0), 1 << 1 | 1 << 5 | 1 << 7);
    assert_eq!(b.score_one_player(0), 1001);
    assert_eq!(b.score_one_player(1), 0);
    assert_eq!(b.score(), 1001);
    assert_eq!(
        b.incremental_hash(),
        z.key(1, 0) ^ z.key(5, 0) ^ z.key(7, 0) ^ z.key(6, 2)
    );
    assert!(b.is_consistent(&z));
}

#[test]
fn elbow_of_three_pieces_flips_nothing() {
    let z = init_zobrist();
    let mut b = Board::new();
    for c in [0, 1, 5] {
        b = place(&b, c, 1, &z);
    }
    assert_eq!(b.flipped_mask(1), 0);
    assert_eq!(b.upright_mask(1), 0b100011);
    assert_eq!(b.score_one_player(1), 1);
    assert_eq!(b.score(), -1);
}

#[test]
fn neighbours_of_the_other_owner_do_not_count() {
    let z = init_zobrist();
    let mut b = Board::new();
    b = place(&b, 1, 0, &z);
    b = place(&b, 5, 1, &z);
    b = place(&b, 7, 0, &z);
    b = place(&b, 6, 0, &z);
    assert_eq!(b.cell(6), Cell::Upright(0));
    assert_eq!(b.score_one_player(0), 1);
    b = place(&b, 11, 0, &z);
    assert_eq!(b.cell(6), Cell::Flipped(0));
    assert_eq!(b.score_one_player(0), 1001);
    assert_eq!(b.score_one_player(1), 0);
}

#[test]
fn propagate_changes_nothing_where_nothing_is_due() {
    let z = init_zobrist();
    let mut b = Board::new();
    for c in [1, 5, 7, 6] {
        b = place(&b, c, 0, &z);
    }
    let before = b;
    b.propagate(0, &z);
    assert_eq!(b, before);
    b.propagate(1, &z);
    assert_eq!(b, before);
}

#[test]
fn swap_that_changes_owners_flips_for_both_players() {
    let z = init_zobrist();
    // cell 6 of player 1 lacks cell 7 for its third neighbour, cell 18 of player 0
    // lacks cell 17
    let mut b = Board::new();
    for (c, p) in [(1, 1), (5, 1), (6, 1), (19, 0), (23, 0), (18, 0)] {
        b = place(&b, c, p, &z);
    }
    b = place(&b, 7, 0, &z);
    b = place(&b, 17, 1, &z);
    assert_eq!(b.flipped_mask(0) | b.flipped_mask(1), 0);
    // the swap hands cell 7 to player 1 and cell 17 to player 0
    let s = swap(&b, 7, 17, 0, &z);
    assert_eq!(s.cell(7), Cell::Flipped(1));
    assert_eq!(s.cell(17), Cell::Flipped(0));
    assert_eq!(s.cell(6), Cell::Flipped(1));
    assert_eq!(s.cell(18), Cell::Flipped(0));
    assert_eq!(s.flipped_mask(0), 1 << 17 | 1 << 18);
    assert_eq!(s.flipped_mask(1), 1 << 6 | 1 << 7);
    assert!(s.is_consistent(&z));
}

#[test]
fn flipped_pieces_cannot_be_swapped() {
    let z = init_zobrist();
    let b = place(&place(&Board::new(), 0, 0, &z), 24, 1, &z);
    let s = swap(&b, 0, 24, 0, &z);
    let succ = s.moves(1, &z);
    assert_eq!(succ.len(), 23);
    for n in succ.iter() {
        assert_eq!(n.cell(0), Cell::Flipped(1));
        assert_eq!(n.cell(24), Cell::Flipped(0));
    }
}

#[test]
fn moves_come_in_a_fixed_order() {
    let z = init_zobrist();
    let mut b = Board::new();
    for (c, p) in [(2, 0), (9, 1), (20, 0)] {
        b = place(&b, c, p, &z);
    }
    let succ = b.moves(1, &z);
    assert_eq!(succ.len(), 22 + 3);
    assert_eq!(succ, b.moves(1, &z));
    let empty: Vec<usize> = (0..25).filter(|&i| b.cell(i) == Cell::Empty).collect();
    for (k, c) in empty.iter().enumerate() {
        assert_eq!(succ[k].cell(*c), Cell::Upright(1));
    }
    assert_eq!(succ[22].cell(2), Cell::Flipped(1));
    assert_eq!(succ[22].cell(9), Cell::Flipped(0));
    assert_eq!(succ[22].cell(20), Cell::Upright(0));
    assert_eq!(succ[23].cell(2), Cell::Flipped(0));
    assert_eq!(succ[23].cell(20), Cell::Flipped(0));
    assert_eq!(succ[23].cell(9), Cell::Upright(1));
    assert_eq!(succ[24].cell(9), Cell::Flipped(0));
    assert_eq!(succ[24].cell(20), Cell::Flipped(1));
    assert_eq!(succ[24].cell(2), Cell::Upright(0));
}

#[test]
fn cell_off_the_grid_is_empty() {
    let z = init_zobrist();
    let b = place(&Board::new(), 24, 1, &z);
    assert_eq!(b.cell(24), Cell::Upright(1));
    assert_eq!(b.cell(25), Cell::Empty);
    assert_eq!(b.cell(31), Cell::Empty);
    assert_eq!(b.cell(32), Cell::Empty);
    assert_eq!(b.cell(usize::MAX), Cell::Empty);
}

#[test]
fn any_player_but_zero_scores_as_player_one() {
    let z = init_zobrist();
    let mut b = Board::new();
    for c in [0, 1, 5] {
        b = place(&b, c, 1, &z);
    }
    assert_eq!(b.score_one_player(7), b.score_one_player(1));
    assert_eq!(b.upright_mask(7), b.upright_mask(1));
    assert_eq!(b.flipped_mask(7), b.flipped_mask(1));
}

#[test]
fn render_of_the_empty_board() {
    let b = Board::new();
    assert_eq!(b.render(), "===\n.....\n.....\n.....\n.....\n.....");
}

#[test]
fn render_shows_owners_and_flips() {
    let z = init_zobrist();
    let mut b = Board::new();
    for c in [1, 5, 7, 6] {
        b = place(&b, c, 0, &z);
    }
    b = place(&b, 24, 1, &z);
    b = place(&b, 20, 1, &z);
    b = place(&b, 4, 0, &z);
    b = swap(&b, 4, 20, 1, &z);
    assert_eq!(b.render(), "===\n.x..O\nxXx..\n.....\n.....\nX...o");
    assert_eq!(b.render().chars().count(), 33);
}
