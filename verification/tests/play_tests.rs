use flipboard::init_zobrist;
use flipboard::Board;
use flipboard::Cell;
use flipboard::Zobrist;

fn next_random(state: &mut u64) -> u64 {
    *state ^= *state << 13;
    *state ^= *state >> 7;
    *state ^= *state << 17;
    *state
}

fn check_board(b: &Board, z: &Zobrist) {
    assert!(b.is_consistent(z));
    assert_eq!(b.hash(z), b.incremental_hash());
    let masks = [b.upright_mask(0), b.upright_mask(1), b.flipped_mask(0), b.flipped_mask(1)];
    for i in 0..4 {
        for j in i + 1..4 {
            assert_eq!(masks[i] & masks[j], 0);
        }
    }
    let union = masks[0] | masks[1] | masks[2] | masks[3];
    assert!(union.count_ones() <= 25);
    assert_eq!(union >> 25, 0);
    for i in 0..25 {
        let expected = match b.cell(i) {
            Cell::Empty => [false, false, false, false],
            Cell::Upright(0) => [true, false, false, false],
            Cell::Upright(_) => [false, true, false, false],
            Cell::Flipped(0) => [false, false, true, false],
            Cell::Flipped(_) => [false, false, false, true],
        };
        for m in 0..4 {
            assert_eq!((masks[m] >> i) & 1 == 1, expected[m]);
        }
    }
}

/// Plays pseudo-random moves until none is left; returns the line of play.
fn random_line(seed: u64, z: &Zobrist) -> Vec<Board> {
    let mut state = seed;
    let mut line = vec![Board::new()];
    let mut turn = 0usize;
    loop {
        let succ = line[line.len() - 1].moves(turn & 1, z);
        if succ.is_empty() {
            return line;
        }
        let k = (next_random(&mut state) % succ.len() as u64) as usize;
        line.push(succ[k]);
        turn += 1;
    }
}

#[test]
fn hash_stays_consistent_along_random_play() {
    let z = init_zobrist();
    for seed in 1..40u64 {
        for b in random_line(seed, &z).iter() {
            check_board(b, &z);
        }
    }
}

#[test]
fn every_successor_is_consistent() {
    let z = init_zobrist();
    let line = random_line(77, &z);
    for (turn, b) in line.iter().enumerate() {
        for s in b.moves(turn & 1, &z).iter() {
            check_board(s, &z);
        }
    }
}

#[test]
fn flipped_pieces_stay_flipped() {
    let z = init_zobrist();
    for seed in 100..130u64 {
        let line = random_line(seed, &z);
        for k in 1..line.len() {
            for i in 0..25 {
                if let Cell::Flipped(owner) = line[k - 1].cell(i) {
                    assert_eq!(line[k].cell(i), Cell::Flipped(owner));
                }
            }
            for p in 0..2 {
                let before = line[k - 1].flipped_mask(p);
                assert_eq!(line[k].flipped_mask(p) & before, before);
            }
        }
    }
}

#[test]
fn play_ends_on_a_full_board_with_at_most_one_upright_piece() {
    let z = init_zobrist();
    for seed in 200..210u64 {
        let line = random_line(seed, &z);
        let last = line[line.len() - 1];
        for i in 0..25 {
            assert_ne!(last.cell(i), Cell::Empty);
        }
        let upright = (last.upright_mask(0) | last.upright_mask(1)).count_ones();
        assert!(upright <= 1);
        assert!(last.moves(0, &z).is_empty());
        assert!(last.moves(1, &z).is_empty());
    }
}

#[test]
fn full_board_has_no_placement() {
    let z = init_zobrist();
    let mut b = Board::new();
    for c in 0..25 {
        let before = (0..c).filter(|&i| b.cell(i) == Cell::Empty).count();
        assert_eq!(before, 0);
        b = b.moves(c & 1, &z)[0];
    }
    for i in 0..25 {
        assert_ne!(b.cell(i), Cell::Empty);
    }
    let upright = (b.upright_mask(0) | b.upright_mask(1)).count_ones() as usize;
    assert_eq!(b.moves(0, &z).len(), upright * (upright.max(1) - 1) / 2);
    for s in b.moves(0, &z).iter() {
        for i in 0..25 {
            assert_ne!(s.cell(i), Cell::Empty);
        }
    }
}

#[test]
fn score_is_negated_when_the_players_change_sides() {
    let z = init_zobrist();
    for seed in 300..330u64 {
        let mut state = seed;
        let mut a = Board::new();
        let mut b = Board::new();
        let mut turn = 0usize;
        loop {
            let sa = a.moves(turn & 1, &z);
            let sb = b.moves(1 - (turn & 1), &z);
            assert_eq!(sa.len(), sb.len());
            if sa.is_empty() {
                break;
            }
            let k = (next_random(&mut state) % sa.len() as u64) as usize;
            a = sa[k];
            b = sb[k];
            turn += 1;
            assert_eq!(a.score(), -b.score());
            assert_eq!(a.score_one_player(0), b.score_one_player(1));
            assert_eq!(a.score_one_player(1), b.score_one_player(0));
            assert_eq!(a.upright_mask(0), b.upright_mask(1));
            assert_eq!(a.flipped_mask(1), b.flipped_mask(0));
        }
    }
}

#[test]
fn score_of_one_player_is_at_most_21025() {
    let z = init_zobrist();
    // player 1 alone fills the board: every cell but the corners has three
    // neighbours, and every cell has two
    let mut b = Board::new();
    for _ in 0..25 {
        b = b.moves(1, &z)[0];
    }
    assert_eq!(b.score_one_player(1), 21025);
    assert_eq!(b.score_one_player(0), 0);
    assert_eq!(b.score(), -21025);
    let corners: u32 = 1 | 1 << 4 | 1 << 20 | 1 << 24;
    assert_eq!(b.flipped_mask(1), 0x1ff_ffff & !corners);
    assert_eq!(b.upright_mask(1), corners);
    for seed in 400..420u64 {
        for n in random_line(seed, &z).iter() {
            assert!(n.score_one_player(0) <= 21025);
            assert!(n.score_one_player(1) <= 21025);
            assert!(n.score().abs() <= 21025);
        }
    }
}

#[test]
fn score_counts_a_thousand_for_three_neighbours_and_one_for_two() {
    let z = init_zobrist();
    // player 0 fills the first two rows
    let mut b = Board::new();
    for c in 0..10 {
        let before = (0..c).filter(|&i| b.cell(i) == Cell::Empty).count();
        b = b.moves(0, &z)[before];
    }
    // corners 0 and 4 have two neighbours, as have 5 and 9; the other six have three
    assert_eq!(b.score_one_player(0), 6 * 1000 + 10);
    assert_eq!(b.score_one_player(1), 0);
    assert_eq!(b.score(), 6010);
    assert_eq!(b.flipped_mask(0), 0b01110_01110);
}
