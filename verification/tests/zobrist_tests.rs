use flipboard::init_zobrist;
use rand::rngs::StdRng;
use rand::RngCore;
use rand::SeedableRng;

#[test]
fn keys_are_the_draws_of_the_seeded_generator() {
    let z = init_zobrist();
    let mut rng = StdRng::seed_from_u64(1337);
    for cell in 0..25usize {
        for tag in 0..4u8 {
            assert_eq!(z.key(cell, tag), rng.next_u64(), "cell {} tag {}", cell, tag);
        }
    }
}

#[test]
fn two_tables_are_equal() {
    let a = init_zobrist();
    let b = init_zobrist();
    for cell in 0..25usize {
        for tag in 0..4u8 {
            assert_eq!(a.key(cell, tag), b.key(cell, tag));
        }
    }
}

#[test]
fn keys_are_pairwise_distinct() {
    let z = init_zobrist();
    let mut keys: Vec<u64> = Vec::new();
    for cell in 0..25usize {
        for tag in 0..4u8 {
            keys.push(z.key(cell, tag));
        }
    }
    assert_eq!(keys.len(), 100);
    keys.sort();
    keys.dedup();
    assert_eq!(keys.len(), 100);
    assert!(!keys.contains(&1337));
}

#[test]
fn only_the_low_bits_of_a_tag_count() {
    let z = init_zobrist();
    assert_eq!(z.key(3, 5), z.key(3, 1));
    assert_eq!(z.key(24, 4), z.key(24, 0));
    assert_eq!(z.key(0, 255), z.key(0, 3));
}
