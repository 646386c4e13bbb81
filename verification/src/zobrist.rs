//! The table of hash keys: one 64-bit key for each cell in each of its four
//! states, drawn from a seeded generator.

use vstd::prelude::*;
use rand::rngs::StdRng;
use rand::RngCore;
use rand::SeedableRng;
use crate::rules::key_of;

verus! {

/// The seed of the key table.
pub const ZOBRIST_SEED: u64 = 1337;

/// Number of keys: four states for each of the 25 cells.
pub const KEYS: usize = 100;

/// The generator of `rand` that the keys are drawn from. Opaque here.
#[verifier::external_type_specification]
#[verifier::external_body]
pub struct ExStdRng(StdRng);

/// The `k`-th number that the generator made by `StdRng::seed_from_u64(seed)`
/// yields. The algorithm is that of the version of `rand` in use; for one
/// version it is the same in every run and on every machine.
pub uninterp spec fn seeded_draw(seed: u64, k: nat) -> u64;

/// The number that the `k`-th call of `next_u64` from now on yields, for a
/// generator that is asked for nothing else. It is a function of the state of
/// the generator.
pub uninterp spec fn pending_draw(rng: StdRng, k: nat) -> u64;

/// `StdRng::seed_from_u64`: the generator made from a seed. Trusted: the
/// generator is a function of the seed alone, so what it will yield is what the
/// seed determines.
#[verifier::external_body]
fn rng_from_seed(seed: u64) -> (rng: StdRng)
    ensures
        forall|k: nat| #[trigger] pending_draw(rng, k) == seeded_draw(seed, k),
{
    StdRng::seed_from_u64(seed)
}

/// `StdRng::next_u64`: the next number of the generator. Trusted: the call
/// returns the first pending number and moves the others up by one.
#[verifier::external_body]
fn rng_next_u64(rng: &mut StdRng) -> (r: u64)
    ensures
        r == pending_draw(*old(rng), 0),
        forall|k: nat| #[trigger] pending_draw(*final(rng), k) == pending_draw(*old(rng), k + 1),
{
    rng.next_u64()
}

/// The key table.
pub struct Zobrist {
    keys: Vec<u64>,
}

impl View for Zobrist {
    type V = Seq<u64>;

    closed spec fn view(&self) -> Seq<u64> {
        self.keys@
    }
}

impl Zobrist {
    /// The table holds a key for every cell in every state.
    pub open spec fn wf(&self) -> bool {
        self@.len() == KEYS
    }

    /// The key of cell `ind` in the state with tag `el`. Only the two low bits of
    /// the tag count.
    pub fn key(&self, ind: usize, el: u8) -> (k: u64)
        requires
            self.wf(),
            ind < 25,
        ensures
            k == key_of(self@, ind as int, (el & 3) as int),
            el < 4 ==> k == key_of(self@, ind as int, el as int),
    {
        let low: u8 = el & 3;
        assert(low < 4 && (el < 4 ==> low == el)) by (bit_vector)
            requires
                low == el & 3,
        ;
        self.keys[ind * 4 + low as usize]
    }
}

/// Makes the key table: 100 keys drawn, in order, from the generator seeded with
/// `ZOBRIST_SEED`. Two tables made by this function are equal.
pub fn init_zobrist() -> (z: Zobrist)
    ensures
        z.wf(),
        z@.len() == 100,
        forall|k: int| 0 <= k < 100 ==> #[trigger] z@[k] == seeded_draw(ZOBRIST_SEED, k as nat),
{
    let mut rng = rng_from_seed(ZOBRIST_SEED);
    let mut keys: Vec<u64> = Vec::new();
    let mut i: usize = 0;
    while i < KEYS
        invariant
            i <= KEYS,
            keys@.len() == i,
            forall|k: int| 0 <= k < i ==> #[trigger] keys@[k] == seeded_draw(ZOBRIST_SEED, k as nat),
            forall|k: nat| #[trigger]
                pending_draw(rng, k) == seeded_draw(ZOBRIST_SEED, k + i as nat),
        decreases KEYS - i,
    {
        // the call hands out the first pending number and moves the rest up
        let key = rng_next_u64(&mut rng);
        keys.push(key);
        i += 1;
    }
    Zobrist { keys }
}

} // verus!
