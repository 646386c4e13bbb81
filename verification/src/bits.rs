//! Bit masks over the 25 cells of the grid, read bit by bit.

use vstd::prelude::*;

verus! {

/// The mask that holds all 25 cells.
pub const FULL: u32 = 0x1ff_ffff;

/// Whether bit `i` of `m` is set, for a bit index that is itself a machine word.
pub open spec fn bit32(m: u32, i: u32) -> bool {
    (m >> i) & 1 == 1
}

/// Whether bit `i` of `m` is set. False outside `0..32`.
pub open spec fn bit(m: u32, i: int) -> bool {
    0 <= i < 32 && bit32(m, i as u32)
}

/// The number of set bits of `m` among the bits below `n`.
pub open spec fn ones_below(m: u32, n: int) -> nat
    decreases n,
{
    if n <= 0 {
        0
    } else {
        ones_below(m, n - 1) + if bit(m, n - 1) { 1nat } else { 0nat }
    }
}

/// The number of set bits of `m`.
pub open spec fn popcount(m: u32) -> nat {
    ones_below(m, 32)
}

/// `u32::count_ones` returns the number of ones in the binary representation of
/// its argument. Trusted: the standard library's documentation says so.
pub assume_specification[ u32::count_ones ](i: u32) -> (r: u32)
    ensures
        r == popcount(i),
;

proof fn lemma_bit32_ops(a: u32, b: u32, i: u32)
    by (bit_vector)
    requires
        i < 32,
    ensures
        bit32(a & b, i) == (bit32(a, i) && bit32(b, i)),
        bit32(a | b, i) == (bit32(a, i) || bit32(b, i)),
        bit32(a ^ b, i) == (bit32(a, i) != bit32(b, i)),
        bit32(!a, i) == !bit32(a, i),
        bit32(0u32, i) == false,
{
}

proof fn lemma_bit32_single(c: u32, i: u32)
    by (bit_vector)
    requires
        c < 32,
        i < 32,
    ensures
        bit32(1u32 << c, i) == (i == c),
{
}

proof fn lemma_bit32_full(m: u32, i: u32)
    by (bit_vector)
    requires
        i < 32,
    ensures
        bit32(FULL, i) == (i < 25),
        m <= FULL && i >= 25 ==> !bit32(m, i),
{
}

proof fn lemma_bit32_test(m: u32, c: u32)
    by (bit_vector)
    requires
        c < 32,
    ensures
        ((m >> c) & 1 != 0) == bit32(m, c),
        (m & (1u32 << c) != 0) == bit32(m, c),
{
}

proof fn lemma_bit32_within(m: u32, x: u32, c: u32)
    by (bit_vector)
    requires
        m <= FULL,
    ensures
        m & x <= FULL,
        x <= FULL ==> m | x <= FULL,
        x <= FULL ==> m ^ x <= FULL,
        c < 25 ==> 1u32 << c <= FULL,
{
}

/// Whether bit `i` of `m` is set.
pub fn has_bit(m: u32, i: usize) -> (r: bool)
    requires
        i < 32,
    ensures
        r == bit(m, i as int),
{
    proof {
        lemma_bit32_test(m, i as u32);
    }
    (m >> (i as u32)) & 1 != 0
}

/// The mask that holds bit `i` and no other.
pub fn single_bit(i: usize) -> (r: u32)
    requires
        i < 32,
    ensures
        r == single(i as int),
        i < 25 ==> r <= FULL,
{
    proof {
        lemma_bit32_within(0, 0, i as u32);
    }
    1u32 << (i as u32)
}

/// Masks within `FULL` stay within it under the bitwise operators.
pub proof fn lemma_within(m: u32, x: u32)
    requires
        m <= FULL,
    ensures
        m & x <= FULL,
        x <= FULL ==> m | x <= FULL,
        x <= FULL ==> m ^ x <= FULL,
{
    lemma_bit32_within(m, x, 0);
}

/// A mask within `FULL` has as many set bits below `n` as below 25, for
/// `n` from 25 on, and never more than `n` of them.
pub proof fn lemma_ones_below(m: u32, n: int)
    requires
        0 <= n <= 32,
    ensures
        ones_below(m, n) <= n,
        m <= FULL && n >= 25 ==> ones_below(m, n) == ones_below(m, 25),
    decreases n,
{
    if n > 0 {
        lemma_ones_below(m, n - 1);
        lemma_bit_range(m);
    }
}

/// The four masks that three masks `n`, `p`, `f` split into, by whether a bit of
/// `n` is in `p` and whether it is in `f`, have no bit in common, and together
/// they are `n`.
pub proof fn lemma_split(n: u32, p: u32, f: u32)
    by (bit_vector)
    ensures
        (n & !p & !f) & (n & p & !f) == 0,
        (n & !p & !f) & (n & !p & f) == 0,
        (n & !p & !f) & (n & p & f) == 0,
        (n & p & !f) & (n & !p & f) == 0,
        (n & p & !f) & (n & p & f) == 0,
        (n & !p & f) & (n & p & f) == 0,
        (n & !p & !f) | (n & p & !f) | (n & !p & f) | (n & p & f) == n,
{
}

proof fn lemma_xor_zero(x: u32, y: u32)
    by (bit_vector)
    ensures
        x ^ y == 0 ==> x == y,
{
}

/// Two masks with the same bits are the same mask.
pub proof fn lemma_bits_equal(x: u32, y: u32)
    requires
        forall|i: int| 0 <= i < 32 ==> bit(x, i) == bit(y, i),
    ensures
        x == y,
{
    let d = x ^ y;
    lemma_xor_zero(x, y);
    if d != 0 {
        let t = vstd::std_specs::bits::u32_trailing_zeros(d);
        lemma_bit32_ops(x, y, t);
        assert(bit(x, t as int) == bit(y, t as int));
    }
}

/// Bitwise operators act on each bit by itself.
pub proof fn lemma_bit_ops(a: u32, b: u32)
    ensures
        forall|i: int| #![trigger bit(a & b, i)] bit(a & b, i) == (bit(a, i) && bit(b, i)),
        forall|i: int| #![trigger bit(a | b, i)] bit(a | b, i) == (bit(a, i) || bit(b, i)),
        forall|i: int|
            #![trigger bit(a ^ b, i)]
            0 <= i < 32 ==> bit(a ^ b, i) == (bit(a, i) != bit(b, i)),
        forall|i: int| #![trigger bit(!a, i)] 0 <= i < 32 ==> bit(!a, i) == !bit(a, i),
{
    assert forall|i: int| 0 <= i < 32 implies bit(a & b, i) == (bit(a, i) && bit(b, i)) && bit(
        a | b,
        i,
    ) == (bit(a, i) || bit(b, i)) && bit(a ^ b, i) == (bit(a, i) != bit(b, i)) && bit(!a, i)
        == !bit(a, i) by {
        lemma_bit32_ops(a, b, i as u32);
    }
}

/// The mask that holds cell `c` and no other.
pub open spec fn single(c: int) -> u32 {
    1u32 << (c as u32)
}

/// The mask `single(c)` holds bit `c` and no other.
pub proof fn lemma_bit_single(c: int)
    requires
        0 <= c < 32,
    ensures
        forall|i: int| #![trigger bit(single(c), i)] bit(single(c), i) == (i == c),
{
    assert forall|i: int| 0 <= i < 32 implies #[trigger] bit(single(c), i) == (i == c) by {
        lemma_bit32_single(c as u32, i as u32);
    }
}

/// No mask has a bit outside `0..32`, the empty mask has none at all, and a mask
/// within `FULL` has none from bit 25 on.
pub proof fn lemma_bit_range(m: u32)
    ensures
        forall|i: int| #![trigger bit(0u32, i)] !bit(0u32, i),
        forall|i: int| #![trigger bit(FULL, i)] bit(FULL, i) == (0 <= i < 25),
        m <= FULL ==> forall|i: int| #![trigger bit(m, i)] i >= 25 ==> !bit(m, i),
{
    assert forall|i: int| 0 <= i < 32 implies !bit(0u32, i) && bit(FULL, i) == (i < 25) && (m
        <= FULL && i >= 25 ==> !bit(m, i)) by {
        lemma_bit32_ops(m, m, i as u32);
        lemma_bit32_full(m, i as u32);
    }
}

} // verus!
