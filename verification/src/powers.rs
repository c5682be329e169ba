//! Base-two arithmetic: the floor logarithm, the power-of-two test, and the
//! table of checkpoint positions used by the chain generator.

use vstd::prelude::*;
use vstd::arithmetic::power2::{
    pow2, is_pow2, lemma_pow2_pos, lemma_pow2_unfold, lemma_pow2_strictly_increases, lemma2_to64,
    lemma2_to64_rest,
};
use vstd::bits::{lemma_u64_pow2_no_overflow, lemma_u64_shl_is_mul};
use vstd::std_specs::bits::u64_leading_zeros;

verus! {

/// Floor of the base-two logarithm, defined by repeated halving.
pub open spec fn spec_log2(x: nat) -> nat
    decreases x,
{
    if x <= 1 {
        0
    } else {
        1 + spec_log2(x / 2)
    }
}

/// Every value of `pow2` passes the recursive power-of-two test.
pub proof fn lemma_pow2_is_pow2(k: nat)
    ensures
        is_pow2(pow2(k) as int),
    decreases k,
{
    reveal(is_pow2);
    if k == 0 {
        lemma2_to64();
    } else {
        lemma_pow2_is_pow2((k - 1) as nat);
        lemma_pow2_unfold(k);
        lemma_pow2_pos((k - 1) as nat);
        assert(pow2(k) == 2 * pow2((k - 1) as nat));
        assert(pow2(k) as int % 2 == 0);
        assert(pow2(k) as int / 2 == pow2((k - 1) as nat));
    }
}

/// The floor logarithm brackets its argument between consecutive powers of two.
pub proof fn lemma_log2_bounds(x: nat)
    requires
        x >= 1,
    ensures
        pow2(spec_log2(x)) <= x < pow2(spec_log2(x) + 1),
    decreases x,
{
    if x == 1 {
        lemma2_to64();
    } else {
        lemma_log2_bounds(x / 2);
        let l: nat = spec_log2(x / 2);
        lemma_pow2_unfold(l + 1);
        lemma_pow2_unfold(l + 2);
        assert(pow2(l + 1) == 2 * pow2(l));
        assert(pow2(l + 2) == 2 * pow2(l + 1));
    }
}

/// Any bracketing between consecutive powers of two pins the floor logarithm.
pub proof fn lemma_log2_unique(x: nat, k: nat)
    requires
        x >= 1,
        pow2(k) <= x < pow2(k + 1),
    ensures
        spec_log2(x) == k,
{
    let l: nat = spec_log2(x);
    lemma_log2_bounds(x);
    if l < k {
        if l + 1 < k {
            lemma_pow2_strictly_increases(l + 1, k);
        }
        assert(false);
    }
    if l > k {
        if k + 1 < l {
            lemma_pow2_strictly_increases(k + 1, l);
        }
        assert(false);
    }
}

/// The floor logarithm never decreases as its argument grows.
pub proof fn lemma_log2_monotone(x: nat, y: nat)
    requires
        1 <= x <= y,
    ensures
        spec_log2(x) <= spec_log2(y),
{
    lemma_log2_bounds(x);
    lemma_log2_bounds(y);
    if spec_log2(x) > spec_log2(y) {
        if spec_log2(y) + 1 < spec_log2(x) {
            lemma_pow2_strictly_increases(spec_log2(y) + 1, spec_log2(x));
        }
        assert(false);
    }
}

/// A value at least one passes the power-of-two test exactly when it equals
/// the power of two picked out by its floor logarithm.
pub proof fn lemma_is_pow2_iff(x: nat)
    requires
        x >= 1,
    ensures
        is_pow2(x as int) <==> x == pow2(spec_log2(x)),
    decreases x,
{
    reveal(is_pow2);
    if x == 1 {
        lemma2_to64();
    } else {
        lemma_is_pow2_iff(x / 2);
        let l: nat = spec_log2(x / 2);
        if x % 2 == 0 {
            assert(spec_log2(x) == l + 1);
            lemma_pow2_unfold(l + 1);
            assert(pow2(l + 1) == 2 * pow2(l));
            assert(x == 2 * (x / 2));
            assert(x as int / 2 == (x / 2) as int);
            if is_pow2(x as int) {
                assert(is_pow2((x / 2) as int));
                assert(x / 2 == pow2(l));
            }
            if x == pow2(spec_log2(x)) {
                assert(x == pow2(l + 1));
                assert(x == 2 * pow2(l));
                assert(x / 2 == pow2(l));
                assert(is_pow2((x / 2) as int));
                assert(is_pow2(x as int));
            }
        } else {
            assert((x as int) % 2 != 0);
            assert(!is_pow2(x as int));
            if x == pow2(spec_log2(x)) {
                lemma_pow2_unfold(spec_log2(x));
                assert(x == 2 * pow2((spec_log2(x) - 1) as nat));
                assert(x % 2 == 0);
            }
        }
    }
}

/// Stepping the argument past a power of two raises the floor logarithm by
/// one; past any other value it leaves the logarithm unchanged.
pub proof fn lemma_log2_step(i: nat)
    requires
        i >= 2,
    ensures
        is_pow2(i as int) ==> spec_log2(i) == spec_log2((i - 1) as nat) + 1,
        !is_pow2(i as int) ==> spec_log2(i) == spec_log2((i - 1) as nat),
{
    let l: nat = spec_log2(i);
    lemma_log2_bounds(i);
    lemma_is_pow2_iff(i);
    if is_pow2(i as int) {
        assert(i == pow2(l));
        assert(l >= 1) by {
            if l == 0 {
                lemma2_to64();
            }
        }
        lemma_pow2_unfold(l);
        lemma_pow2_pos((l - 1) as nat);
        assert(pow2((l - 1) as nat) <= i - 1 < pow2(l));
        lemma_log2_unique((i - 1) as nat, (l - 1) as nat);
    } else {
        assert(i > pow2(l));
        assert(pow2(l) <= i - 1 < pow2(l + 1));
        lemma_log2_unique((i - 1) as nat, l);
    }
}

/// A chain index fits in 64 bits, so its floor logarithm is at most 63.
pub proof fn lemma_log2_le_63(x: u64)
    requires
        x >= 1,
    ensures
        spec_log2(x as nat) <= 63,
{
    let l: nat = spec_log2(x as nat);
    lemma_log2_bounds(x as nat);
    if l > 63 {
        if l > 64 {
            lemma_pow2_strictly_increases(64, l);
        }
        lemma2_to64_rest();
        assert(false);
    }
}

/// The count of leading zero bits of a positive 64-bit value determines its
/// floor logarithm.
pub proof fn lemma_leading_zeros_log2(x: u64)
    requires
        x > 0,
    ensures
        u64_leading_zeros(x) == 63 - spec_log2(x as nat),
    decreases x,
{
    reveal_with_fuel(u64_leading_zeros, 2);
    lemma_log2_le_63(x);
    if x == 1 {
        assert(u64_leading_zeros(1) == 63);
    } else {
        lemma_leading_zeros_log2(x / 2);
        assert((x / 2) as nat == (x as nat) / 2);
    }
}

/// The bitwise test `x & (x - 1) == 0` on a positive value passes exactly
/// for the powers of two.
pub proof fn lemma_pow2_bit_trick(x: u64)
    requires
        x > 0,
    ensures
        (x & ((x - 1) as u64)) == 0 <==> is_pow2(x as int),
    decreases x,
{
    reveal(is_pow2);
    let y: u64 = (x - 1) as u64;
    if x == 1 {
        assert(1u64 & 0u64 == 0) by (bit_vector);
    } else if x % 2 == 1 {
        assert(x > 1 && x % 2 == 1 && y == x - 1 ==> (x & y) != 0) by (bit_vector);
    } else {
        lemma_pow2_bit_trick(x / 2);
        let z: u64 = x / 2;
        let w: u64 = (z - 1) as u64;
        assert(x > 1 && x % 2 == 0 && y == x - 1 && z == x / 2 && w == z - 1 ==> ((x & y) == 0
            <==> (z & w) == 0)) by (bit_vector);
        assert((x as int) % 2 == 0);
        assert((x as int) / 2 == z as int);
    }
}

/// A chain length held in a `usize` always fits a 64-bit chain index.
pub proof fn lemma_usize_fits_u64(x: usize)
    ensures
        x as u64 == x,
{
    assert(x as u64 == x) by (bit_vector);
}

/// Bit width of a chain index.
pub fn num_bits() -> (r: usize)
    ensures
        r == 64,
{
    64
}

/// Position of the highest set bit: the floor of the base-two logarithm.
/// Defined only for strictly positive arguments.
pub fn log_2(x: u64) -> (r: u32)
    requires
        x > 0,
    ensures
        r as nat == spec_log2(x as nat),
        r <= 63,
{
    proof {
        lemma_leading_zeros_log2(x);
        lemma_log2_le_63(x);
    }
    num_bits() as u32 - x.leading_zeros() - 1
}

/// Return the ascending table of the first `how_many` powers of two,
/// starting at two.
pub fn create_powers(how_many: u32) -> (r: Vec<u64>)
    requires
        how_many <= 63,
    ensures
        r@.len() == how_many as nat,
        forall|j: int| 0 <= j < how_many ==> r@[j] == pow2((j + 1) as nat),
{
    let mut powers: Vec<u64> = Vec::new();
    let mut p: u32 = 0;
    while p < how_many
        invariant
            p <= how_many,
            how_many <= 63,
            powers@.len() == p as nat,
            forall|j: int| 0 <= j < p ==> powers@[j] == pow2((j + 1) as nat),
        decreases how_many - p,
    {
        proof {
            lemma_u64_pow2_no_overflow((p + 1) as nat);
            lemma_u64_shl_is_mul(1u64, (p + 1) as u64);
        }
        powers.push(1u64 << ((p as u64) + 1));
        p = p + 1;
    }
    powers
}

} // verus!
