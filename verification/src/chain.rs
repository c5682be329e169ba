//! The chain generator: grows a hash chain of power-of-two length from a
//! seed and extracts one pebble checkpoint per power-of-two position, plus
//! the naive reference builder that keeps every chain element.

use vstd::prelude::*;
use vstd::arithmetic::power2::{is_pow2, lemma_pow2_pos, lemma_pow2_strictly_increases, pow2};
use vstd::bytes::{spec_u64_to_le_bytes, u64_to_le_bytes};
use crate::encoding::{hex_encode, spec_hex};
use crate::errors::ChainInitError;
use crate::hashing::DigestCapability;
use crate::powers::{
    create_powers, lemma_is_pow2_iff, lemma_log2_monotone, lemma_log2_step, lemma_pow2_bit_trick,
    lemma_pow2_is_pow2, lemma_usize_fits_u64, log_2, spec_log2,
};

verus! {

/// A checkpoint captured at one power-of-two position along the chain.
///
/// `destination`, `start_incr` and `dest_incr` are reserved for a traversal
/// algorithm that would consume the pebbles to advance along the chain; no
/// logic in this library reads them.
#[derive(Debug, Clone)]
pub struct Pebble {
    pub start_incr: u64,
    pub dest_incr: u64,
    pub position: u64,
    pub destination: u64,
    pub value: Vec<u8>,
}

impl Pebble {
    /// Lower-case hexadecimal rendering of the chain value this pebble holds.
    pub fn value_hex(&self) -> (r: String)
        ensures
            r@ == spec_hex(self.value@),
    {
        hex_encode(self.value.as_slice())
    }
}

/// Element `i` (1-based) of the hash chain grown from `seed`: the first
/// element digests the little-endian encoding of the seed, and every later
/// element digests its predecessor.
pub open spec fn chain_elem<D: DigestCapability>(seed: u64, i: nat) -> Seq<u8>
    decreases i,
{
    if i <= 1 {
        D::spec_digest(spec_u64_to_le_bytes(seed))
    } else {
        D::spec_digest(chain_elem::<D>(seed, (i - 1) as nat))
    }
}

/// What a correct pebble at checkpoint number `k` (position `2^k`) holds.
pub open spec fn pebble_at<D: DigestCapability>(p: Pebble, seed: u64, k: nat) -> bool {
    &&& p.position == pow2(k)
    &&& p.destination == p.position
    &&& p.start_incr == 3 * pow2(k)
    &&& p.dest_incr == 2 * pow2(k)
    &&& p.value@ == chain_elem::<D>(seed, pow2(k))
    &&& p.value@.len() == D::spec_output_len()
}

/// What the generator owes for a chain of power-of-two length `length`: one
/// pebble per checkpoint number 1 through log2(length), in that order.
pub open spec fn pebbles_correct<D: DigestCapability>(
    ps: Seq<Pebble>,
    seed: u64,
    length: nat,
) -> bool {
    &&& ps.len() == spec_log2(length)
    &&& (forall|j: int| 0 <= j < ps.len() ==> pebble_at::<D>(#[trigger] ps[j], seed, (j + 1) as nat))
}

/// What the reference builder owes: every chain element from the first on,
/// `length` of them (one, when `length` is zero).
pub open spec fn full_chain_correct<D: DigestCapability>(
    chain: Seq<Vec<u8>>,
    seed: u64,
    length: nat,
) -> bool {
    &&& chain.len() == if length == 0 { 1nat } else { length }
    &&& (forall|j: int|
        0 <= j < chain.len() ==> (#[trigger] chain[j])@ == chain_elem::<D>(seed, (j + 1) as nat))
    &&& (forall|j: int|
        0 <= j < chain.len() ==> (#[trigger] chain[j])@.len() == D::spec_output_len())
}

/// Create the initial hash chain and output the pebbles which can be used
/// to traverse the chain.
///
/// The length must be a power of two (which also rules out zero); any other
/// length is rejected before any hashing. The bound on the length keeps
/// each pebble's precomputed `start_incr` multiple inside a `u64`.
pub fn create_hash_chain<D: DigestCapability>(length: usize, seed: u64, hasher: &mut D) -> (r:
    Result<Vec<Pebble>, ChainInitError>)
    requires
        is_pow2(length as int) ==> 3 * (length as int) <= u64::MAX,
    ensures
        r is Ok <==> is_pow2(length as int),
        (r matches Ok(ps) ==> pebbles_correct::<D>(ps@, seed, length as nat)),
        (r matches Err(e) ==> e.spec_message() == "length not a power of two"@),
{
    proof {
        lemma_usize_fits_u64(length);
    }
    let len64: u64 = length as u64;
    // is length a power of two? Also catches zero
    if len64 == 0 || (len64 & (len64 - 1)) != 0 {
        proof {
            if len64 != 0 {
                lemma_pow2_bit_trick(len64);
            } else {
                reveal(is_pow2);
            }
        }
        return Err(ChainInitError::new("length not a power of two"));
    }
    proof {
        lemma_pow2_bit_trick(len64);
    }

    // the number of pebbles is log_2(length)
    let num_pebbles: u32 = log_2(len64);

    // initialize the pebble list
    let mut pebbles: Vec<Pebble> = Vec::new();

    // initialize the list of powers so we do not need to compute each time
    let powers: Vec<u64> = create_powers(num_pebbles);

    let seed_bytes: Vec<u8> = u64_to_le_bytes(seed);
    let mut output: Vec<u8> = hasher.digest(seed_bytes.as_slice());
    let mut i: u64 = 2;
    while i <= len64
        invariant
            2 <= i <= len64 + 1,
            len64 == length,
            len64 >= 1,
            is_pow2(len64 as int),
            3 * (len64 as int) <= u64::MAX,
            num_pebbles as nat == spec_log2(len64 as nat),
            powers@.len() == num_pebbles as nat,
            forall|j: int| 0 <= j < num_pebbles ==> powers@[j] == pow2((j + 1) as nat),
            output@ == chain_elem::<D>(seed, (i - 1) as nat),
            output@.len() == D::spec_output_len(),
            pebbles@.len() == spec_log2((i - 1) as nat),
            forall|j: int|
                0 <= j < pebbles@.len() ==> pebble_at::<D>(
                    #[trigger] pebbles@[j],
                    seed,
                    (j + 1) as nat,
                ),
        decreases len64 + 1 - i,
    {
        let next: Vec<u8> = hasher.digest(output.as_slice());
        output = next;
        let lg: u32 = log_2(i);
        proof {
            lemma_log2_monotone(i as nat, len64 as nat);
            lemma_is_pow2_iff(i as nat);
            lemma_log2_step(i as nat);
        }
        let idx: usize = (lg - 1) as usize;
        if i == powers[idx] {
            pebbles.push(
                Pebble {
                    start_incr: 3 * i,
                    dest_incr: 2 * i,
                    position: i,
                    destination: i,
                    value: output.clone(),
                },
            );
            proof {
                assert(pebbles@[pebbles@.len() - 1].value@ =~= output@);
            }
        }
        i = i + 1;
    }

    Ok(pebbles)
}

/// Create the hash chain without using pebbles, keeping every element.
/// Warning: the resulting list is as long as the requested length, so large
/// lengths exhaust memory.
pub fn create_hash_chain_nopebble<D: DigestCapability>(length: usize, seed: u64, hasher: &mut D)
    -> (r: Vec<Vec<u8>>)
    ensures
        full_chain_correct::<D>(r@, seed, length as nat),
{
    proof {
        lemma_usize_fits_u64(length);
    }
    let len64: u64 = length as u64;
    let mut chain: Vec<Vec<u8>> = Vec::new();
    let seed_bytes: Vec<u8> = u64_to_le_bytes(seed);
    let mut output: Vec<u8> = hasher.digest(seed_bytes.as_slice());
    chain.push(output.clone());
    proof {
        assert(chain@[0]@ =~= output@);
    }
    let mut count: u64 = 1;
    while count < len64
        invariant
            1 <= count,
            len64 == length,
            len64 >= 1 ==> count <= len64,
            len64 == 0 ==> count == 1,
            chain@.len() == count as nat,
            output@ == chain_elem::<D>(seed, count as nat),
            output@.len() == D::spec_output_len(),
            forall|j: int| 0 <= j < chain@.len() ==> (#[trigger] chain@[j])@.len()
                == D::spec_output_len(),
            forall|j: int|
                0 <= j < chain@.len() ==> (#[trigger] chain@[j])@ == chain_elem::<D>(
                    seed,
                    (j + 1) as nat,
                ),
        decreases len64 - count,
    {
        let next: Vec<u8> = hasher.digest(output.as_slice());
        output = next;
        chain.push(output.clone());
        proof {
            assert(chain@[chain@.len() - 1]@ =~= output@);
        }
        count = count + 1;
    }
    chain
}

/// Law: for a power-of-two length, the pebbles stand in strictly increasing
/// position order, and each position is itself a power of two no greater
/// than the chain length.
pub proof fn lemma_pebble_positions<D: DigestCapability>(ps: Seq<Pebble>, seed: u64, length: nat)
    requires
        length >= 1,
        is_pow2(length as int),
        pebbles_correct::<D>(ps, seed, length),
    ensures
        ps.len() == spec_log2(length),
        forall|j: int| 0 <= j < ps.len() ==> is_pow2((#[trigger] ps[j]).position as int),
        forall|j: int| 0 <= j < ps.len() ==> (#[trigger] ps[j]).position <= length,
        forall|j1: int, j2: int|
            0 <= j1 < j2 < ps.len() ==> ps[j1].position < ps[j2].position,
{
    lemma_is_pow2_iff(length);
    assert forall|j: int| 0 <= j < ps.len() implies is_pow2((#[trigger] ps[j]).position as int)
        && ps[j].position <= length by {
        lemma_pow2_is_pow2((j + 1) as nat);
        if ((j + 1) as nat) < spec_log2(length) {
            lemma_pow2_strictly_increases((j + 1) as nat, spec_log2(length));
        }
    }
    assert forall|j1: int, j2: int| 0 <= j1 < j2 < ps.len() implies ps[j1].position
        < ps[j2].position by {
        lemma_pow2_strictly_increases((j1 + 1) as nat, (j2 + 1) as nat);
    }
}

/// Law: the value held by each pebble equals the chain element at the
/// pebble's 1-based position in the full chain the reference builder
/// returns for the same seed and digest.
pub proof fn lemma_pebble_value_matches_full_chain<D: DigestCapability>(
    ps: Seq<Pebble>,
    chain: Seq<Vec<u8>>,
    seed: u64,
    length: nat,
    j: int,
)
    requires
        length >= 1,
        is_pow2(length as int),
        pebbles_correct::<D>(ps, seed, length),
        full_chain_correct::<D>(chain, seed, length),
        0 <= j < ps.len(),
    ensures
        1 <= ps[j].position <= chain.len(),
        ps[j].value@ == chain[ps[j].position - 1]@,
{
    lemma_is_pow2_iff(length);
    lemma_pow2_pos((j + 1) as nat);
    if ((j + 1) as nat) < spec_log2(length) {
        lemma_pow2_strictly_increases((j + 1) as nat, spec_log2(length));
    }
    assert(chain[ps[j].position - 1]@ == chain_elem::<D>(seed, pow2((j + 1) as nat)));
}

/// Law: two generations with the same length, seed and digest capability
/// yield pebble sequences that agree field for field and byte for byte.
pub proof fn lemma_generate_deterministic<D: DigestCapability>(
    ps1: Seq<Pebble>,
    ps2: Seq<Pebble>,
    seed: u64,
    length: nat,
)
    requires
        pebbles_correct::<D>(ps1, seed, length),
        pebbles_correct::<D>(ps2, seed, length),
    ensures
        ps1.len() == ps2.len(),
        forall|j: int|
            0 <= j < ps1.len() ==> ((#[trigger] ps1[j]).position == ps2[j].position
                && ps1[j].destination == ps2[j].destination && ps1[j].start_incr
                == ps2[j].start_incr && ps1[j].dest_incr == ps2[j].dest_incr && ps1[j].value@
                == ps2[j].value@),
{
    assert forall|j: int| 0 <= j < ps1.len() implies ((#[trigger] ps1[j]).position
        == ps2[j].position && ps1[j].destination == ps2[j].destination && ps1[j].start_incr
        == ps2[j].start_incr && ps1[j].dest_incr == ps2[j].dest_incr && ps1[j].value@
        == ps2[j].value@) by {
        assert(pebble_at::<D>(ps1[j], seed, (j + 1) as nat));
        assert(pebble_at::<D>(ps2[j], seed, (j + 1) as nat));
    }
}

/// Law: a chain of length one yields no pebbles, since no index in the
/// loop's range ever qualifies as a checkpoint.
pub proof fn lemma_length_one_yields_no_pebbles<D: DigestCapability>(ps: Seq<Pebble>, seed: u64)
    requires
        pebbles_correct::<D>(ps, seed, 1),
    ensures
        ps.len() == 0,
{
}

} // verus!
