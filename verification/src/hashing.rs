//! The digest capability the chain generator is parameterized over, and its
//! SHA-256 instance.

use vstd::prelude::*;
use sha2::Digest;

verus! {

/// A one-way compression function with a fixed-size output. Any such
/// function can drive the chain generator; the library supplies a SHA-256
/// instance below.
pub trait DigestCapability {
    /// The bytes the capability returns for a given input. Each capability
    /// is a pure function of the input, so the whole chain it drives is
    /// determined by the seed alone.
    spec fn spec_digest(input: Seq<u8>) -> Seq<u8>;

    /// The fixed size of the capability's output, in bytes.
    spec fn spec_output_len() -> nat;

    /// Feed `input` to a fresh digest state and return the finalized
    /// output, leaving the capability ready for reuse.
    fn digest(&mut self, input: &[u8]) -> (r: Vec<u8>)
        ensures
            r@ == Self::spec_digest(input@),
            r@.len() == Self::spec_output_len(),
    ;
}

/// The bytes SHA-256 assigns to an input; they depend on the input alone.
pub uninterp spec fn sha256_of(input: Seq<u8>) -> Seq<u8>;

/// Relies on sha2's `Digest::digest` for `Sha256`: hashing is a pure
/// function of the input bytes, and the digest output is 32 bytes long.
#[verifier::external_body]
fn sha256_bytes(input: &[u8]) -> (r: Vec<u8>)
    ensures
        r@ == sha256_of(input@),
        r@.len() == 32,
{
    sha2::Sha256::digest(input).as_slice().to_vec()
}

/// The SHA-256 digest capability. It keeps no state between calls: every
/// `digest` call hashes its input from a fresh state.
pub struct Sha256Digest {}

impl Sha256Digest {
    /// A fresh SHA-256 capability.
    pub fn new() -> (r: Sha256Digest) {
        Sha256Digest {}
    }
}

impl DigestCapability for Sha256Digest {
    open spec fn spec_digest(input: Seq<u8>) -> Seq<u8> {
        sha256_of(input)
    }

    open spec fn spec_output_len() -> nat {
        32
    }

    fn digest(&mut self, input: &[u8]) -> (r: Vec<u8>) {
        sha256_bytes(input)
    }
}

} // verus!
