//! The 256-bit BLAKE2 hash the chain uses for digests and Merkle roots.
use vstd::prelude::*;

verus! {

/// The BLAKE2b-256 digest of some bytes.
pub uninterp spec fn blake2_256_of(data: Seq<u8>) -> Seq<u8>;

/// `sp_crypto_hashing::blake2_256`: the 32-byte BLAKE2b digest of the input.
/// The contract names the digest as a function of the input bytes.
#[verifier::external_body]
pub(crate) fn blake2_256(data: &[u8]) -> (r: [u8; 32])
    ensures
        r@ == blake2_256_of(data@),
{
    sp_crypto_hashing::blake2_256(data)
}

} // verus!
