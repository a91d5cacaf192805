//! Keccak-256, the hash under which Ethereum names headers and trie nodes.
use vstd::prelude::*;

verus! {

/// The Keccak-256 digest of a byte string.
pub uninterp spec fn keccak_of(b: Seq<u8>) -> Seq<u8>;

/// Relies on alloy_primitives::keccak256: the 32-byte Keccak-256 digest of
/// its input, which depends on the input alone.
#[verifier::external_body]
pub(crate) fn keccak(b: &[u8]) -> (r: Vec<u8>)
    ensures
        r@ == keccak_of(b@),
        r@.len() == 32,
{
    alloy_primitives::keccak256(b).to_vec()
}

} // verus!
