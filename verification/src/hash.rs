//! The Keccak-256 hash, computed by `alloy_primitives`.

use vstd::prelude::*;

verus! {

/// The Keccak-256 digest of a byte string.
pub uninterp spec fn keccak256_of(bytes: Seq<u8>) -> Seq<u8>;

/// Calls `alloy_primitives::keccak256`. The contract gives the digest its
/// name, `keccak256_of`: the hash is a function of the bytes alone. Nothing
/// else is claimed of the digest but that it is 32 bytes long, which the
/// result type holds.
#[verifier::external_body]
pub(crate) fn keccak256(bytes: &[u8]) -> (digest: [u8; 32])
    ensures
        digest@ == keccak256_of(bytes@),
{
    alloy_primitives::keccak256(bytes).0
}

} // verus!
