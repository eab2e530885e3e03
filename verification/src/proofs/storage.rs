//! The proof that a storage slot of an account holds a value.

use vstd::prelude::*;
use crate::error::{ProverError, TrieErrorContext};
use crate::hash::{keccak256, keccak256_of};
use crate::proofs::trie::{nodes_of, verdict, verify_proof, TrieFailure};
use crate::rlp::uint_encoding;

verus! {

/// One storage slot as a proof service reports it.
#[derive(Debug, Clone)]
pub struct StorageProofEntry {
    /// The slot key, as a 32-byte word.
    pub key: [u8; 32],
    /// The value of the slot, big-endian.
    pub value: [u8; 32],
    /// The nodes from the storage root down to the slot.
    pub proof: Vec<Vec<u8>>,
}

/// A storage slot, its value, and the trie nodes that prove it.
#[derive(Debug, Clone)]
pub struct StorageProof {
    /// The slot key, as a 32-byte word.
    pub key: [u8; 32],
    /// The nodes from the storage root down to the slot.
    pub proof: Vec<Vec<u8>>,
    /// The value of the slot: a 256-bit number, big-endian.
    pub value: [u8; 32],
}

/// A failed walk becomes a failure of the verification, marked with the
/// trie that was walked.
pub open spec fn tagged(context: TrieErrorContext, outcome: Result<(), TrieFailure>) -> Result<
    (),
    ProverError,
> {
    match outcome {
        Ok(()) => Ok(()),
        Err(source) => Err(ProverError::TrieVerification { context, source }),
    }
}

/// Marks the outcome of a walk with the trie that was walked.
pub fn tag_failure(context: TrieErrorContext, outcome: Result<(), TrieFailure>) -> (marked: Result<
    (),
    ProverError,
>)
    ensures
        marked == tagged(context, outcome),
{
    match outcome {
        Ok(()) => Ok(()),
        Err(source) => Err(ProverError::TrieVerification { context, source }),
    }
}

/// Calls `alloy_rlp::encode` on the value as an `alloy_primitives::U256`.
/// The contract states the encoding that the crate's source shows for an
/// unsigned number: the big-endian bytes without leading zeros, as a byte
/// string.
#[verifier::external_body]
fn encode_word(value: &[u8; 32]) -> (encoding: Vec<u8>)
    ensures
        encoding@ == uint_encoding(value@),
{
    alloy_rlp::encode(alloy_primitives::U256::from_be_bytes(*value))
}

impl StorageProof {
    /// The key under which the storage trie holds the slot: the hash of the
    /// slot key.
    pub open spec fn trie_key(&self) -> Seq<u8> {
        keccak256_of(self.key@)
    }

    /// The value that the storage trie holds for the slot: the encoding of
    /// the number, leading zero bytes dropped.
    pub open spec fn trie_value(&self) -> Seq<u8> {
        uint_encoding(self.value@)
    }

    /// The outcome of checking the proof against a storage root.
    pub open spec fn outcome(&self, storage_root: Seq<u8>) -> Result<(), ProverError> {
        tagged(
            TrieErrorContext::StorageRoot,
            verdict(storage_root, self.trie_key(), self.trie_value(), nodes_of(self.proof@)),
        )
    }

    /// Takes the fields of a reported slot as they are.
    pub fn from_entry(entry: StorageProofEntry) -> (proof: Self)
        ensures
            proof.key == entry.key,
            proof.value == entry.value,
            proof.proof == entry.proof,
    {
        StorageProof { key: entry.key, value: entry.value, proof: entry.proof }
    }

    /// Checks that the storage trie with the given root maps the hash of
    /// the slot key to the encoded value. A failure is marked as one of the
    /// storage trie.
    pub fn verify_proof(&self, storage_root: [u8; 32]) -> (outcome: Result<(), ProverError>)
        ensures
            outcome == self.outcome(storage_root@),
            outcome matches Err(failure) ==> failure matches ProverError::TrieVerification {
                context: TrieErrorContext::StorageRoot,
                ..
            },
    {
        let key = keccak256(self.key.as_slice());
        let value = encode_word(&self.value);
        tag_failure(
            TrieErrorContext::StorageRoot,
            verify_proof(&storage_root, &key, value.as_slice(), &self.proof),
        )
    }
}

} // verus!
