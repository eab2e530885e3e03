//! The proof that the state holds an account, with the proof of one of the
//! account's storage slots.

use vstd::prelude::*;
use crate::bytes::be_bytes_of_u64;
use crate::error::{ProverError, TrieErrorContext};
use crate::hash::{keccak256, keccak256_of};
use crate::proofs::storage::{tag_failure, tagged, StorageProof, StorageProofEntry};
use crate::proofs::trie::{nodes_of, verdict, verify_proof};
use crate::rlp::{list_encoding, string_encoding, uint_encoding};

verus! {

/// An account as the state trie holds it.
#[derive(Debug, Clone, Copy)]
pub struct TrieAccount {
    /// The number of transactions sent from the account.
    pub nonce: u64,
    /// The balance: a 256-bit number, big-endian.
    pub balance: [u8; 32],
    /// The root hash of the account's storage trie.
    pub storage_root: [u8; 32],
    /// The hash of the account's code.
    pub code_hash: [u8; 32],
}

/// An account with one storage slot as a proof service reports it.
#[derive(Debug, Clone)]
pub struct AccountProofResponse {
    /// The address of the account.
    pub address: [u8; 20],
    /// The balance, big-endian.
    pub balance: [u8; 32],
    /// The hash of the account's code.
    pub code_hash: [u8; 32],
    /// The account's nonce.
    pub nonce: u64,
    /// The root hash of the account's storage trie.
    pub storage_hash: [u8; 32],
    /// The nodes from the state root down to the account.
    pub account_proof: Vec<Vec<u8>>,
    /// The storage slots that were asked for.
    pub storage_proof: Vec<StorageProofEntry>,
}

/// An account, the trie nodes that prove it, and the proof of one of its
/// storage slots.
#[derive(Debug, Clone)]
pub struct AccountProof {
    /// The address of the account.
    pub address: [u8; 20],
    /// The account as the state trie holds it.
    pub trie: TrieAccount,
    /// The nodes from the state root down to the account.
    pub proof: Vec<Vec<u8>>,
    /// The proof of one storage slot of the account.
    pub storage_proof: StorageProof,
}

impl TrieAccount {
    /// The value that the state trie holds for the account: the list of
    /// nonce, balance, storage root and code hash, in that order.
    pub open spec fn encoding(self) -> Seq<u8> {
        list_encoding(
            uint_encoding(be_bytes_of_u64(self.nonce)) + uint_encoding(self.balance@)
                + string_encoding(self.storage_root@) + string_encoding(self.code_hash@),
        )
    }
}

/// Calls `alloy_rlp::encode` on the account as an `alloy_trie::TrieAccount`.
/// The contract states what the crate's source shows: a list header, then
/// the nonce and the balance as unsigned numbers, then the storage root and
/// the code hash as byte strings.
#[verifier::external_body]
fn encode_account(account: &TrieAccount) -> (encoding: Vec<u8>)
    ensures
        encoding@ == account.encoding(),
{
    alloy_rlp::encode(
        alloy_trie::TrieAccount::new(
            account.nonce,
            alloy_primitives::U256::from_be_bytes(account.balance),
            alloy_primitives::B256::new(account.storage_root),
            alloy_primitives::B256::new(account.code_hash),
        ),
    )
}

impl AccountProof {
    /// The key under which the state trie holds the account: the hash of
    /// the address.
    pub open spec fn trie_key(&self) -> Seq<u8> {
        keccak256_of(self.address@)
    }

    /// The outcome of checking the proof against a state root.
    pub open spec fn outcome(&self, state_root: Seq<u8>) -> Result<(), ProverError> {
        tagged(
            TrieErrorContext::AccountRoot,
            verdict(state_root, self.trie_key(), self.trie.encoding(), nodes_of(self.proof@)),
        )
    }

    /// Builds the proof from a reported account: the account's fields and
    /// nodes as they are, and the first of the reported storage slots.
    pub fn from_response(response: AccountProofResponse) -> (proof: Self)
        requires
            response.storage_proof@.len() > 0,
        ensures
            proof.address == response.address,
            proof.trie == (TrieAccount {
                nonce: response.nonce,
                balance: response.balance,
                storage_root: response.storage_hash,
                code_hash: response.code_hash,
            }),
            proof.proof == response.account_proof,
            proof.storage_proof.key == response.storage_proof@[0].key,
            proof.storage_proof.value == response.storage_proof@[0].value,
            proof.storage_proof.proof == response.storage_proof@[0].proof,
    {
        let trie = TrieAccount {
            nonce: response.nonce,
            balance: response.balance,
            storage_root: response.storage_hash,
            code_hash: response.code_hash,
        };
        let mut entries = response.storage_proof;
        let storage_proof = StorageProof::from_entry(entries.swap_remove(0));
        AccountProof {
            trie,
            address: response.address,
            proof: response.account_proof,
            storage_proof,
        }
    }

    /// Checks that the state trie with the given root maps the hash of the
    /// address to the encoded account. A failure is marked as one of the
    /// state trie.
    pub fn verify_proof(&self, state_root: [u8; 32]) -> (outcome: Result<(), ProverError>)
        ensures
            outcome == self.outcome(state_root@),
            outcome matches Err(failure) ==> failure matches ProverError::TrieVerification {
                context: TrieErrorContext::AccountRoot,
                ..
            },
    {
        let key = keccak256(self.address.as_slice());
        let value = encode_account(&self.trie);
        tag_failure(
            TrieErrorContext::AccountRoot,
            verify_proof(&state_root, &key, value.as_slice(), &self.proof),
        )
    }
}

/// A failure of an account proof names the state trie and a failure of a
/// storage proof names the storage trie, whatever root each is checked
/// against: neither ever carries the other's mark.
pub proof fn lemma_failures_name_their_trie(
    account: &AccountProof,
    storage: &StorageProof,
    account_root: Seq<u8>,
    storage_root: Seq<u8>,
)
    ensures
        account.outcome(account_root) matches Err(failure) ==> failure matches ProverError::TrieVerification {
            context: TrieErrorContext::AccountRoot,
            ..
        },
        storage.outcome(storage_root) matches Err(failure) ==> failure matches ProverError::TrieVerification {
            context: TrieErrorContext::StorageRoot,
            ..
        },
        account.outcome(account_root) is Ok <==> verdict(
            account_root,
            account.trie_key(),
            account.trie.encoding(),
            nodes_of(account.proof@),
        ) is Ok,
        storage.outcome(storage_root) is Ok <==> verdict(
            storage_root,
            storage.trie_key(),
            storage.trie_value(),
            nodes_of(storage.proof@),
        ) is Ok,
{
}

} // verus!
