//! The checks that stand behind a proof: the header is the one of the
//! trusted block, the account is in that block's state, and the slot is in
//! that account's storage.

use vstd::prelude::*;
use crate::bytes::words_equal;
use crate::error::ProverError;
use crate::header::{header_number, header_state_root};
use crate::{ProverInput, ProverOutput};

verus! {

/// The header's hash is the trusted block hash.
pub open spec fn anchored(input: &ProverInput) -> bool {
    input.header@.hash() == input.block_header@
}

/// The outcome of checking the account against the header's state root.
pub open spec fn account_outcome(input: &ProverInput) -> Result<(), ProverError> {
    input.account_proof.outcome(header_state_root(input.header@.header))
}

/// The outcome of checking the slot against the storage root of the
/// account.
pub open spec fn storage_outcome(input: &ProverInput) -> Result<(), ProverError> {
    input.account_proof.storage_proof.outcome(input.account_proof.trie.storage_root@)
}

/// Runs the three checks in order and stops at the first that fails:
///
/// 1. the hash of the header is the trusted block hash;
/// 2. the account proof holds against the header's state root;
/// 3. the storage proof holds against the storage root of the account
///    that was just checked.
///
/// Only if all three pass is there an output: the header's block number
/// and the slot's value. A failure gives no output at all.
pub fn verify_input(input: &ProverInput) -> (outcome: Result<ProverOutput, ProverError>)
    ensures
        match outcome {
            Ok(output) => {
                &&& anchored(input)
                &&& account_outcome(input) is Ok
                &&& storage_outcome(input) is Ok
                &&& output.block_number == header_number(input.header@.header)
                &&& output.state_root == input.account_proof.storage_proof.value
            },
            Err(ProverError::BlockHashMismatch { expected, found }) => {
                &&& !anchored(input)
                &&& expected == input.block_header
                &&& found@ == input.header@.hash()
            },
            Err(failure) => {
                &&& anchored(input)
                &&& if account_outcome(input) is Err {
                    account_outcome(input) == Err::<(), ProverError>(failure)
                } else {
                    storage_outcome(input) == Err::<(), ProverError>(failure)
                }
            },
        },
{
    let found = input.header.hash_slow();
    if !words_equal(&found, &input.block_header) {
        return Err(ProverError::BlockHashMismatch { expected: input.block_header, found });
    }
    let account_proof = &input.account_proof;
    match account_proof.verify_proof(input.header.state_root()) {
        Ok(()) => {},
        Err(failure) => {
            return Err(failure);
        },
    }
    let storage_proof = &account_proof.storage_proof;
    match storage_proof.verify_proof(account_proof.trie.storage_root) {
        Ok(()) => {},
        Err(failure) => {
            return Err(failure);
        },
    }
    Ok(ProverOutput { block_number: input.header.number(), state_root: storage_proof.value })
}

} // verus!
