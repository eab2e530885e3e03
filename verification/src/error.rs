//! Failures that the verification engine reports.

use vstd::prelude::*;
use crate::proofs::trie::TrieFailure;

verus! {

/// Why a storage value could not be verified.
#[derive(Debug, Clone, Copy, PartialEq, Eq)]
pub enum ProverError {
    /// The hash of the block header is not the trusted block hash.
    BlockHashMismatch {
        /// The trusted block hash.
        expected: [u8; 32],
        /// The hash of the header that was supplied.
        found: [u8; 32],
    },
    /// An inclusion proof was rejected.
    TrieVerification {
        /// The trie that the proof was checked against.
        context: TrieErrorContext,
        /// Why the proof was rejected.
        source: TrieFailure,
    },
}

/// Which of the two tries a failed inclusion proof was checked against.
#[derive(Debug, Clone, Copy, PartialEq, Eq, Structural)]
#[non_exhaustive]
pub enum TrieErrorContext {
    /// The state trie, which maps hashed addresses to account records.
    AccountRoot,
    /// The storage trie of one account, which maps hashed slot keys to values.
    StorageRoot,
}

impl TrieErrorContext {
    /// The words that name the trie in a message.
    pub open spec fn label(self) -> Seq<char> {
        match self {
            TrieErrorContext::AccountRoot => "Account state trie"@,
            TrieErrorContext::StorageRoot => "Storage trie"@,
        }
    }

    /// Names the trie in words, for messages.
    pub fn describe(&self) -> (text: &'static str)
        ensures
            text@ == self.label(),
    {
        match self {
            TrieErrorContext::AccountRoot => "Account state trie",
            TrieErrorContext::StorageRoot => "Storage trie",
        }
    }
}

} // verus!
