//! Inclusion proofs: the trie walk, and the account and storage proofs that
//! rest on it.

pub mod account;
pub mod storage;
pub mod trie;
