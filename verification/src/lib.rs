//! Verification engine and relay logic for proving that a storage slot of an
//! Ethereum contract held a given value at a finalized block.

use vstd::prelude::*;
use crate::header::RlpHeader;
use crate::proofs::account::AccountProof;

pub mod bytes;
pub mod error;
pub mod guest;
pub mod hash;
pub mod header;
pub mod hex;
pub mod listener;
pub mod proofs;
pub mod publisher;
pub mod relayer;
pub mod rlp;

verus! {

/// What the verification is run on: a block header, the trusted hash of
/// that block, and the proof of an account with one of its storage slots.
#[derive(Debug)]
pub struct ProverInput {
    /// The block header.
    pub header: RlpHeader,
    /// The block hash, obtained independently of the header.
    pub block_header: [u8; 32],
    /// The account proof, with the proof of the storage slot.
    pub account_proof: AccountProof,
}

/// What the verification discloses: the block, and the value that the
/// storage slot was proved to hold in it.
#[derive(Debug, Clone, Copy)]
pub struct ProverOutput {
    /// The number of the block.
    pub block_number: u64,
    /// The proven value of the slot: a 256-bit number, big-endian.
    pub state_root: [u8; 32],
}

} // verus!
