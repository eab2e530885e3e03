//! The publisher: the call that carries a proof to the verifier contract on
//! the destination chain.

use vstd::prelude::*;

verus! {

/// The chain that the relay reads from.
#[derive(Debug, Clone, Copy, PartialEq, Eq, Structural)]
pub enum SourceChain {
    /// Ethereum mainnet.
    Mainnet,
    /// The Sepolia test network.
    Sepolia,
    /// Any other chain.
    Other,
}

/// The chain that proofs are published on.
#[derive(Debug, Clone, Copy, PartialEq, Eq, Structural)]
pub enum DestinationChain {
    /// Starknet mainnet, which goes with Ethereum mainnet.
    Mainnet,
    /// Starknet's Sepolia network, which goes with Sepolia.
    Sepolia,
}

/// Why no publisher could be set up.
#[derive(Debug, Clone, Copy, PartialEq, Eq, Structural)]
pub enum PublisherError {
    /// The source chain has no destination chain that goes with it.
    UnsupportedChain,
}

/// A proof in the form in which the verifier contract takes it.
#[derive(Debug, Clone)]
pub struct Groth16 {
    /// The arguments of the call, one field element each, big-endian.
    pub calldata: Vec<[u8; 32]>,
}

/// A call of a contract on the destination chain.
#[derive(Debug)]
pub struct Call {
    /// The contract that is called.
    pub to: [u8; 32],
    /// The name of the function that is called.
    pub entry_point: &'static str,
    /// The arguments.
    pub calldata: Vec<[u8; 32]>,
}

/// Publishes proofs to one verifier contract from one account.
#[derive(Debug, Clone, Copy)]
pub struct ProofPublisher {
    account_address: [u8; 32],
    relayer_verifier: [u8; 32],
    chain: DestinationChain,
}

/// The destination chain that goes with a source chain, if there is one.
pub open spec fn destination_of(chain: SourceChain) -> Option<DestinationChain> {
    match chain {
        SourceChain::Mainnet => Some(DestinationChain::Mainnet),
        SourceChain::Sepolia => Some(DestinationChain::Sepolia),
        SourceChain::Other => None,
    }
}

/// The function of the verifier contract that takes a proof.
pub open spec fn verify_entry_point() -> Seq<char> {
    "verify_latest_root_proof"@
}

impl ProofPublisher {
    /// The account that signs.
    pub closed spec fn account(&self) -> Seq<u8> {
        self.account_address@
    }

    /// The verifier contract.
    pub closed spec fn contract(&self) -> Seq<u8> {
        self.relayer_verifier@
    }

    /// The chain published on.
    pub closed spec fn destination(&self) -> DestinationChain {
        self.chain
    }

    /// Sets up a publisher for the destination chain that goes with
    /// `chain`. A source chain without one is refused.
    pub fn new(account_address: [u8; 32], world_verifier: [u8; 32], chain: SourceChain) -> (publisher:
        Result<Self, PublisherError>)
        ensures
            match publisher {
                Ok(created) => {
                    &&& destination_of(chain) == Some(created.destination())
                    &&& created.account() == account_address@
                    &&& created.contract() == world_verifier@
                },
                Err(error) => destination_of(chain) is None && error
                    == PublisherError::UnsupportedChain,
            },
    {
        let chain = match chain {
            SourceChain::Mainnet => DestinationChain::Mainnet,
            SourceChain::Sepolia => DestinationChain::Sepolia,
            SourceChain::Other => {
                return Err(PublisherError::UnsupportedChain);
            },
        };
        Ok(ProofPublisher { account_address, relayer_verifier: world_verifier, chain })
    }

    /// The signing account's address.
    pub fn account_address(&self) -> (address: [u8; 32])
        ensures
            address@ == self.account(),
    {
        self.account_address
    }

    /// The chain published on.
    pub fn chain(&self) -> (chain: DestinationChain)
        ensures
            chain == self.destination(),
    {
        self.chain
    }

    /// The call that publishes a proof: to the verifier contract, to its
    /// function that takes a proof, with the proof's calldata as it is.
    pub fn publish(&self, proof: &Groth16) -> (call: Call)
        ensures
            call.to@ == self.contract(),
            call.entry_point@ == verify_entry_point(),
            call.calldata@ == proof.calldata@,
    {
        let mut calldata: Vec<[u8; 32]> = Vec::new();
        let mut at: usize = 0;
        while at < proof.calldata.len()
            invariant
                at <= proof.calldata.len(),
                calldata@ == proof.calldata@.take(at as int),
            decreases proof.calldata.len() - at,
        {
            calldata.push(proof.calldata[at]);
            assert(calldata@ =~= proof.calldata@.take(at + 1));
            at += 1;
        }
        assert(proof.calldata@.take(proof.calldata.len() as int) =~= proof.calldata@);
        Call { to: self.relayer_verifier, entry_point: "verify_latest_root_proof", calldata }
    }
}

} // verus!
