//! The relay pipeline: watcher, proof assembly, proving and publishing, with
//! never more than one proof in flight.
//!
//! The pipeline is a state machine. The caller performs each action that the
//! machine asks for (a sleep, a query, a proof, a transaction) and reports
//! how it ended; the machine decides what follows.

use vstd::prelude::*;
use alloy_consensus::Header;
use crate::bytes::{word_from_u64, word_of_u64};
use crate::header::{HeaderModel, RlpHeader};
use crate::hex::bytes_of;
use crate::listener::{qualifying, BlockRange, EventStream, TreeChangedEvent, WorldIDListener};
use crate::proofs::account::{AccountProof, AccountProofResponse};
use crate::publisher::{destination_of, ProofPublisher, PublisherError, SourceChain};
use crate::ProverInput;

verus! {

/// What the relay is set up from.
#[derive(Debug)]
pub struct Config {
    /// The chain to read from.
    pub chain: SourceChain,
    /// The address of the identity manager contract, as hexadecimal text.
    pub world_id_manager: String,
    /// The index of the storage slot that holds the latest root.
    pub world_id_latest_root_slot: u64,
    /// The address of the account that signs on the destination chain.
    pub starknet_account: [u8; 32],
    /// The address of the verifier contract on the destination chain.
    pub relayer_verifier: [u8; 32],
}

/// Why a relay could not be set up.
#[derive(Debug)]
pub enum BuildError {
    /// The address of the identity manager is no address.
    ManagerAddress(alloy_primitives::hex::FromHexError),
    /// No publisher could be set up.
    Publisher(PublisherError),
}

/// Sets a relay up from its configuration.
#[derive(Debug)]
pub struct RelayerBuilder {
    config: Config,
}

/// A relay that is set up: what it watches, what it proves, and where it
/// publishes.
#[derive(Debug, Clone, Copy)]
pub struct Relayer {
    latest_root_slot: [u8; 32],
    world_listener: WorldIDListener,
    world_id_addr: [u8; 20],
    proof_publisher: ProofPublisher,
    chain: SourceChain,
}

/// Calls `str::parse` for an `alloy_primitives::Address`, which reads
/// hexadecimal text into twenty bytes. The contract states what the crate's
/// source shows: the text is read as any hexadecimal text is, and refused
/// unless it spells exactly twenty bytes. Which error is returned is not
/// stated.
#[verifier::external_body]
fn parse_address(text: &str) -> (address: Result<[u8; 20], alloy_primitives::hex::FromHexError>)
    ensures
        match address {
            Ok(found) => bytes_of(text@) == Some(found@),
            Err(_) => !(bytes_of(text@) matches Some(bytes) && bytes.len() == 20),
        },
{
    text.parse::<alloy_primitives::Address>().map(|address| address.0.0)
}

impl RelayerBuilder {
    /// The configuration that the relay will be built from.
    pub closed spec fn config(&self) -> Config {
        self.config
    }

    /// A builder for the given configuration.
    pub fn new(config: Config) -> (builder: Self)
        ensures
            builder.config() == config,
    {
        RelayerBuilder { config }
    }

    /// Sets the relay up: reads the identity manager's address, widens the
    /// slot index to a slot key, and sets up the publisher for the
    /// destination chain that goes with the source chain.
    pub fn build(self) -> (relayer: Result<Relayer, BuildError>)
        ensures
            match relayer {
                Ok(built) => {
                    &&& bytes_of(self.config().world_id_manager@) == Some(built.contract())
                    &&& built.slot_key() == word_of_u64(self.config().world_id_latest_root_slot)
                    &&& built.source() == self.config().chain
                    &&& destination_of(self.config().chain) == Some(built.publisher().destination())
                    &&& built.publisher().account() == self.config().starknet_account@
                    &&& built.publisher().contract() == self.config().relayer_verifier@
                },
                Err(BuildError::ManagerAddress(_)) => !(bytes_of(
                    self.config().world_id_manager@,
                ) matches Some(bytes) && bytes.len() == 20),
                Err(BuildError::Publisher(error)) => {
                    &&& bytes_of(self.config().world_id_manager@) matches Some(bytes)
                        && bytes.len() == 20
                    &&& destination_of(self.config().chain) is None
                    &&& error == PublisherError::UnsupportedChain
                },
            },
    {
        let latest_root_slot = word_from_u64(self.config.world_id_latest_root_slot);
        let world_idm = match parse_address(self.config.world_id_manager.as_str()) {
            Ok(address) => address,
            Err(error) => {
                return Err(BuildError::ManagerAddress(error));
            },
        };
        let world_listener = WorldIDListener::new(world_idm);
        let publisher = match ProofPublisher::new(
            self.config.starknet_account,
            self.config.relayer_verifier,
            self.config.chain,
        ) {
            Ok(publisher) => publisher,
            Err(error) => {
                return Err(BuildError::Publisher(error));
            },
        };
        Ok(
            Relayer {
                latest_root_slot,
                world_listener,
                world_id_addr: world_idm,
                proof_publisher: publisher,
                chain: self.config.chain,
            },
        )
    }
}

impl Relayer {
    /// The address of the watched contract.
    pub closed spec fn contract(&self) -> Seq<u8> {
        self.world_id_addr@
    }

    /// The key of the storage slot that is proved.
    pub closed spec fn slot_key(&self) -> Seq<u8> {
        self.latest_root_slot@
    }

    /// The chain that is read from.
    pub closed spec fn source(&self) -> SourceChain {
        self.chain
    }

    /// The publisher.
    pub closed spec fn publisher(&self) -> ProofPublisher {
        self.proof_publisher
    }

    /// The address of the watched contract.
    pub fn world_id_addr(&self) -> (address: [u8; 20])
        ensures
            address@ == self.contract(),
    {
        self.world_id_addr
    }

    /// The key of the storage slot that is proved.
    pub fn latest_root_slot(&self) -> (key: [u8; 32])
        ensures
            key@ == self.slot_key(),
    {
        self.latest_root_slot
    }

    /// The publisher.
    pub fn proof_publisher(&self) -> (publisher: ProofPublisher)
        ensures
            publisher == self.publisher(),
    {
        self.proof_publisher
    }

    /// Starts a run of the relay at the block that is finalized now. The
    /// run begins by waiting for one poll interval.
    pub fn relay(&self, initial_finalized: u64) -> (run: Relay)
        ensures
            run.wf(),
            run.state() == (RelayState {
                stage: Stage::Waiting,
                cursor: initial_finalized,
                backlog: Seq::empty(),
            }),
    {
        Relay::start(self.world_listener.subscribe(initial_finalized))
    }

    /// Puts the prover input together from what the chain returned for one
    /// block: the header, without an encoding at hand; the block hash as
    /// the chain reported it; and the account proof built from the proof
    /// service's answer, with the first of its storage slots.
    pub fn prepare_prover_input(
        &self,
        header: Header,
        block_hash: [u8; 32],
        account_proof: AccountProofResponse,
    ) -> (input: ProverInput)
        requires
            account_proof.storage_proof@.len() > 0,
        ensures
            input.header@ == (HeaderModel { header, cache: None }),
            input.block_header == block_hash,
            input.account_proof.address == account_proof.address,
            input.account_proof.trie.nonce == account_proof.nonce,
            input.account_proof.trie.balance == account_proof.balance,
            input.account_proof.trie.storage_root == account_proof.storage_hash,
            input.account_proof.trie.code_hash == account_proof.code_hash,
            input.account_proof.proof == account_proof.account_proof,
            input.account_proof.storage_proof.key == account_proof.storage_proof@[0].key,
            input.account_proof.storage_proof.value == account_proof.storage_proof@[0].value,
            input.account_proof.storage_proof.proof == account_proof.storage_proof@[0].proof,
    {
        ProverInput {
            header: RlpHeader::new(header),
            account_proof: AccountProof::from_response(account_proof),
            block_header: block_hash,
        }
    }
}

/// Why the relay stopped for good.
#[derive(Debug, Clone, Copy, PartialEq, Eq, Structural)]
pub enum RelayFailure {
    /// The proving backend failed or rejected the computation.
    Proving,
    /// The transaction that carries the proof was not accepted.
    Publishing,
}

/// What the relay is waiting for.
#[derive(Debug, Clone, Copy, PartialEq, Eq, Structural)]
pub enum Stage {
    /// The poll interval to pass.
    Waiting,
    /// The chain's finalized block number.
    Polling,
    /// The events of the blocks up to `to_block`.
    Scanning { to_block: u64 },
    /// The prover input for the oldest event of the backlog.
    Assembling,
    /// The proof for that event.
    Proving,
    /// The transaction that publishes that proof.
    Publishing,
    /// Nothing: the relay has stopped.
    Halted(RelayFailure),
}

/// What the caller does next.
#[derive(Debug, Clone, Copy, PartialEq, Eq, Structural)]
pub enum Action {
    /// Sleep for one poll interval, then report `Completion::Tick`.
    Wait,
    /// Ask the chain for its finalized block number.
    QueryFinalized,
    /// Ask the chain for the change events in a range of blocks.
    QueryEvents(BlockRange),
    /// Build the prover input anchored at this block.
    Assemble { block_number: u64 },
    /// Hand the prover input for this block to the proving backend.
    Prove { block_number: u64 },
    /// Publish the proof for this block.
    Publish { block_number: u64 },
    /// Stop: the failure is fatal.
    Halt(RelayFailure),
}

/// How an action ended.
#[derive(Debug)]
pub enum Completion {
    /// The poll interval has passed.
    Tick,
    /// The finalized block number, or `None` when the query failed.
    Finalized(Option<u64>),
    /// The events found, or `None` when the query failed.
    Events(Option<Vec<TreeChangedEvent>>),
    /// Whether the prover input could be fetched and built.
    Assembled(bool),
    /// Whether the backend returned a proof.
    Proved(bool),
    /// Whether the transaction was accepted.
    Published(bool),
}

/// The mathematical state of a relay run.
pub struct RelayState {
    /// What the run is waiting for.
    pub stage: Stage,
    /// The relay cursor.
    pub cursor: u64,
    /// The qualifying events not yet published, oldest first.
    pub backlog: Seq<TreeChangedEvent>,
}

/// The mathematical content of a completion.
pub enum Report {
    Tick,
    Finalized(Option<u64>),
    Events(Option<Seq<TreeChangedEvent>>),
    Assembled(bool),
    Proved(bool),
    Published(bool),
}

impl Completion {
    /// The completion as a mathematical value.
    pub open spec fn report(self) -> Report {
        match self {
            Completion::Tick => Report::Tick,
            Completion::Finalized(number) => Report::Finalized(number),
            Completion::Events(Some(found)) => Report::Events(Some(found@)),
            Completion::Events(None) => Report::Events(None),
            Completion::Assembled(done) => Report::Assembled(done),
            Completion::Proved(done) => Report::Proved(done),
            Completion::Published(done) => Report::Published(done),
        }
    }
}

impl RelayState {
    /// In a run that is well formed, no event of the backlog is a no-op,
    /// an event is in flight only while the backlog holds it, and a scan
    /// reaches past the cursor.
    pub open spec fn wf(self) -> bool {
        &&& forall|k: int| 0 <= k < self.backlog.len() ==> !(#[trigger] self.backlog[k]).is_noop()
        &&& (self.stage == Stage::Assembling || self.stage == Stage::Proving || self.stage
            == Stage::Publishing) ==> self.backlog.len() > 0
        &&& forall|to_block: u64|
            self.stage == (Stage::Scanning { to_block }) ==> to_block > self.cursor
    }

    /// The stage that works on the backlog, when there is one, and waits for
    /// the next poll otherwise.
    pub open spec fn resume(cursor: u64, backlog: Seq<TreeChangedEvent>) -> RelayState {
        if backlog.len() > 0 {
            RelayState { stage: Stage::Assembling, cursor, backlog }
        } else {
            RelayState { stage: Stage::Waiting, cursor, backlog }
        }
    }

    /// The action that the run is waiting on.
    pub open spec fn awaited(self) -> Action {
        match self.stage {
            Stage::Waiting => Action::Wait,
            Stage::Polling => Action::QueryFinalized,
            Stage::Scanning { to_block } => Action::QueryEvents(
                BlockRange { from_block: (self.cursor + 1) as u64, to_block },
            ),
            Stage::Assembling => Action::Assemble { block_number: self.backlog[0].block_number },
            Stage::Proving => Action::Prove { block_number: self.backlog[0].block_number },
            Stage::Publishing => Action::Publish { block_number: self.backlog[0].block_number },
            Stage::Halted(failure) => Action::Halt(failure),
        }
    }

    /// The state that follows when an action ends with `report`. A report
    /// that does not answer the awaited action changes nothing.
    ///
    /// - After the interval the run takes up the backlog, if an assembly
    ///   failed before, and polls the chain otherwise.
    /// - A failed poll, and one that shows no new finalized block, lead back
    ///   to waiting. A new finalized block leads to a scan of the blocks
    ///   after the cursor.
    /// - A failed scan leads back to waiting with the cursor unmoved. A scan
    ///   moves the cursor to its last block and adds the events that change
    ///   the root to the backlog.
    /// - A failed assembly leaves the event in the backlog and waits; a
    ///   failed proof or publication stops the run.
    /// - A published proof removes its event; the next event is taken up
    ///   before the chain is polled again.
    pub open spec fn after(self, report: Report) -> RelayState {
        match (self.stage, report) {
            (Stage::Waiting, Report::Tick) => if self.backlog.len() > 0 {
                RelayState { stage: Stage::Assembling, ..self }
            } else {
                RelayState { stage: Stage::Polling, ..self }
            },
            (Stage::Polling, Report::Finalized(number)) => match EventStream::scan_after(
                self.cursor,
                number,
            ) {
                Some(range) => RelayState {
                    stage: Stage::Scanning { to_block: range.to_block },
                    ..self
                },
                None => RelayState { stage: Stage::Waiting, ..self },
            },
            (Stage::Scanning { to_block }, Report::Events(None)) => RelayState {
                stage: Stage::Waiting,
                ..self
            },
            (Stage::Scanning { to_block }, Report::Events(Some(found))) => if to_block
                > self.cursor {
                Self::resume(to_block, self.backlog + qualifying(found))
            } else {
                RelayState { stage: Stage::Waiting, ..self }
            },
            (Stage::Assembling, Report::Assembled(done)) => if done {
                RelayState { stage: Stage::Proving, ..self }
            } else {
                RelayState { stage: Stage::Waiting, ..self }
            },
            (Stage::Proving, Report::Proved(done)) => if done {
                RelayState { stage: Stage::Publishing, ..self }
            } else {
                RelayState { stage: Stage::Halted(RelayFailure::Proving), ..self }
            },
            (Stage::Publishing, Report::Published(done)) => if done {
                Self::resume(self.cursor, self.backlog.skip(1))
            } else {
                RelayState { stage: Stage::Halted(RelayFailure::Publishing), ..self }
            },
            _ => self,
        }
    }
}

/// One run of the relay: the watcher's state and the stage of the pipeline.
#[derive(Debug)]
pub struct Relay {
    stream: EventStream,
    stage: Stage,
}

impl Relay {
    /// The run as a mathematical value.
    pub closed spec fn state(&self) -> RelayState {
        RelayState {
            stage: self.stage,
            cursor: self.stream.cursor(),
            backlog: self.stream.backlog(),
        }
    }

    /// The run holds a well-formed state.
    pub closed spec fn wf(&self) -> bool {
        &&& self.stream.wf()
        &&& self.state().wf()
    }

    /// What was proved of a well-formed run follows from `wf` of its state.
    pub proof fn lemma_wf_state(&self)
        requires
            self.wf(),
        ensures
            self.state().wf(),
    {
    }

    /// A run that starts with the given stream, about to wait for the first
    /// poll interval.
    pub fn start(stream: EventStream) -> (run: Self)
        requires
            stream.wf(),
            stream.backlog().len() == 0,
        ensures
            run.wf(),
            run.state() == (RelayState {
                stage: Stage::Waiting,
                cursor: stream.cursor(),
                backlog: stream.backlog(),
            }),
    {
        Relay { stream, stage: Stage::Waiting }
    }

    /// The stage of the run.
    pub fn stage(&self) -> (stage: Stage)
        ensures
            stage == self.state().stage,
    {
        self.stage
    }

    /// The relay cursor.
    pub fn cursor(&self) -> (block: u64)
        ensures
            block == self.state().cursor,
    {
        self.stream.last_block()
    }

    /// The action that the run is waiting on.
    pub fn awaited(&self) -> (action: Action)
        requires
            self.wf(),
        ensures
            action == self.state().awaited(),
    {
        match self.stage {
            Stage::Waiting => Action::Wait,
            Stage::Polling => Action::QueryFinalized,
            Stage::Scanning { to_block } => {
                Action::QueryEvents(
                    BlockRange { from_block: self.stream.last_block() + 1, to_block },
                )
            },
            Stage::Assembling => Action::Assemble { block_number: self.head_block() },
            Stage::Proving => Action::Prove { block_number: self.head_block() },
            Stage::Publishing => Action::Publish { block_number: self.head_block() },
            Stage::Halted(failure) => Action::Halt(failure),
        }
    }

    fn head_block(&self) -> (block_number: u64)
        requires
            self.wf(),
            self.stream.backlog().len() > 0,
        ensures
            block_number == self.stream.backlog()[0].block_number,
    {
        match self.stream.peek_event() {
            Some(event) => event.block_number,
            None => 0,
        }
    }

    fn resume(&mut self)
        requires
            old(self).stream.wf(),
        ensures
            final(self).stream == old(self).stream,
            final(self).state() == RelayState::resume(
                old(self).stream.cursor(),
                old(self).stream.backlog(),
            ),
            final(self).wf(),
    {
        if self.stream.backlog_len() > 0 {
            self.stage = Stage::Assembling;
        } else {
            self.stage = Stage::Waiting;
        }
        proof {
            self.stream.lemma_backlog_changes_root();
        }
    }

    /// Takes in how the awaited action ended, and says what to do next.
    pub fn step(&mut self, completion: Completion) -> (action: Action)
        requires
            old(self).wf(),
        ensures
            final(self).wf(),
            final(self).state() == old(self).state().after(completion.report()),
            action == final(self).state().awaited(),
    {
        proof {
            self.stream.lemma_backlog_changes_root();
        }
        match (self.stage, completion) {
            (Stage::Waiting, Completion::Tick) => {
                if self.stream.backlog_len() > 0 {
                    self.stage = Stage::Assembling;
                } else {
                    self.stage = Stage::Polling;
                }
            },
            (Stage::Polling, Completion::Finalized(number)) => {
                match self.stream.plan_scan(number) {
                    Some(range) => {
                        self.stage = Stage::Scanning { to_block: range.to_block };
                    },
                    None => {
                        self.stage = Stage::Waiting;
                    },
                }
            },
            (Stage::Scanning { to_block }, Completion::Events(None)) => {
                self.stage = Stage::Waiting;
            },
            (Stage::Scanning { to_block }, Completion::Events(Some(found))) => {
                if to_block > self.stream.last_block() {
                    self.stream.complete_scan(to_block, Some(found));
                    self.resume();
                } else {
                    self.stage = Stage::Waiting;
                }
            },
            (Stage::Assembling, Completion::Assembled(done)) => {
                if done {
                    self.stage = Stage::Proving;
                } else {
                    self.stage = Stage::Waiting;
                }
            },
            (Stage::Proving, Completion::Proved(done)) => {
                if done {
                    self.stage = Stage::Publishing;
                } else {
                    self.stage = Stage::Halted(RelayFailure::Proving);
                }
            },
            (Stage::Publishing, Completion::Published(done)) => {
                if done {
                    let _ = self.stream.next_event();
                    self.resume();
                } else {
                    self.stage = Stage::Halted(RelayFailure::Publishing);
                }
            },
            _ => {},
        }
        self.awaited()
    }
}

/// The relay cursor never moves back.
pub proof fn lemma_cursor_is_monotonic(state: RelayState, report: Report)
    ensures
        state.after(report).cursor >= state.cursor,
{
}

/// A step keeps a well-formed run well formed.
pub proof fn lemma_step_preserves_wf(state: RelayState, report: Report)
    requires
        state.wf(),
    ensures
        state.after(report).wf(),
{
    match (state.stage, report) {
        (Stage::Scanning { to_block }, Report::Events(Some(found))) => {
            crate::listener::lemma_qualifying_drops_noops(found);
        },
        _ => {},
    }
}

/// The debounce law: whenever the run asks for a prover input, a proof or a
/// publication, it asks on behalf of the oldest event of its backlog, and
/// that event changes the root. An event whose root after equals its root
/// before never enters the backlog, so nothing is ever assembled or proved
/// for it.
pub proof fn lemma_debounce(state: RelayState, report: Report)
    requires
        state.wf(),
    ensures
        ({
            let next = state.after(report);
            match next.awaited() {
                Action::Assemble { block_number }
                | Action::Prove { block_number }
                | Action::Publish { block_number } => {
                    &&& next.backlog.len() > 0
                    &&& block_number == next.backlog[0].block_number
                    &&& !next.backlog[0].is_noop()
                },
                _ => true,
            }
        }),
        forall|k: int|
            0 <= k < state.after(report).backlog.len() ==> !(#[trigger] state.after(
                report,
            ).backlog[k]).is_noop(),
{
    lemma_step_preserves_wf(state, report);
}

/// A query that fails moves nothing: the cursor and the backlog stay, and
/// the run waits for the next interval, after which the same range is asked
/// for again.
pub proof fn lemma_failed_query_is_retried(state: RelayState)
    requires
        state.wf(),
        state.backlog.len() == 0,
    ensures
        state.stage == Stage::Polling ==> {
            let next = state.after(Report::Finalized(None));
            next.stage == Stage::Waiting && next.cursor == state.cursor && next.backlog
                == state.backlog
        },
        forall|to_block: u64|
            state.stage == (Stage::Scanning { to_block }) ==> {
                let next = state.after(Report::Events(None));
                next.stage == Stage::Waiting && next.cursor == state.cursor && next.backlog
                    == state.backlog
            },
        forall|latest: u64|
            #![trigger state.after(Report::Finalized(Some(latest)))]
            state.stage == Stage::Polling && latest > state.cursor ==> state.after(
                Report::Finalized(Some(latest)),
            ).awaited() == Action::QueryEvents(
                BlockRange { from_block: (state.cursor + 1) as u64, to_block: latest },
            ),
{
}

/// At most one proof is in flight: the run awaits a single action at a
/// time, and while it assembles, proves or publishes it neither polls nor
/// scans. The backlog changes only when a scan reports or a proof is
/// published.
pub proof fn lemma_one_in_flight(state: RelayState, report: Report)
    requires
        state.wf(),
    ensures
        (state.stage == Stage::Assembling || state.stage == Stage::Proving) ==> state.after(
            report,
        ).backlog == state.backlog && state.after(report).cursor == state.cursor,
        state.stage == Stage::Publishing ==> state.after(report).cursor == state.cursor && (
        state.after(report).backlog == state.backlog || state.after(report).backlog
            == state.backlog.skip(1)),
{
}

} // verus!
