use world_relayer::bytes::{slices_equal, word_from_u64, words_equal};
use world_relayer::listener::{BlockRange, TreeChangedEvent, WorldIDListener};
use world_relayer::publisher::{
    DestinationChain, Groth16, ProofPublisher, PublisherError, SourceChain,
};
use world_relayer::relayer::{
    Action, BuildError, Completion, Config, Relay, RelayFailure, RelayerBuilder, Stage,
};

const MANAGER: &str = "0xf7134CE138832c1456F2a91D64621eE90c2bddEa";

fn event(pre: u8, post: u8, block_number: u64) -> TreeChangedEvent {
    TreeChangedEvent { pre_root: [pre; 32], post_root: [post; 32], block_number }
}

fn config(chain: SourceChain) -> Config {
    Config {
        chain,
        world_id_manager: MANAGER.to_string(),
        world_id_latest_root_slot: 302,
        starknet_account: [7; 32],
        relayer_verifier: [9; 32],
    }
}

fn run_from(block: u64) -> Relay {
    RelayerBuilder::new(config(SourceChain::Sepolia)).build().unwrap().relay(block)
}

/// Drives a run to the point where it has asked for the events up to
/// `latest`.
fn poll(run: &mut Relay, latest: u64) -> Action {
    assert_eq!(run.step(Completion::Tick), Action::QueryFinalized);
    run.step(Completion::Finalized(Some(latest)))
}

#[test]
fn an_event_with_equal_roots_changes_nothing() {
    assert!(event(4, 4, 10).changes_nothing());
    assert!(!event(4, 5, 10).changes_nothing());
    let mut nearly = event(4, 4, 10);
    nearly.post_root[31] = 5;
    assert!(!nearly.changes_nothing());
}

#[test]
fn a_stream_starts_at_the_finalized_block() {
    let listener = WorldIDListener::new([3; 20]);
    assert_eq!(listener.address(), [3; 20]);
    let stream = listener.subscribe(100);
    assert_eq!(stream.last_block(), 100);
    assert_eq!(stream.backlog_len(), 0);
    assert_eq!(stream.peek_event().map(|e| e.block_number), None);
}

#[test]
fn a_scan_is_planned_only_when_the_chain_advanced() {
    let stream = WorldIDListener::new([3; 20]).subscribe(100);
    assert_eq!(stream.plan_scan(None), None);
    assert_eq!(stream.plan_scan(Some(99)), None);
    assert_eq!(stream.plan_scan(Some(100)), None);
    assert_eq!(
        stream.plan_scan(Some(101)),
        Some(BlockRange { from_block: 101, to_block: 101 })
    );
    assert_eq!(
        stream.plan_scan(Some(u64::MAX)),
        Some(BlockRange { from_block: 101, to_block: u64::MAX })
    );
}

#[test]
fn a_scan_keeps_the_events_that_change_the_root_in_order() {
    let mut stream = WorldIDListener::new([3; 20]).subscribe(100);
    let found = vec![event(1, 2, 101), event(2, 2, 102), event(2, 3, 103), event(3, 3, 104)];
    stream.complete_scan(105, Some(found));
    assert_eq!(stream.last_block(), 105);
    assert_eq!(stream.backlog_len(), 2);
    assert_eq!(stream.peek_event().map(|e| e.block_number), Some(101));
    assert_eq!(stream.next_event().map(|e| e.block_number), Some(101));
    assert_eq!(stream.next_event().map(|e| e.block_number), Some(103));
    assert_eq!(stream.next_event().map(|e| e.block_number), None);
    assert_eq!(stream.last_block(), 105);
}

#[test]
fn a_scan_without_events_still_moves_the_cursor() {
    let mut stream = WorldIDListener::new([3; 20]).subscribe(100);
    stream.complete_scan(105, Some(vec![]));
    assert_eq!(stream.last_block(), 105);
    assert_eq!(stream.backlog_len(), 0);
}

#[test]
fn a_failed_scan_changes_nothing() {
    let mut stream = WorldIDListener::new([3; 20]).subscribe(100);
    stream.complete_scan(105, None);
    assert_eq!(stream.last_block(), 100);
    assert_eq!(stream.backlog_len(), 0);
    assert_eq!(
        stream.plan_scan(Some(105)),
        Some(BlockRange { from_block: 101, to_block: 105 })
    );
}

#[test]
fn a_scan_that_does_not_reach_past_the_cursor_changes_nothing() {
    let mut stream = WorldIDListener::new([3; 20]).subscribe(100);
    stream.complete_scan(100, Some(vec![event(1, 2, 100)]));
    assert_eq!(stream.last_block(), 100);
    assert_eq!(stream.backlog_len(), 0);
}

#[test]
fn one_event_leads_to_one_input_one_proof_and_one_publication() {
    // the finalized block goes from 1000 to 1005; one event at 1003
    let mut run = run_from(1000);
    assert_eq!(run.awaited(), Action::Wait);
    let mut actions = vec![poll(&mut run, 1005)];
    assert_eq!(
        actions[0],
        Action::QueryEvents(BlockRange { from_block: 1001, to_block: 1005 })
    );
    actions.push(run.step(Completion::Events(Some(vec![event(1, 2, 1003)]))));
    actions.push(run.step(Completion::Assembled(true)));
    actions.push(run.step(Completion::Proved(true)));
    actions.push(run.step(Completion::Published(true)));
    assert_eq!(
        actions[1..],
        [
            Action::Assemble { block_number: 1003 },
            Action::Prove { block_number: 1003 },
            Action::Publish { block_number: 1003 },
            Action::Wait,
        ]
    );
    assert_eq!(run.cursor(), 1005);
    assert_eq!(run.stage(), Stage::Waiting);
    // nothing is left over: the next round polls the chain again
    assert_eq!(run.step(Completion::Tick), Action::QueryFinalized);
    assert_eq!(run.step(Completion::Finalized(Some(1005))), Action::Wait);
    let count = |wanted: fn(&Action) -> bool| actions.iter().filter(|a| wanted(a)).count();
    assert_eq!(count(|a| matches!(a, Action::Assemble { .. })), 1);
    assert_eq!(count(|a| matches!(a, Action::Prove { .. })), 1);
    assert_eq!(count(|a| matches!(a, Action::Publish { .. })), 1);
}

#[test]
fn a_failed_poll_leaves_the_cursor_and_the_range_is_asked_for_again() {
    let mut run = run_from(1000);
    assert_eq!(run.step(Completion::Tick), Action::QueryFinalized);
    assert_eq!(run.step(Completion::Finalized(None)), Action::Wait);
    assert_eq!(run.cursor(), 1000);
    assert_eq!(
        poll(&mut run, 1005),
        Action::QueryEvents(BlockRange { from_block: 1001, to_block: 1005 })
    );
    assert_eq!(
        run.step(Completion::Events(Some(vec![event(1, 2, 1002)]))),
        Action::Assemble { block_number: 1002 }
    );
    assert_eq!(run.cursor(), 1005);
    assert_eq!(run.step(Completion::Assembled(true)), Action::Prove { block_number: 1002 });
    assert_eq!(run.step(Completion::Proved(true)), Action::Publish { block_number: 1002 });
    assert_eq!(run.step(Completion::Published(true)), Action::Wait);
    // the event is not handed on a second time
    assert_eq!(
        poll(&mut run, 1010),
        Action::QueryEvents(BlockRange { from_block: 1006, to_block: 1010 })
    );
    assert_eq!(run.step(Completion::Events(Some(vec![]))), Action::Wait);
}

#[test]
fn a_failed_scan_leaves_the_cursor_and_the_range_is_scanned_again() {
    let mut run = run_from(1000);
    poll(&mut run, 1005);
    assert_eq!(run.step(Completion::Events(None)), Action::Wait);
    assert_eq!(run.cursor(), 1000);
    assert_eq!(
        poll(&mut run, 1007),
        Action::QueryEvents(BlockRange { from_block: 1001, to_block: 1007 })
    );
}

#[test]
fn only_the_event_that_changes_the_root_reaches_the_prover() {
    let mut run = run_from(1000);
    poll(&mut run, 1005);
    let found = vec![event(5, 5, 1002), event(5, 6, 1004)];
    assert_eq!(
        run.step(Completion::Events(Some(found))),
        Action::Assemble { block_number: 1004 }
    );
    assert_eq!(run.step(Completion::Assembled(true)), Action::Prove { block_number: 1004 });
    assert_eq!(run.step(Completion::Proved(true)), Action::Publish { block_number: 1004 });
    assert_eq!(run.step(Completion::Published(true)), Action::Wait);
}

#[test]
fn a_window_of_no_op_events_reaches_nothing() {
    let mut run = run_from(1000);
    poll(&mut run, 1005);
    let found = vec![event(5, 5, 1002), event(6, 6, 1004)];
    assert_eq!(run.step(Completion::Events(Some(found))), Action::Wait);
    assert_eq!(run.cursor(), 1005);
}

#[test]
fn events_of_one_window_are_worked_on_one_after_the_other() {
    let mut run = run_from(1000);
    poll(&mut run, 1005);
    let found = vec![event(1, 2, 1001), event(2, 3, 1003), event(3, 4, 1005)];
    let mut action = run.step(Completion::Events(Some(found)));
    for block_number in [1001, 1003, 1005] {
        assert_eq!(action, Action::Assemble { block_number });
        assert_eq!(run.step(Completion::Assembled(true)), Action::Prove { block_number });
        assert_eq!(run.step(Completion::Proved(true)), Action::Publish { block_number });
        action = run.step(Completion::Published(true));
    }
    assert_eq!(action, Action::Wait);
}

#[test]
fn a_failed_assembly_is_taken_up_again_after_the_interval() {
    let mut run = run_from(1000);
    poll(&mut run, 1005);
    run.step(Completion::Events(Some(vec![event(1, 2, 1003)])));
    assert_eq!(run.step(Completion::Assembled(false)), Action::Wait);
    assert_eq!(run.cursor(), 1005);
    assert_eq!(run.step(Completion::Tick), Action::Assemble { block_number: 1003 });
    assert_eq!(run.step(Completion::Assembled(true)), Action::Prove { block_number: 1003 });
}

#[test]
fn a_failed_proof_stops_the_run() {
    let mut run = run_from(1000);
    poll(&mut run, 1005);
    run.step(Completion::Events(Some(vec![event(1, 2, 1003)])));
    run.step(Completion::Assembled(true));
    assert_eq!(run.step(Completion::Proved(false)), Action::Halt(RelayFailure::Proving));
    assert_eq!(run.stage(), Stage::Halted(RelayFailure::Proving));
    assert_eq!(run.step(Completion::Tick), Action::Halt(RelayFailure::Proving));
}

#[test]
fn a_failed_publication_stops_the_run() {
    let mut run = run_from(1000);
    poll(&mut run, 1005);
    run.step(Completion::Events(Some(vec![event(1, 2, 1003)])));
    run.step(Completion::Assembled(true));
    run.step(Completion::Proved(true));
    assert_eq!(
        run.step(Completion::Published(false)),
        Action::Halt(RelayFailure::Publishing)
    );
    assert_eq!(run.step(Completion::Published(true)), Action::Halt(RelayFailure::Publishing));
}

#[test]
fn a_report_that_was_not_asked_for_changes_nothing() {
    let mut run = run_from(1000);
    assert_eq!(run.step(Completion::Proved(true)), Action::Wait);
    assert_eq!(run.step(Completion::Events(Some(vec![event(1, 2, 1003)]))), Action::Wait);
    assert_eq!(run.step(Completion::Finalized(Some(2000))), Action::Wait);
    assert_eq!(run.cursor(), 1000);
    assert_eq!(run.stage(), Stage::Waiting);
    poll(&mut run, 1005);
    assert_eq!(
        run.step(Completion::Tick),
        Action::QueryEvents(BlockRange { from_block: 1001, to_block: 1005 })
    );
}

#[test]
fn the_builder_reads_the_configuration() {
    let relayer = RelayerBuilder::new(config(SourceChain::Mainnet)).build().unwrap();
    let mut address = [0u8; 20];
    address.copy_from_slice(&alloy_primitives::hex::decode(MANAGER).unwrap());
    assert_eq!(relayer.world_id_addr(), address);
    let mut slot = [0u8; 32];
    slot[30] = 0x01;
    slot[31] = 0x2e;
    assert_eq!(relayer.latest_root_slot(), slot);
    assert_eq!(relayer.proof_publisher().chain(), DestinationChain::Mainnet);
    assert_eq!(relayer.proof_publisher().account_address(), [7; 32]);
}

#[test]
fn the_builder_refuses_what_is_no_address() {
    for text in ["", "0x", "0x1234", "f7134CE138832c1456F2a91D64621eE90c2bddE", "0xzz134CE138832c1456F2a91D64621eE90c2bddEa"] {
        let mut bad = config(SourceChain::Sepolia);
        bad.world_id_manager = text.to_string();
        assert!(
            matches!(RelayerBuilder::new(bad).build(), Err(BuildError::ManagerAddress(_))),
            "{text}"
        );
    }
    let mut bare = config(SourceChain::Sepolia);
    bare.world_id_manager = MANAGER[2..].to_lowercase();
    assert!(RelayerBuilder::new(bare).build().is_ok());
}

#[test]
fn the_builder_refuses_a_chain_without_a_destination() {
    let outcome = RelayerBuilder::new(config(SourceChain::Other)).build();
    assert!(matches!(
        outcome,
        Err(BuildError::Publisher(PublisherError::UnsupportedChain))
    ));
}

#[test]
fn the_publisher_goes_with_the_source_chain() {
    let sepolia = ProofPublisher::new([1; 32], [2; 32], SourceChain::Sepolia).unwrap();
    assert_eq!(sepolia.chain(), DestinationChain::Sepolia);
    let mainnet = ProofPublisher::new([1; 32], [2; 32], SourceChain::Mainnet).unwrap();
    assert_eq!(mainnet.chain(), DestinationChain::Mainnet);
    assert_eq!(
        ProofPublisher::new([1; 32], [2; 32], SourceChain::Other).err(),
        Some(PublisherError::UnsupportedChain)
    );
}

#[test]
fn the_published_call_carries_the_calldata_to_the_verifier() {
    let publisher = ProofPublisher::new([1; 32], [2; 32], SourceChain::Sepolia).unwrap();
    let proof = Groth16 { calldata: vec![[3; 32], [4; 32], [5; 32]] };
    let call = publisher.publish(&proof);
    assert_eq!(call.to, [2; 32]);
    assert_eq!(call.entry_point, "verify_latest_root_proof");
    assert_eq!(call.calldata, vec![[3; 32], [4; 32], [5; 32]]);
    assert_eq!(publisher.publish(&Groth16 { calldata: vec![] }).calldata.len(), 0);
}

#[test]
fn a_number_widens_to_a_big_endian_word() {
    assert_eq!(word_from_u64(0), [0u8; 32]);
    let mut expected = [0u8; 32];
    expected[24..].copy_from_slice(&0x0102_0304_0506_0708u64.to_be_bytes());
    assert_eq!(word_from_u64(0x0102_0304_0506_0708), expected);
    let mut all = [0u8; 32];
    all[24..].copy_from_slice(&[0xff; 8]);
    assert_eq!(word_from_u64(u64::MAX), all);
}

#[test]
fn byte_strings_are_compared_byte_for_byte() {
    assert!(slices_equal(&[], &[]));
    assert!(slices_equal(&[1, 2, 3], &[1, 2, 3]));
    assert!(!slices_equal(&[1, 2, 3], &[1, 2]));
    assert!(!slices_equal(&[1, 2, 3], &[1, 2, 4]));
    let mut other = [8u8; 32];
    assert!(words_equal(&[8u8; 32], &other));
    other[0] = 9;
    assert!(!words_equal(&[8u8; 32], &other));
}
