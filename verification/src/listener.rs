//! The event watcher: which block range to scan after each poll of the chain,
//! and which of the change events found there are handed on.
//!
//! The watcher owns the relay cursor. The caller performs the queries and
//! hands their outcomes back; the watcher decides what follows.

use vstd::prelude::*;
use crate::bytes::words_equal;

verus! {

/// A `TreeChanged(preRoot, postRoot)` event of the identity manager contract,
/// with the number of the block that holds it.
#[derive(Debug, Clone, Copy)]
pub struct TreeChangedEvent {
    /// The root before the change.
    pub pre_root: [u8; 32],
    /// The root after the change.
    pub post_root: [u8; 32],
    /// The block in which the event was logged.
    pub block_number: u64,
}

impl TreeChangedEvent {
    /// An event is a no-op when the root after it equals the root before it.
    pub open spec fn is_noop(self) -> bool {
        self.pre_root@ == self.post_root@
    }

    /// Tells whether the event left the root unchanged.
    pub fn changes_nothing(&self) -> (noop: bool)
        ensures
            noop == self.is_noop(),
    {
        words_equal(&self.pre_root, &self.post_root)
    }
}

/// The events of a scan that are handed on: those that change the root, in
/// the order in which the scan reported them.
pub open spec fn qualifying(logs: Seq<TreeChangedEvent>) -> Seq<TreeChangedEvent>
    decreases logs.len(),
{
    if logs.len() == 0 {
        Seq::empty()
    } else if logs.last().is_noop() {
        qualifying(logs.drop_last())
    } else {
        qualifying(logs.drop_last()).push(logs.last())
    }
}

/// An inclusive range of block numbers.
#[derive(Debug, Clone, Copy, PartialEq, Eq, Structural)]
pub struct BlockRange {
    /// The first block of the range.
    pub from_block: u64,
    /// The last block of the range.
    pub to_block: u64,
}

/// Watches one contract for change events in finalized blocks.
#[derive(Debug, Clone, Copy)]
pub struct WorldIDListener {
    world_idm: [u8; 20],
}

impl WorldIDListener {
    /// The address of the watched contract.
    pub closed spec fn contract(self) -> Seq<u8> {
        self.world_idm@
    }

    /// A listener for the contract at `world_idm`.
    pub fn new(world_idm: [u8; 20]) -> (listener: Self)
        ensures
            listener.contract() == world_idm@,
    {
        WorldIDListener { world_idm }
    }

    /// The address of the watched contract.
    pub fn address(&self) -> (address: [u8; 20])
        ensures
            address@ == self.contract(),
    {
        self.world_idm
    }

    /// Starts a stream of events at the block that is finalized now: only
    /// later blocks are scanned.
    pub fn subscribe(&self, initial_finalized: u64) -> (stream: EventStream)
        ensures
            stream.cursor() == initial_finalized,
            stream.backlog() == Seq::<TreeChangedEvent>::empty(),
            stream.wf(),
    {
        EventStream { last_block: initial_finalized, pending: Vec::new(), taken: 0 }
    }
}

/// The state of the watcher between polls: the relay cursor, and the
/// qualifying events of the last scan that have not been handed on yet.
#[derive(Debug)]
pub struct EventStream {
    last_block: u64,
    pending: Vec<TreeChangedEvent>,
    taken: usize,
}

impl EventStream {
    /// The relay cursor: the last finalized block whose events were scanned.
    pub closed spec fn cursor(&self) -> u64 {
        self.last_block
    }

    /// The events still to be handed on, oldest first.
    pub closed spec fn backlog(&self) -> Seq<TreeChangedEvent> {
        self.pending@.skip(self.taken as int)
    }

    /// No event in the backlog is a no-op.
    pub closed spec fn wf(&self) -> bool {
        &&& self.taken <= self.pending@.len()
        &&& forall|k: int| 0 <= k < self.pending@.len() ==> !(#[trigger] self.pending@[k]).is_noop()
    }

    /// Every event of a well-formed backlog changes the root.
    pub proof fn lemma_backlog_changes_root(&self)
        requires
            self.wf(),
        ensures
            forall|k: int|
                0 <= k < self.backlog().len() ==> !(#[trigger] self.backlog()[k]).is_noop(),
    {
    }

    /// The range that a poll asks to scan: the blocks after the cursor up to
    /// the finalized block, when the poll succeeded and the chain advanced.
    pub open spec fn scan_after(cursor: u64, finalized: Option<u64>) -> Option<BlockRange> {
        match finalized {
            Some(latest) if latest > cursor => Some(
                BlockRange { from_block: (cursor + 1) as u64, to_block: latest },
            ),
            _ => None,
        }
    }

    /// The relay cursor.
    pub fn last_block(&self) -> (block: u64)
        ensures
            block == self.cursor(),
    {
        self.last_block
    }

    /// The number of events waiting to be handed on.
    pub fn backlog_len(&self) -> (count: usize)
        requires
            self.wf(),
        ensures
            count == self.backlog().len(),
    {
        self.pending.len() - self.taken
    }

    /// Decides what a poll leads to. `finalized` is the chain's finalized
    /// block number, or `None` when the query failed. A failed query and a
    /// chain that has not advanced both lead to no scan; otherwise the range
    /// to scan starts right after the cursor and ends at the finalized block.
    /// The cursor stays where it is until the scan has reported.
    pub fn plan_scan(&self, finalized: Option<u64>) -> (range: Option<BlockRange>)
        ensures
            range == Self::scan_after(self.cursor(), finalized),
    {
        match finalized {
            Some(latest) => {
                if latest > self.last_block {
                    Some(BlockRange { from_block: self.last_block + 1, to_block: latest })
                } else {
                    None
                }
            },
            None => None,
        }
    }

    /// Takes in the outcome of scanning the blocks up to `to_block`. `logs`
    /// holds the events that the scan found, or `None` when the query failed.
    ///
    /// A failed scan changes nothing, so the same range is asked for again at
    /// the next poll. A scan that does not reach past the cursor changes
    /// nothing either. Otherwise the cursor moves to `to_block`, whether or
    /// not an event qualified, and the events that change the root join the
    /// backlog in the order reported.
    pub fn complete_scan(&mut self, to_block: u64, logs: Option<Vec<TreeChangedEvent>>)
        requires
            old(self).wf(),
        ensures
            final(self).wf(),
            logs is None || to_block <= old(self).cursor() ==> {
                &&& final(self).cursor() == old(self).cursor()
                &&& final(self).backlog() == old(self).backlog()
            },
            logs is Some && to_block > old(self).cursor() ==> {
                &&& final(self).cursor() == to_block
                &&& final(self).backlog() == old(self).backlog() + qualifying(logs->0@)
            },
    {
        match logs {
            None => {},
            Some(found) => {
                if to_block > self.last_block {
                    let ghost before = self.pending@;
                    let mut at: usize = 0;
                    while at < found.len()
                        invariant
                            at <= found.len(),
                            self.taken == old(self).taken,
                            self.last_block == old(self).last_block,
                            self.taken <= before.len(),
                            before == old(self).pending@,
                            self.pending@ == before + qualifying(found@.take(at as int)),
                            forall|k: int|
                                0 <= k < self.pending@.len() ==> !(
                                #[trigger] self.pending@[k]).is_noop(),
                        decreases found.len() - at,
                    {
                        let event = found[at];
                        proof {
                            assert(found@.take(at + 1).drop_last() =~= found@.take(at as int));
                            assert(found@.take(at + 1).last() == event);
                        }
                        if !event.changes_nothing() {
                            self.pending.push(event);
                            assert(self.pending@ =~= before + qualifying(found@.take(at + 1)));
                        }
                        at += 1;
                    }
                    assert(found@.take(found@.len() as int) =~= found@);
                    self.last_block = to_block;
                    assert(self.pending@.skip(self.taken as int) =~= before.skip(
                        self.taken as int,
                    ) + qualifying(found@));
                }
            },
        }
    }

    /// Hands on the oldest event of the backlog, if there is one.
    pub fn next_event(&mut self) -> (event: Option<TreeChangedEvent>)
        requires
            old(self).wf(),
        ensures
            final(self).wf(),
            final(self).cursor() == old(self).cursor(),
            old(self).backlog().len() == 0 ==> event is None && final(self).backlog() == old(
                self,
            ).backlog(),
            old(self).backlog().len() > 0 ==> {
                &&& event == Some(old(self).backlog()[0])
                &&& final(self).backlog() == old(self).backlog().skip(1)
                &&& !event->0.is_noop()
            },
    {
        if self.taken < self.pending.len() {
            let event = self.pending[self.taken];
            self.taken += 1;
            assert(self.pending@.skip(self.taken as int) =~= old(self).pending@.skip(
                old(self).taken as int,
            ).skip(1));
            Some(event)
        } else {
            None
        }
    }

    /// The oldest event of the backlog, left in place.
    pub fn peek_event(&self) -> (event: Option<TreeChangedEvent>)
        requires
            self.wf(),
        ensures
            self.backlog().len() == 0 ==> event is None,
            self.backlog().len() > 0 ==> event == Some(self.backlog()[0]) && !event->0.is_noop(),
    {
        if self.taken < self.pending.len() {
            Some(self.pending[self.taken])
        } else {
            None
        }
    }
}

/// No event that leaves the root unchanged is among the events handed on,
/// and every event handed on was reported by the scan.
pub proof fn lemma_qualifying_drops_noops(logs: Seq<TreeChangedEvent>)
    ensures
        forall|k: int|
            0 <= k < qualifying(logs).len() ==> {
                &&& !(#[trigger] qualifying(logs)[k]).is_noop()
                &&& logs.contains(qualifying(logs)[k])
            },
        qualifying(logs).len() <= logs.len(),
    decreases logs.len(),
{
    if logs.len() > 0 {
        let front = logs.drop_last();
        lemma_qualifying_drops_noops(front);
        assert forall|k: int| 0 <= k < qualifying(logs).len() implies logs.contains(
            #[trigger] qualifying(logs)[k],
        ) by {
            if k < qualifying(front).len() {
                let e = qualifying(front)[k];
                assert(front.contains(e));
                let j = choose|j: int| 0 <= j < front.len() && front[j] == e;
                assert(logs[j] == e);
            } else {
                assert(logs[logs.len() - 1] == logs.last());
            }
        }
    }
}

/// Every reported event that changes the root is handed on.
pub proof fn lemma_qualifying_keeps_changes(logs: Seq<TreeChangedEvent>, at: int)
    requires
        0 <= at < logs.len(),
        !logs[at].is_noop(),
    ensures
        qualifying(logs).contains(logs[at]),
    decreases logs.len(),
{
    let front = logs.drop_last();
    if at == logs.len() - 1 {
        let q = qualifying(logs);
        assert(q[q.len() - 1] == logs[at]);
    } else {
        lemma_qualifying_keeps_changes(front, at);
        let j = choose|j: int| 0 <= j < qualifying(front).len() && qualifying(front)[j] == front[at];
        assert(qualifying(logs)[j] == logs[at]);
    }
}

} // verus!
