//! The decisions of a peer synchronization session: which blocks answer a
//! request, whether an announced block needs validating, and the
//! all-or-nothing commit of a validated block to the node's state.
use vstd::prelude::*;

use crate::block::{BlockInfo, BlockInfoView, BlockOrder, BlockResponse, Transaction, copy_bytes};
use crate::hashing::bytes_eq;
use crate::ledger::{Ledger, blocks_after, extends, holds_id};

verus! {

broadcast use vstd::seq_lib::group_seq_properties;

/// How many blocks a session sends in answer to one request.
pub const BATCH: u64 = 10;

/// A change to the canonical execution state, produced by validating a
/// transaction against a snapshot of it.
#[derive(Clone, Debug)]
pub struct StateUpdate {
    pub data: Vec<u8>,
}

impl View for StateUpdate {
    type V = Seq<u8>;

    open spec fn view(&self) -> Seq<u8> {
        self.data@
    }
}

/// The transaction at `index` of a candidate block could not be applied.
#[derive(Clone, Copy, Debug, PartialEq, Eq, Structural)]
pub struct TransitionFailure {
    pub index: u64,
}

/// What became of an announced block.
#[derive(Clone, Copy, Debug, PartialEq, Eq, Structural)]
pub enum BlockOutcome {
    /// The node proposes blocks itself and commits them when it finalizes.
    Ignored,
    /// A block with the same digest is in the ledger already.
    Duplicate,
    /// The block does not follow the ledger's last block.
    NotExtending,
    /// One of its transactions could not be applied.
    InvalidTransition,
    /// Applied, appended and to be passed on to the other peers.
    Committed,
}

/// What a session does with an announced block before validating it.
#[derive(Clone, Copy, Debug, PartialEq, Eq, Structural)]
pub enum BlockAction {
    /// Leave it to the proposing path.
    Ignore,
    /// Already stored: nothing to do.
    Known,
    /// Validate its transactions against a snapshot of the canonical state.
    Validate,
}

pub struct NodeView {
    pub blocks: Seq<BlockInfoView>,
    pub canon: Seq<Seq<u8>>,
    pub pending: Seq<Seq<u8>>,
}

/// Selects the transactions that are not among `txs`.
pub open spec fn not_among(txs: Seq<Seq<u8>>) -> spec_fn(Seq<u8>) -> bool {
    |t: Seq<u8>| !txs.contains(t)
}

/// The state after committing `info`, given the updates its validation
/// produced (`None` when a transaction failed), and what became of it.
pub open spec fn commit_result(s: NodeView, info: BlockInfoView, updates: Option<Seq<Seq<u8>>>) -> (
    NodeView,
    BlockOutcome,
) {
    if holds_id(s.blocks, info.id()) {
        (s, BlockOutcome::Duplicate)
    } else if !extends(s.blocks, info) {
        (s, BlockOutcome::NotExtending)
    } else {
        match updates {
            None => (s, BlockOutcome::InvalidTransition),
            Some(u) => (
                NodeView {
                    blocks: s.blocks.push(info),
                    canon: s.canon + u,
                    pending: s.pending.filter(not_among(info.txs)),
                },
                BlockOutcome::Committed,
            ),
        }
    }
}

/// What a session makes of an announced block: nothing in consensus mode,
/// a commit otherwise.
pub open spec fn ingest_result(
    consensus_mode: bool,
    s: NodeView,
    info: BlockInfoView,
    updates: Option<Seq<Seq<u8>>>,
) -> (NodeView, BlockOutcome) {
    if consensus_mode {
        (s, BlockOutcome::Ignored)
    } else {
        commit_result(s, info, updates)
    }
}

pub open spec fn updates_view(v: Result<Vec<StateUpdate>, TransitionFailure>) -> Option<
    Seq<Seq<u8>>,
> {
    match v {
        Ok(u) => Some(u@.map_values(|x: StateUpdate| x@)),
        Err(_) => None,
    }
}

/// No digest appears at two positions.
pub open spec fn unique_ids(s: Seq<BlockInfoView>) -> bool {
    forall|i: int, j: int|
        0 <= i < s.len() && 0 <= j < s.len() && (#[trigger] s[i]).id() == (#[trigger] s[j]).id()
            ==> i == j
}

/// The node's shared state: the ledger of finalized blocks, the canonical
/// execution state as the updates applied to it, and the transactions not
/// yet in a block.
pub struct ValidatorState {
    pub blockchain: Ledger,
    pub canon: Vec<StateUpdate>,
    pub unconfirmed_txs: Vec<Transaction>,
}

impl View for ValidatorState {
    type V = NodeView;

    open spec fn view(&self) -> NodeView {
        NodeView {
            blocks: self.blockchain@,
            canon: self.canon@.map_values(|x: StateUpdate| x@),
            pending: self.unconfirmed_txs@.map_values(|t: Transaction| t@),
        }
    }
}

impl ValidatorState {
    pub open spec fn wf(&self) -> bool {
        self.blockchain.wf()
    }

    /// No digest is stored twice in the ledger.
    pub proof fn lemma_unique_ids(&self)
        requires
            self.wf(),
        ensures
            unique_ids(self@.blocks),
    {
        self.blockchain.lemma_wf();
        assert forall|i: int, j: int|
            0 <= i < self@.blocks.len() && 0 <= j < self@.blocks.len() && (
            #[trigger] self@.blocks[i]).id() == (#[trigger] self@.blocks[j]).id() implies i
            == j by {
            if i < j {
                assert(self@.blocks[i].id() != self@.blocks[j].id());
            } else if j < i {
                assert(self@.blocks[j].id() != self@.blocks[i].id());
            }
        }
    }

    /// A node that knows the genesis block alone.
    pub fn new(genesis: BlockInfo) -> (r: ValidatorState)
        ensures
            r.wf(),
            r@.blocks == seq![genesis@],
            r@.canon.len() == 0,
            r@.pending.len() == 0,
    {
        ValidatorState {
            blockchain: Ledger::new(genesis),
            canon: Vec::new(),
            unconfirmed_txs: Vec::new(),
        }
    }

    /// Adds a transaction to the pending pool.
    pub fn append_tx(&mut self, tx: Transaction)
        ensures
            final(self)@ == (NodeView { pending: old(self)@.pending.push(tx@), ..old(self)@ }),
            final(self).blockchain == old(self).blockchain,
    {
        self.unconfirmed_txs.push(tx);
        assert(final(self)@.pending =~= old(self)@.pending.push(tx@));
    }

    /// An independent copy of the canonical state, for trial execution.
    pub fn canon_snapshot(&self) -> (r: Vec<StateUpdate>)
        ensures
            r@.map_values(|x: StateUpdate| x@) == self@.canon,
    {
        let mut r: Vec<StateUpdate> = Vec::new();
        let mut i: usize = 0;
        while i < self.canon.len()
            invariant
                0 <= i <= self.canon.len(),
                r.len() == i,
                forall|j: int| 0 <= j < i ==> r@[j]@ == self.canon@[j]@,
            decreases self.canon.len() - i,
        {
            r.push(StateUpdate { data: copy_bytes(&self.canon[i].data) });
            i = i + 1;
        }
        assert(r@.map_values(|x: StateUpdate| x@) =~= self@.canon);
        r
    }

    /// Takes out of the pending pool every transaction that is among `txs`.
    pub fn remove_txs(&mut self, txs: &Vec<Transaction>)
        ensures
            final(self)@ == (NodeView {
                pending: old(self)@.pending.filter(
                    not_among(txs@.map_values(|t: Transaction| t@)),
                ),
                ..old(self)@
            }),
            final(self).blockchain == old(self).blockchain,
    {
        let ghost gone = txs@.map_values(|t: Transaction| t@);
        let ghost pred = not_among(gone);
        let ghost pending = self@.pending;
        let mut kept: Vec<Transaction> = Vec::new();
        let mut i: usize = 0;
        while i < self.unconfirmed_txs.len()
            invariant
                0 <= i <= self.unconfirmed_txs.len(),
                pending == self.unconfirmed_txs@.map_values(|t: Transaction| t@),
                gone == txs@.map_values(|t: Transaction| t@),
                pred == not_among(gone),
                kept@.map_values(|t: Transaction| t@) == pending.subrange(0, i as int).filter(pred),
            decreases self.unconfirmed_txs.len() - i,
        {
            let ghost before = kept@.map_values(|t: Transaction| t@);
            proof {
                assert(pending.subrange(0, i + 1) =~= pending.subrange(0, i as int).push(
                    pending[i as int],
                ));
                pending.subrange(0, i as int).lemma_filter_push(pending[i as int], pred);
            }
            let found = contains_tx(txs, &self.unconfirmed_txs[i]);
            if !found {
                kept.push(self.unconfirmed_txs[i].duplicate());
                assert(kept@.map_values(|t: Transaction| t@) =~= before.push(pending[i as int]));
            }
            i = i + 1;
        }
        assert(pending.subrange(0, pending.len() as int) =~= pending);
        self.unconfirmed_txs = kept;
    }

    /// Applies a validated block: if it is not stored yet, follows the
    /// ledger's last block and all its transactions applied, its updates go
    /// into the canonical state, the block into the ledger, and its
    /// transactions out of the pending pool, all together; else nothing
    /// changes.
    pub fn commit_block(
        &mut self,
        info: &BlockInfo,
        validation: Result<Vec<StateUpdate>, TransitionFailure>,
    ) -> (r: BlockOutcome)
        requires
            old(self).wf(),
        ensures
            final(self).wf(),
            (final(self)@, r) == commit_result(old(self)@, info@, updates_view(validation)),
    {
        if self.blockchain.has_block(info) {
            return BlockOutcome::Duplicate;
        }
        proof {
            self.blockchain.lemma_wf();
        }
        let last = self.blockchain.last();
        if info.sl <= last.sl || !crate::hashing::hash_eq(&info.st, &last.blockhash()) {
            return BlockOutcome::NotExtending;
        }
        assert(extends(self@.blocks, info@));
        let updates = match validation {
            Ok(u) => u,
            Err(_) => {
                return BlockOutcome::InvalidTransition;
            },
        };
        let ghost canon_before = self@.canon;
        let ghost u_view = updates@.map_values(|x: StateUpdate| x@);
        let mut updates = updates;
        self.canon.append(&mut updates);
        assert(self@.canon =~= canon_before + u_view);
        let added = self.blockchain.add(info);
        assert(added is Ok);
        self.remove_txs(&info.txs);
        BlockOutcome::Committed
    }
}

/// Whether a transaction with the bytes of `tx` is among `txs`.
pub fn contains_tx(txs: &Vec<Transaction>, tx: &Transaction) -> (r: bool)
    ensures
        r == txs@.map_values(|t: Transaction| t@).contains(tx@),
{
    let ghost views = txs@.map_values(|t: Transaction| t@);
    let mut i: usize = 0;
    while i < txs.len()
        invariant
            0 <= i <= txs.len(),
            views == txs@.map_values(|t: Transaction| t@),
            forall|j: int| 0 <= j < i ==> views[j] != tx@,
        decreases txs.len() - i,
    {
        if bytes_eq(&txs[i].data, &tx.data) {
            assert(views[i as int] == tx@);
            return true;
        }
        i = i + 1;
    }
    false
}

/// Delivering a block that has been committed, or was stored already, once
/// more changes nothing: the ledger keeps one entry with its digest, and the
/// pending pool is not touched a second time. Whatever the first delivery
/// did, no digest is stored twice afterwards.
pub proof fn lemma_duplicate_delivery(
    consensus_mode: bool,
    s: NodeView,
    info: BlockInfoView,
    first: Option<Seq<Seq<u8>>>,
    second: Option<Seq<Seq<u8>>>,
)
    requires
        unique_ids(s.blocks),
    ensures
        ({
            let (s1, o1) = ingest_result(consensus_mode, s, info, first);
            let (s2, o2) = ingest_result(consensus_mode, s1, info, second);
            &&& unique_ids(s1.blocks)
            &&& unique_ids(s2.blocks)
            &&& (o1 == BlockOutcome::Committed || o1 == BlockOutcome::Duplicate) ==> {
                &&& holds_id(s1.blocks, info.id())
                &&& s2 == s1
                &&& o2 == BlockOutcome::Duplicate
            }
        }),
{
    let (s1, o1) = ingest_result(consensus_mode, s, info, first);
    lemma_commit_keeps_ids_unique(s, info, first);
    if !consensus_mode {
        lemma_commit_keeps_ids_unique(s1, info, second);
    }
    if o1 == BlockOutcome::Committed {
        assert(s1.blocks[s1.blocks.len() - 1] == info);
    }
}

/// A commit never stores a digest twice.
pub proof fn lemma_commit_keeps_ids_unique(
    s: NodeView,
    info: BlockInfoView,
    updates: Option<Seq<Seq<u8>>>,
)
    requires
        unique_ids(s.blocks),
    ensures
        unique_ids(commit_result(s, info, updates).0.blocks),
{
    let t = commit_result(s, info, updates).0.blocks;
    if t.len() > s.blocks.len() {
        assert forall|i: int, j: int|
            0 <= i < t.len() && 0 <= j < t.len() && (#[trigger] t[i]).id() == (#[trigger] t[j]).id()
                implies i == j by {
            if i < s.blocks.len() && j == s.blocks.len() {
                assert(s.blocks[i].id() == info.id());
            }
            if j < s.blocks.len() && i == s.blocks.len() {
                assert(s.blocks[j].id() == info.id());
            }
            if i < s.blocks.len() && j < s.blocks.len() {
                assert(t[i] == s.blocks[i] && t[j] == s.blocks[j]);
            }
        }
    }
}

/// A block one of whose transactions cannot be applied leaves the ledger,
/// the canonical state and the pending pool as they were.
pub proof fn lemma_failed_transition_changes_nothing(
    consensus_mode: bool,
    s: NodeView,
    info: BlockInfoView,
)
    ensures
        ingest_result(consensus_mode, s, info, None).0 == s,
        ingest_result(consensus_mode, s, info, None).1 != BlockOutcome::Committed,
{
}

/// A peer session of the block synchronization protocol.
pub struct ProtocolSync {
    /// Whether this node proposes blocks itself, rather than following.
    pub consensus_mode: bool,
}

impl ProtocolSync {
    pub fn init(consensus_mode: bool) -> (r: ProtocolSync)
        ensures
            r.consensus_mode == consensus_mode,
    {
        ProtocolSync { consensus_mode }
    }

    /// The answer to a request: at most `BATCH` blocks at slots after the
    /// requested one, in ledger order. An empty answer means the peer is
    /// caught up.
    pub fn handle_receive_request(&self, state: &ValidatorState, order: &BlockOrder) -> (r:
        BlockResponse)
        ensures
            r.blocks@.map_values(|b: BlockInfo| b@) == blocks_after(
                state@.blocks,
                order.sl,
                BATCH as nat,
            ),
            r.blocks@.len() <= BATCH,
    {
        let blocks = state.blockchain.get_blocks_after(order.sl, BATCH);
        BlockResponse { blocks }
    }

    /// What to do with an announced block before validating it.
    pub fn handle_receive_block(&self, state: &ValidatorState, info: &BlockInfo) -> (r:
        BlockAction)
        requires
            state.wf(),
        ensures
            r == (if self.consensus_mode {
                BlockAction::Ignore
            } else if holds_id(state@.blocks, info@.id()) {
                BlockAction::Known
            } else {
                BlockAction::Validate
            }),
    {
        if self.consensus_mode {
            BlockAction::Ignore
        } else if state.blockchain.has_block(info) {
            BlockAction::Known
        } else {
            BlockAction::Validate
        }
    }

    /// Takes an announced block, with the outcome of validating its
    /// transactions: ignored in consensus mode, committed otherwise.
    pub fn ingest_block(
        &self,
        state: &mut ValidatorState,
        info: &BlockInfo,
        validation: Result<Vec<StateUpdate>, TransitionFailure>,
    ) -> (r: BlockOutcome)
        requires
            old(state).wf(),
        ensures
            final(state).wf(),
            (final(state)@, r) == ingest_result(
                self.consensus_mode,
                old(state)@,
                info@,
                updates_view(validation),
            ),
    {
        if self.consensus_mode {
            BlockOutcome::Ignored
        } else {
            state.commit_block(info, validation)
        }
    }

    pub fn name(&self) -> (r: &'static str)
        ensures
            r@ == "ProtocolSync"@,
    {
        "ProtocolSync"
    }
}

} // verus!
