//! Blocks, full block data and signed block proposals, with the digest that
//! identifies each of them.
use vstd::prelude::*;
use vstd::string::StringSliceAdditionalSpecFns;

use crate::encoding::{
    encode_digests, flatten, le_u64, lemma_flatten_digests_injective, lemma_le_u64_injective,
    lemma_varint_injective, lemma_varint_len, push_digest, push_digests, push_u64, varint,
};
use crate::hashing::{blake3_hash, blake3_of, bytes_eq, hash_eq};

verus! {

/// Version written into every block made by this library.
pub const BLOCK_VERSION: u8 = 1;

/// Seed whose digest is the genesis block's randomness.
pub const GENESIS_SEED: &'static str = "let there be dark!";

/// Additional block information: the producer's timestamp and the
/// randomness carried from block to block.
#[derive(Clone, Copy, Debug)]
pub struct Metadata {
    pub timestamp: u64,
    pub eta: [u8; 32],
}

impl Metadata {
    pub fn new(timestamp: u64, eta: [u8; 32]) -> (r: Metadata)
        ensures
            r.timestamp == timestamp,
            r.eta == eta,
    {
        Metadata { timestamp, eta }
    }
}

/// Bookkeeping of the Streamlet protocol attached to a proposal.
#[derive(Clone, Copy, Debug)]
pub struct StreamletMetadata {
    pub notarized: bool,
    pub finalized: bool,
}

/// A transaction, held as its serialized bytes.
#[derive(Clone, Debug)]
pub struct Transaction {
    pub data: Vec<u8>,
}

impl View for Transaction {
    type V = Seq<u8>;

    open spec fn view(&self) -> Seq<u8> {
        self.data@
    }
}

/// The digest that identifies a transaction.
pub open spec fn tx_digest(tx: Seq<u8>) -> Seq<u8> {
    blake3_of(tx)
}

pub fn copy_bytes(b: &Vec<u8>) -> (r: Vec<u8>)
    ensures
        r@ == b@,
{
    let mut r: Vec<u8> = Vec::new();
    let mut i: usize = 0;
    while i < b.len()
        invariant
            0 <= i <= b.len(),
            r@ == b@.subrange(0, i as int),
        decreases b.len() - i,
    {
        r.push(b[i]);
        assert(b@.subrange(0, i + 1) =~= b@.subrange(0, i as int).push(b@[i as int]));
        i = i + 1;
    }
    assert(b@.subrange(0, b.len() as int) =~= b@);
    r
}

impl Transaction {
    pub fn new(data: Vec<u8>) -> (r: Transaction)
        ensures
            r@ == data@,
    {
        Transaction { data }
    }

    /// The digest of the transaction's bytes.
    pub fn hash(&self) -> (r: [u8; 32])
        ensures
            r@ == tx_digest(self@),
    {
        blake3_hash(self.data.as_slice())
    }

    pub fn duplicate(&self) -> (r: Transaction)
        ensures
            r@ == self@,
    {
        Transaction { data: copy_bytes(&self.data) }
    }
}

pub fn copy_txs(txs: &Vec<Transaction>) -> (r: Vec<Transaction>)
    ensures
        r@.map_values(|t: Transaction| t@) == txs@.map_values(|t: Transaction| t@),
{
    let mut r: Vec<Transaction> = Vec::new();
    let mut i: usize = 0;
    while i < txs.len()
        invariant
            0 <= i <= txs.len(),
            r.len() == i,
            forall|j: int| 0 <= j < i ==> r@[j]@ == txs@[j]@,
        decreases txs.len() - i,
    {
        r.push(txs[i].duplicate());
        i = i + 1;
    }
    assert(r@.map_values(|t: Transaction| t@) =~= txs@.map_values(|t: Transaction| t@));
    r
}

/// What identifies a block: everything but transaction bodies, which are
/// replaced by their digests.
pub struct BlockView {
    pub v: u8,
    pub st: Seq<u8>,
    pub e: u64,
    pub sl: u64,
    pub txs: Seq<Seq<u8>>,
    pub metadata: Metadata,
}

pub open spec fn encode_metadata(m: Metadata) -> Seq<u8> {
    le_u64(m.timestamp) + m.eta@
}

/// The bytes a block's digest is taken over: version, parent digest, epoch,
/// slot, transaction digests, metadata.
pub open spec fn encode_block(b: BlockView) -> Seq<u8> {
    seq![b.v] + b.st + le_u64(b.e) + le_u64(b.sl) + encode_digests(b.txs) + encode_metadata(
        b.metadata,
    )
}

/// The digest that identifies a block.
pub open spec fn block_id(b: BlockView) -> Seq<u8> {
    blake3_of(encode_block(b))
}

/// Every digest in the block is 32 bytes long, and the number of
/// transactions fits the length prefix.
pub open spec fn digest_widths(b: BlockView) -> bool {
    &&& b.st.len() == 32
    &&& b.txs.len() <= u64::MAX
    &&& forall|i: int| 0 <= i < b.txs.len() ==> (#[trigger] b.txs[i]).len() == 32
}

/// Blocks with the same encoding are the same block: a change to any field,
/// any transaction digest or any metadata byte changes the bytes that the
/// block's digest is taken over.
pub proof fn lemma_encode_block_injective(a: BlockView, b: BlockView)
    requires
        digest_widths(a),
        digest_widths(b),
        encode_block(a) == encode_block(b),
    ensures
        a == b,
{
    let ea = encode_block(a);
    let eb = encode_block(b);
    let va = varint(a.txs.len() as u64);
    let vb = varint(b.txs.len() as u64);
    let ma = encode_metadata(a.metadata);
    let mb = encode_metadata(b.metadata);
    let n = ea.len() as int;
    assert(ea[0] == a.v && eb[0] == b.v);
    assert(ea.subrange(1, 33) =~= a.st && eb.subrange(1, 33) =~= b.st);
    assert(ea.subrange(33, 41) =~= le_u64(a.e) && eb.subrange(33, 41) =~= le_u64(b.e));
    assert(ea.subrange(41, 49) =~= le_u64(a.sl) && eb.subrange(41, 49) =~= le_u64(b.sl));
    lemma_le_u64_injective(a.e, b.e);
    lemma_le_u64_injective(a.sl, b.sl);
    assert(ea.subrange(n - 40, n) =~= ma && eb.subrange(n - 40, n) =~= mb);
    assert(ma.subrange(0, 8) =~= le_u64(a.metadata.timestamp));
    assert(mb.subrange(0, 8) =~= le_u64(b.metadata.timestamp));
    assert(ma.subrange(8, 40) =~= a.metadata.eta@ && mb.subrange(8, 40) =~= b.metadata.eta@);
    lemma_le_u64_injective(a.metadata.timestamp, b.metadata.timestamp);
    assert(a.metadata.eta == b.metadata.eta);
    lemma_varint_len(a.txs.len() as u64);
    lemma_varint_len(b.txs.len() as u64);
    assert(ea[49] == va[0] && eb[49] == vb[0]);
    let k = va.len() as int;
    assert(ea.subrange(49, 49 + k) =~= va && eb.subrange(49, 49 + k) =~= vb);
    lemma_varint_injective(a.txs.len() as u64, b.txs.len() as u64);
    assert(ea.subrange(49 + k, n - 40) =~= flatten(a.txs));
    assert(eb.subrange(49 + k, n - 40) =~= flatten(b.txs));
    lemma_flatten_digests_injective(a.txs, b.txs);
}

/// `b` is the genesis block made at `ts` on top of `data`: slot and epoch
/// zero, no transactions, randomness the digest of the genesis seed.
pub open spec fn is_genesis(b: BlockView, ts: u64, data: Seq<u8>) -> bool {
    &&& b.v == BLOCK_VERSION
    &&& b.st == data
    &&& b.e == 0
    &&& b.sl == 0
    &&& b.txs.len() == 0
    &&& b.metadata.timestamp == ts
    &&& b.metadata.eta@ == blake3_of(GENESIS_SEED.spec_bytes())
}

/// Genesis blocks made from the same timestamp and data have the same
/// digest.
pub proof fn lemma_genesis_deterministic(a: BlockView, b: BlockView, ts: u64, data: Seq<u8>)
    requires
        is_genesis(a, ts, data),
        is_genesis(b, ts, data),
    ensures
        block_id(a) == block_id(b),
{
    assert(a.metadata.eta == b.metadata.eta);
    assert(a.txs =~= b.txs);
    assert(a == b);
}

/// A block as stored by the ledger: transactions appear as digests only.
#[derive(Clone, Debug)]
pub struct Block {
    /// Block version
    pub v: u8,
    /// Digest of the parent block
    pub st: [u8; 32],
    /// Epoch
    pub e: u64,
    /// Slot
    pub sl: u64,
    /// Transaction digests
    pub txs: Vec<[u8; 32]>,
    /// Additional block information
    pub metadata: Metadata,
}

impl View for Block {
    type V = BlockView;

    open spec fn view(&self) -> BlockView {
        BlockView {
            v: self.v,
            st: self.st@,
            e: self.e,
            sl: self.sl,
            txs: self.txs@.map_values(|h: [u8; 32]| h@),
            metadata: self.metadata,
        }
    }
}

impl Block {
    pub fn new(st: [u8; 32], e: u64, sl: u64, txs: Vec<[u8; 32]>, metadata: Metadata) -> (r:
        Block)
        ensures
            r.v == BLOCK_VERSION,
            r.st == st,
            r.e == e,
            r.sl == sl,
            r.txs@ == txs@,
            r.metadata == metadata,
    {
        Block { v: BLOCK_VERSION, st, e, sl, txs, metadata }
    }

    /// The genesis block: slot and epoch zero, no transactions, parent set to
    /// `genesis_data`, randomness set to the digest of the genesis seed.
    pub fn genesis_block(genesis_ts: u64, genesis_data: [u8; 32]) -> (r: Block)
        ensures
            is_genesis(r@, genesis_ts, genesis_data@),
    {
        let eta = blake3_hash(GENESIS_SEED.as_bytes());
        let metadata = Metadata::new(genesis_ts, eta);
        Block::new(genesis_data, 0, 0, Vec::new(), metadata)
    }

    /// The bytes the block's digest is taken over.
    pub fn encode(&self) -> (r: Vec<u8>)
        ensures
            r@ == encode_block(self@),
    {
        let mut out: Vec<u8> = Vec::new();
        out.push(self.v);
        push_digest(&mut out, &self.st);
        push_u64(&mut out, self.e);
        push_u64(&mut out, self.sl);
        push_digests(&mut out, &self.txs);
        push_u64(&mut out, self.metadata.timestamp);
        push_digest(&mut out, &self.metadata.eta);
        assert(out@ =~= encode_block(self@));
        out
    }

    /// The block's digest.
    pub fn blockhash(&self) -> (r: [u8; 32])
        ensures
            r@ == block_id(self@),
    {
        let bytes = self.encode();
        blake3_hash(bytes.as_slice())
    }
}

/// Asks a peer for the blocks that follow a slot.
#[derive(Clone, Copy, Debug)]
pub struct BlockOrder {
    /// Slot
    pub sl: u64,
    /// Digest of the block at that slot
    pub block: [u8; 32],
}

impl BlockOrder {
    pub fn name() -> (r: &'static str)
        ensures
            r@ == "blockorder"@,
    {
        "blockorder"
    }
}

/// Full block data, as seen by the consensus protocol.
pub struct BlockInfoView {
    pub v: u8,
    pub st: Seq<u8>,
    pub e: u64,
    pub sl: u64,
    pub txs: Seq<Seq<u8>>,
    pub metadata: Metadata,
    pub sm: StreamletMetadata,
}

impl BlockInfoView {
    /// The block that stands for this one: transactions replaced by their
    /// digests, Streamlet bookkeeping left out.
    pub open spec fn compact(self) -> BlockView {
        BlockView {
            v: self.v,
            st: self.st,
            e: self.e,
            sl: self.sl,
            txs: self.txs.map_values(|t: Seq<u8>| tx_digest(t)),
            metadata: self.metadata,
        }
    }

    /// The block's digest.
    pub open spec fn id(self) -> Seq<u8> {
        block_id(self.compact())
    }

    /// The digest of a proposal of this block: the compact block rebuilt at
    /// the current version.
    pub open spec fn proposal_id(self) -> Seq<u8> {
        block_id(BlockView { v: BLOCK_VERSION, ..self.compact() })
    }
}

/// A block's digest is that of the compact block that stands for it, and
/// its Streamlet bookkeeping has no part in it.
pub proof fn lemma_blockhash_via_compact(info: BlockInfoView, sm: StreamletMetadata)
    ensures
        info.id() == block_id(info.compact()),
        (BlockInfoView { sm: sm, ..info }).id() == info.id(),
        (BlockInfoView { sm: sm, ..info }).proposal_id() == info.proposal_id(),
{
}

/// Structure representing full block data.
#[derive(Clone, Debug)]
pub struct BlockInfo {
    /// Block version
    pub v: u8,
    /// Digest of the parent block
    pub st: [u8; 32],
    /// Epoch
    pub e: u64,
    /// Slot
    pub sl: u64,
    /// Transactions
    pub txs: Vec<Transaction>,
    /// Additional block information
    pub metadata: Metadata,
    /// Proposal information used by Streamlet consensus
    pub sm: StreamletMetadata,
}

impl View for BlockInfo {
    type V = BlockInfoView;

    open spec fn view(&self) -> BlockInfoView {
        BlockInfoView {
            v: self.v,
            st: self.st@,
            e: self.e,
            sl: self.sl,
            txs: self.txs@.map_values(|t: Transaction| t@),
            metadata: self.metadata,
            sm: self.sm,
        }
    }
}

/// Digests of the transactions, in order.
pub fn tx_digests(txs: &Vec<Transaction>) -> (r: Vec<[u8; 32]>)
    ensures
        r@.map_values(|h: [u8; 32]| h@) == txs@.map_values(|t: Transaction| t@).map_values(
            |t: Seq<u8>| tx_digest(t),
        ),
{
    let mut r: Vec<[u8; 32]> = Vec::new();
    let mut i: usize = 0;
    while i < txs.len()
        invariant
            0 <= i <= txs.len(),
            r.len() == i,
            forall|j: int| 0 <= j < i ==> r@[j]@ == tx_digest(txs@[j]@),
        decreases txs.len() - i,
    {
        let h = txs[i].hash();
        r.push(h);
        i = i + 1;
    }
    assert(r@.map_values(|h: [u8; 32]| h@) =~= txs@.map_values(|t: Transaction| t@).map_values(
        |t: Seq<u8>| tx_digest(t),
    ));
    r
}

impl BlockInfo {
    pub fn new(
        st: [u8; 32],
        e: u64,
        sl: u64,
        txs: Vec<Transaction>,
        metadata: Metadata,
        sm: StreamletMetadata,
    ) -> (r: BlockInfo)
        ensures
            r.v == BLOCK_VERSION,
            r.st == st,
            r.e == e,
            r.sl == sl,
            r.txs@ == txs@,
            r.metadata == metadata,
            r.sm == sm,
    {
        BlockInfo { v: BLOCK_VERSION, st, e, sl, txs, metadata, sm }
    }

    /// The compact block that stands for this one.
    pub fn to_block(&self) -> (r: Block)
        ensures
            r@ == self@.compact(),
    {
        let txs = tx_digests(&self.txs);
        let r = Block { v: self.v, st: self.st, e: self.e, sl: self.sl, txs, metadata: self.metadata };
        assert(r@.txs =~= self@.compact().txs);
        r
    }

    /// The block's digest: that of the compact block.
    pub fn blockhash(&self) -> (r: [u8; 32])
        ensures
            r@ == self@.id(),
    {
        self.to_block().blockhash()
    }

    pub fn duplicate(&self) -> (r: BlockInfo)
        ensures
            r@ == self@,
    {
        BlockInfo {
            v: self.v,
            st: self.st,
            e: self.e,
            sl: self.sl,
            txs: copy_txs(&self.txs),
            metadata: self.metadata,
            sm: self.sm,
        }
    }

    pub fn name() -> (r: &'static str)
        ensures
            r@ == "blockinfo"@,
    {
        "blockinfo"
    }
}

/// Answer to a `BlockOrder`.
#[derive(Clone, Debug)]
pub struct BlockResponse {
    pub blocks: Vec<BlockInfo>,
}

impl BlockResponse {
    pub fn name() -> (r: &'static str)
        ensures
            r@ == "blockresponse"@,
    {
        "blockresponse"
    }
}

pub struct ProposalView {
    pub public_key: Seq<u8>,
    pub signature: Seq<u8>,
    pub address: Seq<u8>,
    pub block: BlockInfoView,
}

/// A block proposal, signed by its leader.
#[derive(Clone, Debug)]
pub struct BlockProposal {
    /// Leader public key
    pub public_key: Vec<u8>,
    /// Block signature
    pub signature: Vec<u8>,
    /// Leader address
    pub address: Vec<u8>,
    /// Block data
    pub block: BlockInfo,
}

impl View for BlockProposal {
    type V = ProposalView;

    open spec fn view(&self) -> ProposalView {
        ProposalView {
            public_key: self.public_key@,
            signature: self.signature@,
            address: self.address@,
            block: self.block@,
        }
    }
}

/// Two proposals are the same when signer, signature, address and compact
/// block (but for its version) agree.
pub open spec fn same_proposal(a: ProposalView, b: ProposalView) -> bool {
    &&& a.public_key == b.public_key
    &&& a.signature == b.signature
    &&& a.address == b.address
    &&& a.block.st == b.block.st
    &&& a.block.e == b.block.e
    &&& a.block.sl == b.block.sl
    &&& a.block.compact().txs == b.block.compact().txs
    &&& a.block.metadata.timestamp == b.block.metadata.timestamp
    &&& a.block.metadata.eta@ == b.block.metadata.eta@
}

impl BlockProposal {
    #[allow(clippy::too_many_arguments)]
    pub fn new(
        public_key: Vec<u8>,
        signature: Vec<u8>,
        address: Vec<u8>,
        st: [u8; 32],
        e: u64,
        sl: u64,
        txs: Vec<Transaction>,
        metadata: Metadata,
        sm: StreamletMetadata,
    ) -> (r: BlockProposal)
        ensures
            r.public_key@ == public_key@,
            r.signature@ == signature@,
            r.address@ == address@,
            r.block.v == BLOCK_VERSION,
            r.block.st == st,
            r.block.e == e,
            r.block.sl == sl,
            r.block.txs@ == txs@,
            r.block.metadata == metadata,
            r.block.sm == sm,
    {
        let block = BlockInfo::new(st, e, sl, txs, metadata, sm);
        BlockProposal { public_key, signature, address, block }
    }

    /// The proposal's digest, over parent, epoch, slot, transactions and
    /// metadata.
    pub fn hash(&self) -> (r: [u8; 32])
        ensures
            r@ == self@.block.proposal_id(),
    {
        Self::to_proposal_hash(
            self.block.st,
            self.block.e,
            self.block.sl,
            &self.block.txs,
            &self.block.metadata,
        )
    }

    /// The digest of a proposal made of the given parts.
    pub fn to_proposal_hash(
        st: [u8; 32],
        e: u64,
        sl: u64,
        transactions: &Vec<Transaction>,
        metadata: &Metadata,
    ) -> (r: [u8; 32])
        ensures
            r@ == block_id(
                BlockView {
                    v: BLOCK_VERSION,
                    st: st@,
                    e: e,
                    sl: sl,
                    txs: transactions@.map_values(|t: Transaction| t@).map_values(
                        |t: Seq<u8>| tx_digest(t),
                    ),
                    metadata: *metadata,
                },
            ),
    {
        let txs = tx_digests(transactions);
        Block::new(st, e, sl, txs, *metadata).blockhash()
    }

    pub fn duplicate(&self) -> (r: BlockProposal)
        ensures
            r@ == self@,
    {
        BlockProposal {
            public_key: copy_bytes(&self.public_key),
            signature: copy_bytes(&self.signature),
            address: copy_bytes(&self.address),
            block: self.block.duplicate(),
        }
    }

    /// The block data the proposal carries.
    pub fn into_block_info(self) -> (r: BlockInfo)
        ensures
            r@ == self@.block,
    {
        self.block
    }

    pub fn name() -> (r: &'static str)
        ensures
            r@ == "proposal"@,
    {
        "proposal"
    }
}

fn digests_eq(a: &Vec<[u8; 32]>, b: &Vec<[u8; 32]>) -> (r: bool)
    ensures
        r == (a@.map_values(|h: [u8; 32]| h@) == b@.map_values(|h: [u8; 32]| h@)),
{
    if a.len() != b.len() {
        assert(a@.map_values(|h: [u8; 32]| h@).len() != b@.map_values(|h: [u8; 32]| h@).len());
        return false;
    }
    let mut i: usize = 0;
    while i < a.len()
        invariant
            0 <= i <= a.len(),
            a.len() == b.len(),
            forall|j: int| 0 <= j < i ==> a@[j]@ == b@[j]@,
        decreases a.len() - i,
    {
        if !hash_eq(&a[i], &b[i]) {
            assert(a@.map_values(|h: [u8; 32]| h@)[i as int] != b@.map_values(|h: [u8; 32]| h@)[i as int]);
            return false;
        }
        i = i + 1;
    }
    assert(a@.map_values(|h: [u8; 32]| h@) =~= b@.map_values(|h: [u8; 32]| h@));
    true
}

impl PartialEq for BlockProposal {
    fn eq(&self, other: &BlockProposal) -> (r: bool) {
        let same_txs = digests_eq(&tx_digests(&self.block.txs), &tx_digests(&other.block.txs));
        bytes_eq(&self.public_key, &other.public_key) && bytes_eq(
            &self.signature,
            &other.signature,
        ) && bytes_eq(&self.address, &other.address) && hash_eq(&self.block.st, &other.block.st)
            && self.block.e == other.block.e && self.block.sl == other.block.sl && same_txs
            && self.block.metadata.timestamp == other.block.metadata.timestamp && hash_eq(
            &self.block.metadata.eta,
            &other.block.metadata.eta,
        )
    }
}

impl vstd::std_specs::cmp::PartialEqSpecImpl for BlockProposal {
    open spec fn obeys_eq_spec() -> bool {
        true
    }

    open spec fn eq_spec(&self, other: &BlockProposal) -> bool {
        same_proposal(self@, other@)
    }
}

impl From<BlockProposal> for BlockInfo {
    fn from(proposal: BlockProposal) -> (r: BlockInfo) {
        proposal.block
    }
}

impl vstd::std_specs::convert::FromSpecImpl<BlockProposal> for BlockInfo {
    open spec fn obeys_from_spec() -> bool {
        true
    }

    open spec fn from_spec(proposal: BlockProposal) -> BlockInfo {
        proposal.block
    }
}

} // verus!
