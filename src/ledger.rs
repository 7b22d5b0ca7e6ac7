//! The ledger of finalized blocks: append-only, in increasing slot order,
//! each block naming the one before it as parent.
use vstd::prelude::*;

use crate::block::{BlockInfo, BlockInfoView};
use crate::hashing::hash_eq;

verus! {

broadcast use vstd::seq_lib::group_seq_properties;

/// Selects the blocks at a slot later than `slot`.
pub open spec fn later_than(slot: u64) -> spec_fn(BlockInfoView) -> bool {
    |b: BlockInfoView| b.sl > slot
}

/// The first `limit` blocks of `s` at a slot later than `slot`, in order.
pub open spec fn blocks_after(s: Seq<BlockInfoView>, slot: u64, limit: nat) -> Seq<BlockInfoView> {
    let f = s.filter(later_than(slot));
    if f.len() <= limit {
        f
    } else {
        f.take(limit as int)
    }
}

/// Some block of `s` has the digest `id`.
pub open spec fn holds_id(s: Seq<BlockInfoView>, id: Seq<u8>) -> bool {
    exists|i: int| 0 <= i < s.len() && (#[trigger] s[i]).id() == id
}

/// `b` may be appended to `s`: it comes at a later slot than the last block
/// and names it as parent.
pub open spec fn extends(s: Seq<BlockInfoView>, b: BlockInfoView) -> bool {
    s.len() > 0 && b.sl > s.last().sl && b.st == s.last().id()
}

/// Why the ledger refused a block.
#[derive(Clone, Copy, Debug, PartialEq, Eq, Structural)]
pub enum LedgerError {
    /// A block with the same digest is stored already.
    AlreadyStored,
    /// The block does not follow the last stored block.
    NotExtending,
}

pub struct Ledger {
    blocks: Vec<BlockInfo>,
    ids: Vec<[u8; 32]>,
}

impl View for Ledger {
    type V = Seq<BlockInfoView>;

    closed spec fn view(&self) -> Seq<BlockInfoView> {
        self.blocks@.map_values(|b: BlockInfo| b@)
    }
}

impl Ledger {
    /// Stored digests match the blocks; the genesis block is there; slots
    /// increase and each block names its predecessor as parent; no digest
    /// appears twice.
    pub closed spec fn wf(&self) -> bool {
        &&& self.ids.len() == self.blocks.len()
        &&& self.blocks.len() > 0
        &&& forall|i: int| 0 <= i < self.ids.len() ==> (#[trigger] self.ids@[i])@ == self@[i].id()
        &&& forall|i: int|
            1 <= i < self@.len() ==> (#[trigger] self@[i]).sl > self@[i - 1].sl && self@[i].st
                == self@[i - 1].id()
        &&& forall|i: int, j: int|
            0 <= i < j < self@.len() ==> (#[trigger] self@[i]).id() != (#[trigger] self@[j]).id()
    }

    /// What a well-formed ledger guarantees of its blocks.
    pub proof fn lemma_wf(&self)
        requires
            self.wf(),
        ensures
            self@.len() > 0,
            forall|i: int|
                1 <= i < self@.len() ==> (#[trigger] self@[i]).sl > self@[i - 1].sl && self@[i].st
                    == self@[i - 1].id(),
            forall|i: int, j: int|
                0 <= i < j < self@.len() ==> (#[trigger] self@[i]).id() != (#[trigger] self@[j]).id(),
    {
    }

    /// A ledger holding the genesis block alone.
    pub fn new(genesis: BlockInfo) -> (r: Ledger)
        ensures
            r.wf(),
            r@ == seq![genesis@],
    {
        let id = genesis.blockhash();
        let mut blocks: Vec<BlockInfo> = Vec::new();
        blocks.push(genesis);
        let mut ids: Vec<[u8; 32]> = Vec::new();
        ids.push(id);
        let r = Ledger { blocks, ids };
        assert(r@ =~= seq![genesis@]);
        r
    }

    pub fn len(&self) -> (r: usize)
        ensures
            r == self@.len(),
    {
        self.blocks.len()
    }

    /// The block at position `i`, counted from genesis.
    pub fn get(&self, i: usize) -> (r: &BlockInfo)
        requires
            i < self@.len(),
        ensures
            r@ == self@[i as int],
    {
        &self.blocks[i]
    }

    /// The last stored block.
    pub fn last(&self) -> (r: &BlockInfo)
        requires
            self.wf(),
        ensures
            r@ == self@.last(),
    {
        &self.blocks[self.blocks.len() - 1]
    }

    /// Whether a block with the digest of `info` is stored.
    pub fn has_block(&self, info: &BlockInfo) -> (r: bool)
        requires
            self.wf(),
        ensures
            r == holds_id(self@, info@.id()),
    {
        let id = info.blockhash();
        let mut i: usize = 0;
        while i < self.ids.len()
            invariant
                self.wf(),
                0 <= i <= self.ids.len(),
                id@ == info@.id(),
                forall|j: int| 0 <= j < i ==> (#[trigger] self@[j]).id() != id@,
            decreases self.ids.len() - i,
        {
            if hash_eq(&self.ids[i], &id) {
                assert(self@[i as int].id() == info@.id());
                return true;
            }
            i = i + 1;
        }
        false
    }

    /// Copies of at most `limit` blocks at slots later than `slot`, in
    /// ledger order.
    pub fn get_blocks_after(&self, slot: u64, limit: u64) -> (r: Vec<BlockInfo>)
        ensures
            r@.map_values(|b: BlockInfo| b@) == blocks_after(self@, slot, limit as nat),
            r@.len() <= limit,
            forall|i: int| 0 <= i < r@.len() ==> (#[trigger] r@[i]).sl > slot,
    {
        let ghost s = self@;
        let ghost pred = later_than(slot);
        let mut out: Vec<BlockInfo> = Vec::new();
        let mut i: usize = 0;
        while i < self.blocks.len() && (out.len() as u64) < limit
            invariant
                0 <= i <= self.blocks.len(),
                s == self@,
                pred == later_than(slot),
                out@.len() <= limit,
                out@.map_values(|b: BlockInfo| b@) == s.subrange(0, i as int).filter(pred),
            decreases self.blocks.len() - i,
        {
            let ghost before = out@.map_values(|b: BlockInfo| b@);
            assert(s.subrange(0, i + 1) =~= s.subrange(0, i as int).push(s[i as int]));
            proof {
                s.subrange(0, i as int).lemma_filter_push(s[i as int], pred);
                assert(s[i as int] == self.blocks@[i as int]@);
            }
            if self.blocks[i].sl > slot {
                out.push(self.blocks[i].duplicate());
                assert(out@.map_values(|b: BlockInfo| b@) =~= before.push(s[i as int]));
            }
            i = i + 1;
        }
        proof {
            let pre = s.subrange(0, i as int);
            let post = s.subrange(i as int, s.len() as int);
            assert(s =~= pre + post);
            Seq::filter_distributes_over_add(pre, post, pred);
            if i < s.len() {
                assert(pre.filter(pred) + post.filter(pred) =~= s.filter(pred));
                assert(s.filter(pred).take(limit as int) =~= pre.filter(pred));
            } else {
                assert(post =~= Seq::<BlockInfoView>::empty());
                assert(post.filter(pred) =~= Seq::<BlockInfoView>::empty()) by {
                    reveal(Seq::filter);
                }
                assert(s.filter(pred) =~= pre.filter(pred));
            }
            assert forall|k: int| 0 <= k < out@.len() implies (#[trigger] out@[k]).sl > slot by {
                s.subrange(0, i as int).lemma_filter_pred(pred, k);
                assert(out@.map_values(|b: BlockInfo| b@)[k] == out@[k]@);
            }
        }
        out
    }

    /// Appends a copy of `info` if no block with its digest is stored and it
    /// follows the last stored block.
    pub fn add(&mut self, info: &BlockInfo) -> (r: Result<(), LedgerError>)
        requires
            old(self).wf(),
        ensures
            final(self).wf(),
            holds_id(old(self)@, info@.id()) ==> r == Err::<(), LedgerError>(
                LedgerError::AlreadyStored,
            ) && final(self)@ == old(self)@,
            !holds_id(old(self)@, info@.id()) && !extends(old(self)@, info@) ==> r == Err::<
                (),
                LedgerError,
            >(LedgerError::NotExtending) && final(self)@ == old(self)@,
            !holds_id(old(self)@, info@.id()) && extends(old(self)@, info@) ==> r is Ok
                && final(self)@ == old(self)@.push(info@),
    {
        if self.has_block(info) {
            return Err(LedgerError::AlreadyStored);
        }
        let last = self.blocks.len() - 1;
        let tip_id = self.ids[last];
        if info.sl <= self.blocks[last].sl || !hash_eq(&info.st, &tip_id) {
            return Err(LedgerError::NotExtending);
        }
        let id = info.blockhash();
        let ghost prev = self@;
        self.blocks.push(info.duplicate());
        self.ids.push(id);
        proof {
            assert(self@ =~= prev.push(info@));
            assert forall|i: int| 0 <= i < self.ids.len() implies (#[trigger] self.ids@[i])@
                == self@[i].id() by {
                if i < prev.len() {
                    assert(self.ids@[i] == old(self).ids@[i]);
                    assert(self@[i] == prev[i]);
                }
            }
            assert forall|i: int| 1 <= i < self@.len() implies (#[trigger] self@[i]).sl > self@[i
                - 1].sl && self@[i].st == self@[i - 1].id() by {
                if i < prev.len() {
                    assert(self@[i] == prev[i] && self@[i - 1] == prev[i - 1]);
                }
            }
            assert forall|i: int, j: int|
                0 <= i < j < self@.len() implies (#[trigger] self@[i]).id() != (
                #[trigger] self@[j]).id() by {
                assert(self@[i] == prev[i]);
                if j < prev.len() {
                    assert(self@[j] == prev[j]);
                }
            }
        }
        Ok(())
    }
}

} // verus!
