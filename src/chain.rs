//! Chains of block proposals: append-only, each proposal linked to the one
//! before it by digest and by a later slot.
use vstd::prelude::*;

use crate::block::{BlockInfoView, BlockProposal, ProposalView, StreamletMetadata};
use crate::hashing::hash_eq;

verus! {

pub struct ChainView {
    pub genesis: Seq<u8>,
    pub proposals: Seq<ProposalView>,
}

/// `p` may follow `prev`: it names `prev` as its parent, comes at a later
/// slot, and does not claim the genesis digest as parent.
pub open spec fn valid_link(genesis: Seq<u8>, p: ProposalView, prev: ProposalView) -> bool {
    &&& p.block.st != genesis
    &&& p.block.st == prev.block.proposal_id()
    &&& p.block.sl > prev.block.sl
}

/// Every proposal after the first may follow the one before it.
pub open spec fn linked(c: ChainView) -> bool {
    forall|i: int|
        1 <= i < c.proposals.len() ==> #[trigger] valid_link(
            c.genesis,
            c.proposals[i],
            c.proposals[i - 1],
        )
}

/// Every proposal carries the notarized flag.
pub open spec fn all_notarized(s: Seq<ProposalView>) -> bool {
    forall|i: int| 0 <= i < s.len() ==> (#[trigger] s[i]).block.sm.notarized
}

/// The chain after offering `p` for appending.
pub open spec fn chain_after_add(c: ChainView, p: ProposalView) -> ChainView {
    if c.proposals.len() > 0 && valid_link(c.genesis, p, c.proposals.last()) {
        ChainView { genesis: c.genesis, proposals: c.proposals.push(p) }
    } else {
        c
    }
}

/// Appending keeps a linked chain linked, and a proposal that may not
/// follow the last one leaves the chain as it was.
pub proof fn lemma_add_keeps_chain_linked(c: ChainView, p: ProposalView)
    requires
        c.proposals.len() > 0,
    ensures
        linked(c) ==> linked(chain_after_add(c, p)),
        !valid_link(c.genesis, p, c.proposals.last()) ==> chain_after_add(c, p) == c,
        chain_after_add(c, p).genesis == c.genesis,
        chain_after_add(c, p).proposals.len() >= c.proposals.len(),
        chain_after_add(c, p).proposals.subrange(0, c.proposals.len() as int) == c.proposals,
{
    let d = chain_after_add(c, p);
    if linked(c) && d != c {
        assert forall|i: int| 1 <= i < d.proposals.len() implies #[trigger] valid_link(
            d.genesis,
            d.proposals[i],
            d.proposals[i - 1],
        ) by {
            if i < c.proposals.len() {
                assert(valid_link(c.genesis, c.proposals[i], c.proposals[i - 1]));
            }
        }
    }
    assert(d.proposals.subrange(0, c.proposals.len() as int) =~= c.proposals);
}

/// With every other proposal notarized, the chain is notarized exactly when
/// the remaining one is: setting or clearing that one flag decides it.
pub proof fn lemma_notarized_follows_each_flag(s: Seq<ProposalView>, i: int, flag: bool)
    requires
        0 <= i < s.len(),
        forall|j: int| 0 <= j < s.len() && j != i ==> (#[trigger] s[j]).block.sm.notarized,
    ensures
        ({
            let b = s[i].block;
            let p = ProposalView {
                block: BlockInfoView { sm: StreamletMetadata { notarized: flag, ..b.sm }, ..b },
                ..s[i]
            };
            all_notarized(s.update(i, p)) == flag
        }),
{
    let b = s[i].block;
    let p = ProposalView {
        block: BlockInfoView { sm: StreamletMetadata { notarized: flag, ..b.sm }, ..b },
        ..s[i]
    };
    let t = s.update(i, p);
    if !flag {
        assert(!t[i].block.sm.notarized);
    }
}

/// A chain is notarized only if each of its proposals is.
pub proof fn lemma_notarized_needs_every_flag(s: Seq<ProposalView>, i: int)
    requires
        0 <= i < s.len(),
        !s[i].block.sm.notarized,
    ensures
        !all_notarized(s),
{
}

/// A sequence of block proposals.
#[derive(Clone, Debug)]
pub struct ProposalChain {
    pub genesis_block: [u8; 32],
    pub proposals: Vec<BlockProposal>,
}

impl View for ProposalChain {
    type V = ChainView;

    open spec fn view(&self) -> ChainView {
        ChainView {
            genesis: self.genesis_block@,
            proposals: self.proposals@.map_values(|p: BlockProposal| p@),
        }
    }
}

impl ProposalChain {
    pub fn new(genesis_block: [u8; 32], initial_proposal: BlockProposal) -> (r: ProposalChain)
        ensures
            r@.genesis == genesis_block@,
            r@.proposals == seq![initial_proposal@],
    {
        let mut proposals: Vec<BlockProposal> = Vec::new();
        proposals.push(initial_proposal);
        let r = ProposalChain { genesis_block, proposals };
        assert(r@.proposals =~= seq![initial_proposal@]);
        r
    }

    /// Whether `proposal` may follow `previous` in this chain.
    pub fn check_proposal(&self, proposal: &BlockProposal, previous: &BlockProposal) -> (r: bool)
        ensures
            r == valid_link(self@.genesis, proposal@, previous@),
    {
        if hash_eq(&proposal.block.st, &self.genesis_block) {
            return false;
        }
        let prev_hash = previous.hash();
        if !hash_eq(&proposal.block.st, &prev_hash) || proposal.block.sl <= previous.block.sl {
            return false;
        }
        true
    }

    /// Whether every proposal after the first may follow the one before it.
    pub fn check_chain(&self) -> (r: bool)
        ensures
            r == linked(self@),
    {
        let mut i: usize = 1;
        while i < self.proposals.len()
            invariant
                1 <= i,
                i <= self.proposals.len() || self.proposals.len() == 0,
                forall|j: int|
                    1 <= j < i && j < self@.proposals.len() ==> #[trigger] valid_link(
                        self@.genesis,
                        self@.proposals[j],
                        self@.proposals[j - 1],
                    ),
            decreases self.proposals.len() - i,
        {
            if !self.check_proposal(&self.proposals[i], &self.proposals[i - 1]) {
                assert(!valid_link(self@.genesis, self@.proposals[i as int], self@.proposals[i - 1]));
                return false;
            }
            i = i + 1;
        }
        true
    }

    /// Appends a copy of `proposal` if it may follow the last proposal;
    /// leaves the chain as it is otherwise.
    pub fn add(&mut self, proposal: &BlockProposal)
        requires
            old(self).proposals.len() > 0,
        ensures
            final(self)@ == chain_after_add(old(self)@, proposal@),
    {
        let last = self.proposals.len() - 1;
        if self.check_proposal(proposal, &self.proposals[last]) {
            self.proposals.push(proposal.duplicate());
            assert(final(self)@.proposals =~= old(self)@.proposals.push(proposal@));
        }
    }

    /// Whether every proposal of the chain is notarized.
    pub fn notarized(&self) -> (r: bool)
        ensures
            r == all_notarized(self@.proposals),
    {
        let mut i: usize = 0;
        while i < self.proposals.len()
            invariant
                0 <= i <= self.proposals.len(),
                forall|j: int| 0 <= j < i ==> (#[trigger] self@.proposals[j]).block.sm.notarized,
            decreases self.proposals.len() - i,
        {
            if !self.proposals[i].block.sm.notarized {
                assert(!self@.proposals[i as int].block.sm.notarized);
                return false;
            }
            i = i + 1;
        }
        true
    }
}

/// The slot of a chain's last proposal.
pub open spec fn tip_slot(c: ChainView) -> u64 {
    c.proposals.last().block.sl
}

/// A chain that may be chosen: not empty, and notarized throughout.
pub open spec fn eligible(c: ChainView) -> bool {
    c.proposals.len() > 0 && all_notarized(c.proposals)
}

/// Chain `i` is the fork to follow: it is eligible, no eligible chain has a
/// later tip, and every eligible chain before it has an earlier tip.
pub open spec fn is_best_fork(cs: Seq<ChainView>, i: int) -> bool {
    &&& 0 <= i < cs.len()
    &&& eligible(cs[i])
    &&& forall|j: int|
        0 <= j < cs.len() && eligible(#[trigger] cs[j]) ==> tip_slot(cs[j]) <= tip_slot(cs[i])
    &&& forall|j: int| 0 <= j < i && eligible(#[trigger] cs[j]) ==> tip_slot(cs[j]) < tip_slot(cs[i])
}

/// Fork choice among coexisting chains: the notarized chain with the latest
/// tip, the first such on a tie; `None` when no chain is notarized.
pub fn best_fork(chains: &Vec<ProposalChain>) -> (r: Option<usize>)
    ensures
        match r {
            Some(i) => is_best_fork(chains@.map_values(|c: ProposalChain| c@), i as int),
            None => forall|j: int|
                0 <= j < chains@.len() ==> !eligible(#[trigger] chains@[j]@),
        },
{
    let ghost cs = chains@.map_values(|c: ProposalChain| c@);
    let mut best: Option<usize> = None;
    let mut best_slot: u64 = 0;
    let mut i: usize = 0;
    while i < chains.len()
        invariant
            0 <= i <= chains.len(),
            cs == chains@.map_values(|c: ProposalChain| c@),
            match best {
                Some(b) => {
                    &&& b < i
                    &&& eligible(cs[b as int])
                    &&& best_slot == tip_slot(cs[b as int])
                    &&& forall|j: int|
                        0 <= j < i && eligible(#[trigger] cs[j]) ==> tip_slot(cs[j]) <= best_slot
                    &&& forall|j: int|
                        0 <= j < b && eligible(#[trigger] cs[j]) ==> tip_slot(cs[j]) < best_slot
                },
                None => forall|j: int| 0 <= j < i ==> !eligible(#[trigger] cs[j]),
            },
        decreases chains.len() - i,
    {
        let c = &chains[i];
        assert(cs[i as int] == c@);
        if c.proposals.len() > 0 && c.notarized() {
            let tip = c.proposals[c.proposals.len() - 1].block.sl;
            assert(tip == tip_slot(cs[i as int]));
            let better = match best {
                Some(_) => tip > best_slot,
                None => true,
            };
            if better {
                best = Some(i);
                best_slot = tip;
            }
        }
        i = i + 1;
    }
    proof {
        if best is None {
            assert forall|j: int| 0 <= j < chains@.len() implies !eligible(#[trigger] chains@[j]@) by {
                assert(cs[j] == chains@[j]@);
            }
        }
    }
    best
}

} // verus!
