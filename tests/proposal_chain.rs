use darkfi_sync::block::{Block, BlockProposal, Metadata, StreamletMetadata, Transaction};
use darkfi_sync::chain::{best_fork, ProposalChain};

fn proposal(parent: [u8; 32], sl: u64, notarized: bool) -> BlockProposal {
    BlockProposal::new(
        vec![1, 2, 3],
        vec![4, 5],
        vec![6],
        parent,
        0,
        sl,
        vec![Transaction::new(vec![sl as u8])],
        Metadata::new(sl, [0u8; 32]),
        StreamletMetadata { notarized, finalized: false },
    )
}

fn genesis_hash() -> [u8; 32] {
    Block::genesis_block(0, [0u8; 32]).blockhash()
}

#[test]
fn linked_chain_and_rejected_skip() {
    let g = genesis_hash();
    let a = proposal(g, 1, false);
    let b = proposal(a.hash(), 2, false);
    let mut chain = ProposalChain::new(g, a.clone());
    chain.add(&b);
    assert_eq!(chain.proposals.len(), 2);
    assert!(chain.check_chain());

    let c = proposal(g, 2, false);
    chain.add(&c);
    assert_eq!(chain.proposals.len(), 2);
    assert!(chain.proposals[0] == a);
    assert!(chain.proposals[1] == b);
    assert!(chain.check_chain());
}

#[test]
fn check_proposal_rules() {
    let g = genesis_hash();
    let a = proposal(g, 1, false);
    let chain = ProposalChain::new(g, a.clone());
    assert!(chain.check_proposal(&proposal(a.hash(), 2, false), &a));
    // same slot
    assert!(!chain.check_proposal(&proposal(a.hash(), 1, false), &a));
    // wrong parent
    assert!(!chain.check_proposal(&proposal([9u8; 32], 2, false), &a));
    // genesis as parent
    assert!(!chain.check_proposal(&proposal(g, 2, false), &a));
}

#[test]
fn add_rejects_out_of_order() {
    let g = genesis_hash();
    let a = proposal(g, 5, false);
    let mut chain = ProposalChain::new(g, a.clone());
    let late = proposal(a.hash(), 3, false);
    chain.add(&late);
    assert_eq!(chain.proposals.len(), 1);
    assert!(chain.proposals[0] == a);
    let mismatched = proposal([1u8; 32], 6, false);
    chain.add(&mismatched);
    assert_eq!(chain.proposals.len(), 1);
}

#[test]
fn check_chain_detects_bad_link() {
    let g = genesis_hash();
    let a = proposal(g, 1, false);
    let b = proposal(a.hash(), 2, false);
    let chain = ProposalChain { genesis_block: g, proposals: vec![a.clone(), b.clone()] };
    assert!(chain.check_chain());
    let bad = ProposalChain { genesis_block: g, proposals: vec![b, a] };
    assert!(!bad.check_chain());
    let single = ProposalChain::new(g, proposal(g, 1, false));
    assert!(single.check_chain());
}

#[test]
fn notarized_needs_every_flag() {
    let g = genesis_hash();
    let a = proposal(g, 1, true);
    let b = proposal(a.hash(), 2, true);
    let c = proposal(b.hash(), 3, true);
    let mut chain = ProposalChain::new(g, a);
    chain.add(&b);
    chain.add(&c);
    assert_eq!(chain.proposals.len(), 3);
    assert!(chain.notarized());
    chain.proposals[1].block.sm.notarized = false;
    assert!(!chain.notarized());
    chain.proposals[1].block.sm.notarized = true;
    assert!(chain.notarized());
    chain.proposals[2].block.sm.notarized = false;
    assert!(!chain.notarized());
}

#[test]
fn fork_choice_prefers_latest_notarized_tip() {
    let g = genesis_hash();
    let a = proposal(g, 1, true);
    let b = proposal(a.hash(), 4, true);
    let c = proposal(a.hash(), 6, false);
    let d = proposal(a.hash(), 4, true);

    let mut short = ProposalChain::new(g, a.clone());
    let mut notarized = ProposalChain::new(g, a.clone());
    notarized.add(&b);
    let mut pending = ProposalChain::new(g, a.clone());
    pending.add(&c);
    let mut tie = ProposalChain::new(g, a.clone());
    tie.add(&d);
    short.add(&proposal(a.hash(), 1, true));
    assert_eq!(short.proposals.len(), 1);

    let forks = vec![short.clone(), notarized, pending.clone(), tie];
    assert_eq!(best_fork(&forks), Some(1));
    assert_eq!(best_fork(&vec![pending.clone()]), None);
    assert_eq!(best_fork(&vec![pending, short]), Some(1));
    assert_eq!(best_fork(&vec![]), None);
}
