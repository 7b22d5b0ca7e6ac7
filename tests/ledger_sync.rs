use darkfi_sync::block::{BlockInfo, BlockOrder, Metadata, StreamletMetadata, Transaction};
use darkfi_sync::ledger::{Ledger, LedgerError};
use darkfi_sync::sync::{
    contains_tx, BlockAction, BlockOutcome, ProtocolSync, StateUpdate, TransitionFailure,
    ValidatorState, BATCH,
};

fn sm() -> StreamletMetadata {
    StreamletMetadata { notarized: true, finalized: true }
}

fn genesis() -> BlockInfo {
    BlockInfo::new([0u8; 32], 0, 0, vec![], Metadata::new(0, [0u8; 32]), sm())
}

fn tx(b: u8) -> Transaction {
    Transaction::new(vec![b, b])
}

fn child(parent: &BlockInfo, sl: u64, txs: Vec<Transaction>) -> BlockInfo {
    BlockInfo::new(parent.blockhash(), 0, sl, txs, Metadata::new(sl, [1u8; 32]), sm())
}

fn updates(n: u8) -> Vec<StateUpdate> {
    (0..n).map(|i| StateUpdate { data: vec![i] }).collect()
}

fn chain_of(n: u64) -> (Ledger, Vec<BlockInfo>) {
    let g = genesis();
    let mut ledger = Ledger::new(g.clone());
    let mut blocks = vec![g];
    for sl in 1..=n {
        let b = child(blocks.last().unwrap(), sl, vec![tx(sl as u8)]);
        assert_eq!(ledger.add(&b), Ok(()));
        blocks.push(b);
    }
    (ledger, blocks)
}

#[test]
fn batch_bound_holds_with_many_blocks() {
    let (ledger, _) = chain_of(25);
    let got = ledger.get_blocks_after(0, 10);
    assert_eq!(got.len(), 10);
    let slots: Vec<u64> = got.iter().map(|b| b.sl).collect();
    assert_eq!(slots, (1..=10).collect::<Vec<u64>>());
    let tail = ledger.get_blocks_after(20, 10);
    assert_eq!(tail.iter().map(|b| b.sl).collect::<Vec<u64>>(), vec![21, 22, 23, 24, 25]);
    assert!(ledger.get_blocks_after(25, 10).is_empty());
    assert!(ledger.get_blocks_after(3, 0).is_empty());
}

#[test]
fn request_is_answered_with_a_batch() {
    let (ledger, blocks) = chain_of(15);
    let mut state = ValidatorState::new(blocks[0].clone());
    state.blockchain = ledger;
    let session = ProtocolSync::init(false);
    let resp = session.handle_receive_request(&state, &BlockOrder { sl: 2, block: [0u8; 32] });
    assert_eq!(resp.blocks.len() as u64, BATCH);
    assert_eq!(resp.blocks[0].sl, 3);
    assert_eq!(resp.blocks[9].sl, 12);
    let caught_up =
        session.handle_receive_request(&state, &BlockOrder { sl: 15, block: [0u8; 32] });
    assert!(caught_up.blocks.is_empty());
}

#[test]
fn ledger_refuses_duplicates_and_gaps() {
    let (mut ledger, blocks) = chain_of(2);
    assert!(ledger.has_block(&blocks[1]));
    assert_eq!(ledger.add(&blocks[2]), Err(LedgerError::AlreadyStored));
    let stale = child(&blocks[1], 3, vec![]);
    assert!(!ledger.has_block(&stale));
    assert_eq!(ledger.add(&stale), Err(LedgerError::NotExtending));
    let same_slot = child(&blocks[2], 2, vec![]);
    assert_eq!(ledger.add(&same_slot), Err(LedgerError::NotExtending));
    assert_eq!(ledger.len(), 3);
    assert_eq!(ledger.last().sl, 2);
    assert_eq!(ledger.get(1).sl, 1);
}

#[test]
fn duplicate_delivery_commits_once() {
    let g = genesis();
    let mut state = ValidatorState::new(g.clone());
    state.append_tx(tx(1));
    state.append_tx(tx(2));
    let session = ProtocolSync::init(false);
    let b = child(&g, 1, vec![tx(1)]);
    assert_eq!(session.handle_receive_block(&state, &b), BlockAction::Validate);
    assert_eq!(session.ingest_block(&mut state, &b, Ok(updates(2))), BlockOutcome::Committed);
    assert_eq!(state.blockchain.len(), 2);
    assert_eq!(state.canon.len(), 2);
    assert_eq!(state.unconfirmed_txs.len(), 1);
    assert_eq!(session.handle_receive_block(&state, &b), BlockAction::Known);
    assert_eq!(session.ingest_block(&mut state, &b, Ok(updates(3))), BlockOutcome::Duplicate);
    assert_eq!(state.blockchain.len(), 2);
    assert_eq!(state.canon.len(), 2);
    assert_eq!(state.unconfirmed_txs.len(), 1);
    assert_eq!(state.unconfirmed_txs[0].data, vec![2, 2]);
}

#[test]
fn failing_transaction_changes_nothing() {
    let g = genesis();
    let mut state = ValidatorState::new(g.clone());
    state.append_tx(tx(1));
    state.append_tx(tx(2));
    let session = ProtocolSync::init(false);
    let b = child(&g, 1, vec![tx(1), tx(2)]);
    let outcome = session.ingest_block(&mut state, &b, Err(TransitionFailure { index: 1 }));
    assert_eq!(outcome, BlockOutcome::InvalidTransition);
    assert_eq!(state.blockchain.len(), 1);
    assert!(state.canon.is_empty());
    assert_eq!(state.unconfirmed_txs.len(), 2);
    assert!(!state.blockchain.has_block(&b));
}

#[test]
fn consensus_mode_leaves_blocks_alone() {
    let g = genesis();
    let mut state = ValidatorState::new(g.clone());
    let session = ProtocolSync::init(true);
    let b = child(&g, 1, vec![]);
    assert_eq!(session.handle_receive_block(&state, &b), BlockAction::Ignore);
    assert_eq!(session.ingest_block(&mut state, &b, Ok(updates(1))), BlockOutcome::Ignored);
    assert_eq!(state.blockchain.len(), 1);
    assert_eq!(session.name(), "ProtocolSync");
}

#[test]
fn block_that_does_not_extend_is_dropped() {
    let g = genesis();
    let mut state = ValidatorState::new(g.clone());
    let session = ProtocolSync::init(false);
    let orphan = BlockInfo::new([5u8; 32], 0, 1, vec![], Metadata::new(1, [0u8; 32]), sm());
    assert_eq!(
        session.ingest_block(&mut state, &orphan, Ok(updates(1))),
        BlockOutcome::NotExtending
    );
    assert_eq!(state.blockchain.len(), 1);
    assert!(state.canon.is_empty());
}

#[test]
fn snapshot_is_independent() {
    let g = genesis();
    let mut state = ValidatorState::new(g.clone());
    let session = ProtocolSync::init(false);
    let b = child(&g, 1, vec![]);
    session.ingest_block(&mut state, &b, Ok(updates(2)));
    let mut snap = state.canon_snapshot();
    assert_eq!(snap.len(), 2);
    snap[0].data.push(42);
    assert_eq!(state.canon[0].data, vec![0]);
}

#[test]
fn pending_pool_removal() {
    let g = genesis();
    let mut state = ValidatorState::new(g);
    for b in [1u8, 2, 3, 2] {
        state.append_tx(tx(b));
    }
    state.remove_txs(&vec![tx(2), tx(9)]);
    let left: Vec<Vec<u8>> = state.unconfirmed_txs.iter().map(|t| t.data.clone()).collect();
    assert_eq!(left, vec![vec![1, 1], vec![3, 3]]);
    assert!(contains_tx(&state.unconfirmed_txs, &tx(3)));
    assert!(!contains_tx(&state.unconfirmed_txs, &tx(2)));
}
