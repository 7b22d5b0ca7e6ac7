use darkfi_sync::block::{
    Block, BlockInfo, BlockOrder, BlockProposal, BlockResponse, Metadata, StreamletMetadata,
    Transaction, BLOCK_VERSION,
};
use darkfi_sync::encoding::{push_digest, push_u64, push_varint};

fn meta(ts: u64) -> Metadata {
    Metadata::new(ts, [7u8; 32])
}

fn sm(notarized: bool) -> StreamletMetadata {
    StreamletMetadata { notarized, finalized: false }
}

fn tx(bytes: &[u8]) -> Transaction {
    Transaction::new(bytes.to_vec())
}

#[test]
fn transaction_hash_is_blake3_of_its_bytes() {
    let t = tx(b"transfer 5");
    assert_eq!(t.hash(), *blake3::hash(b"transfer 5").as_bytes());
    assert_ne!(t.hash(), tx(b"transfer 6").hash());
}

#[test]
fn varint_prefix_widths() {
    let cases: [(u64, Vec<u8>); 5] = [
        (0, vec![0]),
        (0xfc, vec![0xfc]),
        (0xfd, vec![0xfd, 0xfd, 0x00]),
        (0x1_0000, vec![0xfe, 0x00, 0x00, 0x01, 0x00]),
        (0x1_0000_0000, vec![0xff, 0, 0, 0, 0, 1, 0, 0, 0]),
    ];
    for (n, expected) in cases.iter() {
        let mut out = Vec::new();
        push_varint(&mut out, *n);
        assert_eq!(&out, expected);
    }
}

#[test]
fn integers_are_little_endian() {
    let mut out = Vec::new();
    push_u64(&mut out, 0x0102_0304_0506_0708);
    assert_eq!(out, vec![8, 7, 6, 5, 4, 3, 2, 1]);
    push_digest(&mut out, &[9u8; 32]);
    assert_eq!(out.len(), 40);
}

#[test]
fn block_encoding_layout() {
    let b = Block::new([1u8; 32], 2, 3, vec![[4u8; 32], [5u8; 32]], meta(6));
    let e = b.encode();
    // version, parent, epoch, slot, count and two digests, timestamp, eta
    assert_eq!(e.len(), 1 + 32 + 8 + 8 + 1 + 64 + 8 + 32);
    assert_eq!(e[0], BLOCK_VERSION);
    assert_eq!(&e[1..33], &[1u8; 32]);
    assert_eq!(e[33], 2);
    assert_eq!(e[41], 3);
    assert_eq!(e[49], 2);
    assert_eq!(b.blockhash(), *blake3::hash(&e).as_bytes());
}

#[test]
fn genesis_block_is_deterministic() {
    let a = Block::genesis_block(1000, [3u8; 32]);
    let b = Block::genesis_block(1000, [3u8; 32]);
    assert_eq!(a.blockhash(), b.blockhash());
    assert_eq!(a.sl, 0);
    assert_eq!(a.e, 0);
    assert!(a.txs.is_empty());
    assert_eq!(a.metadata.eta, *blake3::hash(b"let there be dark!").as_bytes());
}

#[test]
fn genesis_hash_changes_with_each_input() {
    let base = Block::genesis_block(1000, [3u8; 32]).blockhash();
    assert_ne!(base, Block::genesis_block(1001, [3u8; 32]).blockhash());
    assert_ne!(base, Block::genesis_block(1000, [4u8; 32]).blockhash());
}

#[test]
fn changing_any_field_changes_the_hash() {
    let b = Block::new([1u8; 32], 2, 3, vec![[4u8; 32]], meta(6));
    let h = b.blockhash();
    let mut c = b.clone();
    c.e = 9;
    assert_ne!(h, c.blockhash());
    let mut c = b.clone();
    c.sl = 9;
    assert_ne!(h, c.blockhash());
    let mut c = b.clone();
    c.txs[0][31] ^= 1;
    assert_ne!(h, c.blockhash());
    let mut c = b.clone();
    c.metadata.eta[0] ^= 1;
    assert_ne!(h, c.blockhash());
    let mut c = b.clone();
    c.metadata.timestamp += 1;
    assert_ne!(h, c.blockhash());
    let mut c = b.clone();
    c.txs.push([0u8; 32]);
    assert_ne!(h, c.blockhash());
}

#[test]
fn block_info_hash_is_compact_block_hash() {
    let info = BlockInfo::new([1u8; 32], 0, 4, vec![tx(b"a"), tx(b"b")], meta(9), sm(false));
    let block = info.to_block();
    assert_eq!(info.blockhash(), block.blockhash());
    assert_eq!(block.txs, vec![tx(b"a").hash(), tx(b"b").hash()]);
    let mut voted = info.clone();
    voted.sm = sm(true);
    voted.sm.finalized = true;
    assert_eq!(info.blockhash(), voted.blockhash());
}

#[test]
fn proposal_hash_uses_current_version() {
    let p = BlockProposal::new(
        vec![1],
        vec![2],
        vec![3],
        [1u8; 32],
        0,
        4,
        vec![tx(b"a")],
        meta(9),
        sm(false),
    );
    assert_eq!(p.hash(), p.block.blockhash());
    let mut old = p.clone();
    old.block.v = BLOCK_VERSION + 1;
    assert_eq!(old.hash(), p.hash());
    assert_ne!(old.block.blockhash(), p.block.blockhash());
    assert_eq!(
        BlockProposal::to_proposal_hash([1u8; 32], 0, 4, &vec![tx(b"a")], &meta(9)),
        p.hash()
    );
}

#[test]
fn proposal_equality_ignores_streamlet_metadata() {
    let p = BlockProposal::new(
        vec![1],
        vec![2],
        vec![3],
        [1u8; 32],
        0,
        4,
        vec![tx(b"a")],
        meta(9),
        sm(false),
    );
    let mut q = p.clone();
    q.block.sm = sm(true);
    assert!(p == q);
    let mut r = p.clone();
    r.signature = vec![9];
    assert!(p != r);
    let mut r = p.clone();
    r.block.txs = vec![tx(b"b")];
    assert!(p != r);
    let info = q.clone().into_block_info();
    assert!(info.sm.notarized);
}

#[test]
fn message_names() {
    assert_eq!(BlockOrder::name(), "blockorder");
    assert_eq!(BlockInfo::name(), "blockinfo");
    assert_eq!(BlockResponse::name(), "blockresponse");
    assert_eq!(BlockProposal::name(), "proposal");
}
