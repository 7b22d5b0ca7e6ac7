//! Consensus data model and block synchronization for a peer-to-peer
//! blockchain node: blocks and their digests, chains of proposals with their
//! linkage and notarization rules, a ledger of finalized blocks, and the
//! decisions a peer session takes when it serves and ingests blocks.
pub mod block;
pub mod chain;
pub mod encoding;
pub mod hashing;
pub mod ledger;
pub mod node_map;
pub mod sync;
pub mod wallet_cache;
