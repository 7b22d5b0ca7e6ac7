use darkfi_sync::node_map::App;
use darkfi_sync::wallet_cache::{MerkleTree, WalletCache};

#[test]
fn received_coins_follow_decryption() {
    let mut cache = WalletCache::new();
    cache.track([1u8; 32]);
    cache.track([2u8; 32]);
    cache.try_decrypt_note([10u8; 32], &vec![Some(vec![0xaa]), None]);
    cache.try_decrypt_note([11u8; 32], &vec![Some(vec![0xbb]), Some(vec![0xcc])]);
    assert_eq!(cache.tree.len(), 2);

    let first = cache.get_received(&[1u8; 32]);
    assert_eq!(first.len(), 2);
    assert_eq!(first[0].coin, [10u8; 32]);
    assert_eq!(first[0].note, vec![0xaa]);
    assert_eq!(first[0].leaf_position, 0);
    assert_eq!(first[1].leaf_position, 1);
    assert!(cache.get_received(&[1u8; 32]).is_empty());

    let second = cache.get_received(&[2u8; 32]);
    assert_eq!(second.len(), 1);
    assert_eq!(second[0].coin, [11u8; 32]);
    assert_eq!(second[0].note, vec![0xcc]);
    assert_eq!(second[0].leaf_position, 1);
}

#[test]
fn default_cache_is_empty() {
    let mut cache = WalletCache::default();
    assert_eq!(cache.tree.len(), 0);
    cache.try_decrypt_note([3u8; 32], &vec![]);
    assert_eq!(cache.tree.len(), 1);
}

#[test]
fn tree_positions_count_up() {
    let mut tree = MerkleTree::new();
    assert_eq!(tree.append([0u8; 32]), 0);
    assert_eq!(tree.append([0u8; 32]), 1);
    assert_eq!(tree.len(), 2);
}

#[test]
fn map_app_starts_with_one_node() {
    let app = App::new();
    assert_eq!(app.node_info.infos.len(), 1);
    assert_eq!(app.node_info.infos[0].id, "sodisofjhosd");
    assert_eq!(app.node_info.infos[0].connections, 10);
    assert!(app.node_info.infos[0].is_active);
    assert_eq!(app.node_info.infos[0].last_message, "hey how are you?");
    assert_eq!(app.node_list.ids, vec!["sodisofjhosd".to_string()]);
}
