use albatross::blockchain::BlockError;
use albatross::history::{HistoryError, LightHistoryStore};
use albatross::mmr::PeaksMerkleMountainRange;
use albatross::policy::Policy;
use albatross::primitives::{Address, Blake2bHash, NetworkId};
use albatross::transaction::Transaction;

fn create_transaction(block: u32, value: u64) -> Blake2bHash {
    Transaction::new_basic(
        Address([0x5a; 20]),
        Address([0u8; 20]),
        value,
        0,
        block,
        NetworkId::UnitAlbatross,
    )
    .hash()
}

#[test]
fn length_at_works() {
    let mut history_store = LightHistoryStore::new(NetworkId::UnitAlbatross);

    let ext_0 = create_transaction(1, 0);
    let ext_1 = create_transaction(1, 1);
    let ext_2 = create_transaction(2, 2);
    let ext_3 = create_transaction(3, 3);
    let ext_4 = create_transaction(3, 4);
    let ext_5 = create_transaction(3, 5);
    let ext_6 = create_transaction(3, 6);
    let ext_7 = create_transaction(3, 7);

    let hist_txs = vec![ext_0, ext_1];
    history_store.add_to_history(1, 1, &hist_txs);

    let hist_txs = vec![ext_2];
    history_store.add_to_history(2, 2, &hist_txs);

    let hist_txs = vec![ext_3, ext_4, ext_5, ext_6, ext_7];
    history_store.add_to_history(3, 3, &hist_txs);

    let len_1 = history_store.total_len_at_epoch(1);
    let len_2 = history_store.total_len_at_epoch(2);
    let len_3 = history_store.total_len_at_epoch(3);

    assert_eq!(len_1, 3);
    assert_eq!(len_2, 1);
    assert_eq!(len_3, 8);
}

#[test]
fn it_can_remove_a_block() {
    let mut history_store = LightHistoryStore::new(NetworkId::UnitAlbatross);

    let hist_txs = vec![create_transaction(1, 0), create_transaction(1, 1)];
    history_store.add_to_history(1, 1, &hist_txs);

    let hist_txs = vec![create_transaction(2, 0), create_transaction(2, 1), create_transaction(2, 2)];
    history_store.add_to_history(2, 2, &hist_txs);

    let hist_txs = vec![
        create_transaction(3, 0),
        create_transaction(3, 1),
        create_transaction(3, 2),
        create_transaction(3, 3),
    ];
    history_store.add_to_history(3, 3, &hist_txs);

    assert_eq!(history_store.total_len_at_epoch(1), 3);
    assert_eq!(history_store.total_len_at_epoch(2), 4);
    assert_eq!(history_store.total_len_at_epoch(3), 7);

    let prev_root_1 = history_store.get_history_tree_root(1).unwrap();
    let _prev_root_2 = history_store.get_history_tree_root(2).unwrap();
    let prev_root_3 = history_store.get_history_tree_root(3).unwrap();

    history_store.remove_block(2, 2);

    assert_eq!(history_store.total_len_at_epoch(1), 3);
    assert_eq!(history_store.total_len_at_epoch(2), 0);
    assert_eq!(history_store.total_len_at_epoch(3), 7);

    let empty_root = Blake2bHash([0u8; 32]);
    let root_1 = history_store.get_history_tree_root(1).unwrap();
    let root_2 = history_store.get_history_tree_root(2).unwrap();
    let root_3 = history_store.get_history_tree_root(3).unwrap();

    assert_eq!(prev_root_1, root_1);
    assert_eq!(empty_root, root_2);
    assert_eq!(prev_root_3, root_3);
}

#[test]
fn removing_a_block_that_is_not_last_changes_nothing() {
    let mut store = LightHistoryStore::new(NetworkId::UnitAlbatross);
    store.add_to_history(1, 1, &[create_transaction(1, 0)]);
    store.add_to_history(1, 2, &[create_transaction(2, 0)]);
    let root = store.get_history_tree_root(1).unwrap();
    store.remove_block(1, 1);
    assert_eq!(store.num_epoch_transactions(1), 2);
    assert_eq!(store.get_history_tree_root(1).unwrap(), root);
    store.remove_block(1, 2);
    assert_eq!(store.num_epoch_transactions(1), 1);
    store.remove_block(1, 1);
    assert_eq!(store.num_epoch_transactions(1), 0);
}

#[test]
fn add_block_then_remove_restores_the_epoch() {
    let policy = Policy::test_policy();
    let mut store = LightHistoryStore::new(NetworkId::UnitAlbatross);
    let (root_a, n_a) = store.add_block(&policy, 1, &[create_transaction(1, 1)], &[], &[]);
    assert_eq!(n_a, 1);
    let (root_b, n_b) = store.add_block(
        &policy,
        2,
        &[create_transaction(2, 1), create_transaction(2, 2)],
        &[create_transaction(2, 3)],
        &[create_transaction(2, 4)],
    );
    assert_eq!(n_b, 5);
    assert_ne!(root_a, root_b);
    assert_eq!(store.get_history_tree_root(1).unwrap(), root_b);
    store.remove_block_at(&policy, 2);
    assert_eq!(store.num_epoch_transactions(1), 1);
    assert_eq!(store.get_history_tree_root(1).unwrap(), root_a);
}

#[test]
fn the_epoch_root_matches_a_range_built_leaf_by_leaf() {
    let leaves: Vec<Blake2bHash> = (0..6).map(|v| create_transaction(4, v)).collect();
    let mut store = LightHistoryStore::new(NetworkId::UnitAlbatross);
    store.add_to_history(1, 1, &leaves[..2]);
    store.add_to_history(1, 2, &leaves[2..]);
    let mut mmr = PeaksMerkleMountainRange::new();
    for leaf in &leaves {
        mmr.push(&leaf.0);
    }
    assert_eq!(store.get_history_tree_root(1).unwrap(), mmr.get_root());
    store.clear();
    assert_eq!(store.num_epoch_transactions(1), 0);
}

#[test]
fn an_epoch_rebuilt_from_chunks_has_its_root() {
    let leaves: Vec<Blake2bHash> = (0..7).map(|v| create_transaction(5, v)).collect();
    let mut full = LightHistoryStore::new(NetworkId::UnitAlbatross);
    full.add_to_history(2, 5, &leaves);
    let root = full.get_history_tree_root(2).unwrap();

    let mut light = LightHistoryStore::new(NetworkId::UnitAlbatross);
    let wrong = vec![leaves[1..].to_vec()];
    assert_eq!(light.tree_from_chunks(2, &wrong, &root), Err(HistoryError::RootMismatch));
    assert_eq!(light.num_epoch_transactions(2), 0);

    let chunks = vec![leaves[..3].to_vec(), leaves[3..4].to_vec(), vec![], leaves[4..].to_vec()];
    assert_eq!(light.tree_from_chunks(2, &chunks, &root), Ok(root));
    assert_eq!(light.get_history_tree_root(2).unwrap(), root);
    assert_eq!(light.num_epoch_transactions(2), 7);
    assert_eq!(light.total_len_at_epoch(2), full.total_len_at_epoch(2));
}

#[test]
fn a_wrong_history_root_rejects_the_block_and_rolls_back() {
    let policy = Policy::test_policy();
    let mut store = LightHistoryStore::new(NetworkId::UnitAlbatross);
    let first = [create_transaction(1, 1)];
    let (root, _) = store.add_block(&policy, 1, &first, &[], &[]);
    let txs = [create_transaction(2, 1), create_transaction(2, 2)];
    assert_eq!(
        store.apply_block_history(&policy, 2, &txs, &[], &[], &Blake2bHash([1u8; 32])),
        Err(BlockError::BadHistoryRoot)
    );
    assert_eq!(store.num_epoch_transactions(1), 1);
    assert_eq!(store.get_history_tree_root(1).unwrap(), root);

    let mut mmr = PeaksMerkleMountainRange::new();
    for t in first.iter().chain(txs.iter()) {
        mmr.push(&t.0);
    }
    let expected = mmr.get_root();
    assert_eq!(store.apply_block_history(&policy, 2, &txs, &[], &[], &expected), Ok(()));
    assert_eq!(store.get_history_tree_root(1).unwrap(), expected);
}

#[test]
fn a_block_fills_the_validity_set_and_removing_it_restores_the_store() {
    let policy = Policy::test_policy();
    let mut store = LightHistoryStore::new(NetworkId::UnitAlbatross);
    let (root_1, _) = store.add_block(&policy, 1, &[create_transaction(1, 1)], &[], &[]);
    let tx = create_transaction(2, 1);
    let inherent = create_transaction(2, 9);
    let (_, total) = store.add_block(&policy, 2, &[tx], &[inherent], &[]);
    assert_eq!(total, 3);
    assert!(store.contains_transaction(&tx));
    assert!(!store.contains_transaction(&inherent));
    store.remove_block_at(&policy, 2);
    assert!(!store.contains_transaction(&tx));
    assert!(store.contains_transaction(&create_transaction(1, 1)));
    assert_eq!(store.get_history_tree_root(1).unwrap(), root_1);
    store.prune_validity(2);
    assert!(!store.contains_transaction(&create_transaction(1, 1)));
}

#[test]
fn add_to_history_reports_the_epoch_leaf_count() {
    let mut store = LightHistoryStore::new(NetworkId::UnitAlbatross);
    assert_eq!(store.add_to_history(1, 1, &[create_transaction(1, 0)]).1, 1);
    assert_eq!(store.add_to_history(1, 2, &[create_transaction(2, 0), create_transaction(2, 1)]).1, 3);
}
