use albatross::blockchain::{BlockchainEvent, LightBlockchain, MacroBlockInfo, PushResult};
use albatross::history::LightHistoryStore;
use albatross::mmr::PeaksMerkleMountainRange;
use albatross::policy::Policy;
use albatross::primitives::{Address, Blake2bHash, NetworkId};
use albatross::transaction::Transaction;
use albatross::validity::ValidityStore;

fn tx_hash(block: u32, i: u64) -> Blake2bHash {
    Transaction::new_basic(Address([7u8; 20]), Address([8u8; 20]), i + 1, 0, block, NetworkId::UnitAlbatross)
        .hash()
}

#[test]
fn a_checkpoint_finalizes_a_batch_of_micro_blocks() {
    let policy = Policy::test_policy();
    let b = policy.blocks_per_batch();
    let mut history = LightHistoryStore::new(NetworkId::UnitAlbatross);
    let mut validity = ValidityStore::new();
    let mut reference = PeaksMerkleMountainRange::new();
    let mut all = Vec::new();

    for n in 1..b {
        assert!(policy.is_micro_block_at(n));
        let txs = vec![tx_hash(n, 0), tx_hash(n, 1)];
        history.add_block(&policy, n, &txs, &[], &[]);
        validity.add_block(n, &txs);
        for t in &txs {
            reference.push(&t.0);
        }
        all.extend(txs);
    }
    assert!(policy.is_macro_block_at(b));
    let inherent = tx_hash(b, 99);
    let (root, leaves) = history.add_block(&policy, b, &[], &[inherent], &[]);
    reference.push(&inherent.0);

    let mut chain = LightBlockchain::new(MacroBlockInfo {
        hash: Blake2bHash([0u8; 32]),
        block_number: 0,
        is_election: true,
        has_body: true,
        validators: Some(Blake2bHash([9u8; 32])),
    });
    let checkpoint = MacroBlockInfo { hash: root, block_number: b, is_election: false, has_body: true, validators: None };
    assert_eq!(chain.push_macro(checkpoint, Ok(())), Ok(PushResult::Extended));
    assert!(matches!(chain.events.last(), Some(BlockchainEvent::Finalized(h)) if *h == root));

    for t in &all {
        assert!(validity.contains(t));
    }
    assert_eq!(leaves, 2 * (b as u64 - 1) + 1);
    assert_eq!(root, reference.get_root());
    assert_eq!(history.get_history_tree_root(policy.epoch_at(b)).unwrap(), reference.get_root());
}

#[test]
fn a_light_client_follows_proven_epochs() {
    let policy = Policy::test_policy();
    let genesis = MacroBlockInfo { hash: Blake2bHash([0u8; 32]), block_number: 0, is_election: true, has_body: true, validators: Some(Blake2bHash([7u8; 32])) };
    let mut chain = LightBlockchain::new(genesis);
    let epoch1 = policy.election_block_of(1).unwrap();
    let epoch2 = policy.election_block_of(2).unwrap();
    let e1 = MacroBlockInfo { hash: Blake2bHash([1u8; 32]), block_number: epoch1, is_election: true, has_body: true, validators: Some(Blake2bHash([7u8; 32])) };
    let e2 = MacroBlockInfo { hash: Blake2bHash([2u8; 32]), block_number: epoch2, is_election: true, has_body: true, validators: Some(Blake2bHash([7u8; 32])) };
    assert_eq!(chain.push_zkp(e1, Ok(()), true, false), Ok(PushResult::Extended));
    assert_eq!(chain.push_zkp(e2, Ok(()), true, false), Ok(PushResult::Extended));
    assert_eq!(chain.election_head.block_number, 256);
    assert_eq!(chain.current_validators, Some(Blake2bHash([7u8; 32])));
    assert_eq!(chain.push_zkp(e1, Ok(()), true, false), Ok(PushResult::Ignored));
    assert_eq!(chain.events.len(), 4);
}
