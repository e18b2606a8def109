use albatross::blockchain::is_better_chain;
use albatross::primitives::Blake2bHash;
use albatross::validity::ValidityStore;

fn h(b: u8) -> Blake2bHash {
    Blake2bHash([b; 32])
}

#[test]
fn included_transactions_are_replays() {
    let mut store = ValidityStore::new();
    store.add_block(10, &[h(1), h(2)]);
    store.add_block(11, &[h(3)]);
    assert!(store.contains(&h(1)));
    assert!(store.contains(&h(3)));
    assert!(!store.contains(&h(4)));
}

#[test]
fn reverting_a_block_forgets_its_transactions() {
    let mut store = ValidityStore::new();
    store.add_block(10, &[h(1)]);
    store.add_block(11, &[h(2), h(3)]);
    store.remove_block(11);
    assert!(store.contains(&h(1)));
    assert!(!store.contains(&h(2)));
    assert!(!store.contains(&h(3)));
}

#[test]
fn pruning_drops_blocks_outside_the_window() {
    let mut store = ValidityStore::new();
    store.add_block(10, &[h(1)]);
    store.add_block(20, &[h(2)]);
    store.add_block(30, &[h(3)]);
    store.prune(20);
    assert!(!store.contains(&h(1)));
    assert!(store.contains(&h(2)));
    assert!(store.contains(&h(3)));
}

#[test]
fn fork_choice_prefers_work_then_lower_hash() {
    assert!(is_better_chain(11, &h(9), 10, &h(1)));
    assert!(!is_better_chain(9, &h(0), 10, &h(1)));
    assert!(is_better_chain(10, &h(0), 10, &h(1)));
    assert!(!is_better_chain(10, &h(2), 10, &h(1)));
    assert!(!is_better_chain(10, &h(1), 10, &h(1)));
}
