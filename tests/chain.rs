use albatross::blockchain::{BlockError, PushError};
use albatross::chain::{BlockInfo, Chain, ChainEvent, ChainPushResult};
use albatross::policy::Policy;
use albatross::primitives::Blake2bHash;

fn hash(tag: u8, n: u32) -> Blake2bHash {
    let mut h = [0u8; 32];
    h[0] = tag;
    h[1..5].copy_from_slice(&n.to_be_bytes());
    Blake2bHash(h)
}

fn block(policy: &Policy, tag: u8, n: u32, parent: Blake2bHash) -> BlockInfo {
    BlockInfo {
        hash: hash(tag, n),
        parent,
        block_number: n,
        is_macro: policy.is_macro_block_at(n),
        is_election: policy.is_election_block_at(n),
    }
}

fn genesis(policy: &Policy) -> BlockInfo {
    let g = policy.genesis_block_number();
    BlockInfo { hash: hash(0, g), parent: Blake2bHash([0xff; 32]), block_number: g, is_macro: true, is_election: true }
}

fn hashes(v: &[Blake2bHash]) -> Vec<u32> {
    v.iter().map(|h| u32::from_be_bytes([h.0[1], h.0[2], h.0[3], h.0[4]]) + 1000 * h.0[0] as u32).collect()
}

#[test]
fn genesis_boot_extends_the_chain() {
    let p = Policy::test_policy();
    let g = genesis(&p);
    let mut chain = Chain::new(g);
    let b1 = block(&p, 0, 1, g.hash);
    assert_eq!(chain.push(b1, Ok(())), Ok(ChainPushResult::Extended));
    assert!(matches!(chain.events.last(), Some(ChainEvent::Extended(h)) if *h == b1.hash));
    assert_eq!(chain.push(b1, Ok(())), Ok(ChainPushResult::Known));
}

#[test]
fn a_checkpoint_after_a_batch_is_finalized() {
    let p = Policy::test_policy();
    let g = genesis(&p);
    let mut chain = Chain::new(g);
    let mut parent = g.hash;
    for n in 1..p.blocks_per_batch() {
        let b = block(&p, 0, n, parent);
        assert_eq!(chain.push(b, Ok(())), Ok(ChainPushResult::Extended));
        parent = b.hash;
    }
    let checkpoint = block(&p, 0, p.blocks_per_batch(), parent);
    assert!(checkpoint.is_macro && !checkpoint.is_election);
    assert_eq!(chain.push(checkpoint, Ok(())), Ok(ChainPushResult::Extended));
    assert!(matches!(chain.events.last(), Some(ChainEvent::Finalized(h)) if *h == checkpoint.hash));
    let stale = block(&p, 9, 5, g.hash);
    assert_eq!(chain.push(stale, Ok(())), Ok(ChainPushResult::Ignored));
}

#[test]
fn a_longer_sibling_branch_wins() {
    let p = Policy::test_policy();
    let g = genesis(&p);
    let mut chain = Chain::new(g);
    let mut parent = g.hash;
    for n in 1..=p.blocks_per_batch() {
        let b = block(&p, 0, n, parent);
        chain.push(b, Ok(()));
        parent = b.hash;
    }
    let macro_hash = parent;
    let bb = p.blocks_per_batch();
    for n in bb + 1..=bb + 3 {
        let b = block(&p, 0, n, parent);
        assert_eq!(chain.push(b, Ok(())), Ok(ChainPushResult::Extended));
        parent = b.hash;
    }
    let mut side = macro_hash;
    let mut results = Vec::new();
    for n in bb + 1..=bb + 4 {
        let b = block(&p, 1, n, side);
        results.push(chain.push(b, Ok(())));
        side = b.hash;
    }
    assert_eq!(
        results,
        vec![
            Ok(ChainPushResult::Forked),
            Ok(ChainPushResult::Forked),
            Ok(ChainPushResult::Forked),
            Ok(ChainPushResult::Rebranched),
        ]
    );
    match chain.events.last() {
        Some(ChainEvent::Rebranched(reverted, adopted)) => {
            assert_eq!(hashes(reverted), vec![bb + 1, bb + 2, bb + 3]);
            assert_eq!(
                hashes(adopted),
                vec![1000 + bb + 1, 1000 + bb + 2, 1000 + bb + 3, 1000 + bb + 4]
            );
        }
        _ => panic!("expected a rebranch"),
    }
    let next = block(&p, 0, bb + 5, side);
    assert_eq!(chain.push(next, Ok(())), Ok(ChainPushResult::Extended));
}

#[test]
fn a_tie_goes_to_the_lower_hash() {
    let p = Policy::test_policy();
    let g = genesis(&p);
    let mut chain = Chain::new(g);
    let a = block(&p, 5, 1, g.hash);
    chain.push(a, Ok(()));
    let b = block(&p, 2, 1, g.hash);
    assert_eq!(chain.push(b, Ok(())), Ok(ChainPushResult::Rebranched));
    let c = block(&p, 7, 1, g.hash);
    assert_eq!(chain.push(c, Ok(())), Ok(ChainPushResult::Forked));
}

#[test]
fn bad_blocks_change_nothing() {
    let p = Policy::test_policy();
    let g = genesis(&p);
    let mut chain = Chain::new(g);
    let orphan = block(&p, 0, 2, hash(3, 1));
    assert_eq!(chain.push(orphan, Ok(())), Err(PushError::Orphan));
    let wrong_number = block(&p, 0, 3, g.hash);
    assert_eq!(chain.push(wrong_number, Ok(())), Err(PushError::InvalidBlock(BlockError::MalformedHeader)));
    let b1 = block(&p, 0, 1, g.hash);
    assert_eq!(
        chain.push(b1, Err(BlockError::InvalidSignature)),
        Err(PushError::InvalidBlock(BlockError::InvalidSignature))
    );
    assert!(chain.events.is_empty());
}

#[test]
fn the_head_follows_the_pushed_block() {
    let p = Policy::test_policy();
    let g = genesis(&p);
    let mut chain = Chain::new(g);
    assert_eq!(chain.block_number(), 0);
    let b1 = block(&p, 0, 1, g.hash);
    chain.push(b1, Ok(()));
    assert_eq!(chain.block_number(), 1);
    assert_eq!(chain.head_hash(), b1.hash);
}
