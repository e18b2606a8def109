use albatross::blockchain::{
    get_next_block_type, BlockError, BlockType, BlockchainEvent, LightBlockchain, MacroBlockInfo,
    PushError, PushResult, TaintedBlockchainConfig,
};
use albatross::policy::Policy;
use albatross::primitives::Blake2bHash;

fn block(tag: u8, block_number: u32, is_election: bool) -> MacroBlockInfo {
    MacroBlockInfo {
        hash: Blake2bHash([tag; 32]),
        block_number,
        is_election,
        has_body: true,
        validators: if is_election { Some(Blake2bHash([tag ^ 0x80; 32])) } else { None },
    }
}

fn kinds(chain: &LightBlockchain) -> Vec<(u8, u8)> {
    chain
        .events
        .iter()
        .map(|e| match e {
            BlockchainEvent::Extended(h) => (0, h.0[0]),
            BlockchainEvent::Finalized(h) => (1, h.0[0]),
            BlockchainEvent::EpochFinalized(h) => (2, h.0[0]),
        })
        .collect()
}

#[test]
fn a_checkpoint_is_finalized() {
    let mut chain = LightBlockchain::new(block(0, 0, true));
    let r = chain.push_macro(block(1, 32, false), Ok(()));
    assert_eq!(r, Ok(PushResult::Extended));
    assert_eq!(kinds(&chain), vec![(0, 1), (1, 1)]);
    assert_eq!(chain.macro_head.block_number, 32);
    assert_eq!(chain.election_head.block_number, 0);
    assert_eq!(chain.current_validators, Some(Blake2bHash([0x80; 32])));
    assert_eq!(chain.chain_store.len(), 1);
}

#[test]
fn an_election_block_finalizes_the_epoch() {
    let mut chain = LightBlockchain::new(block(0, 0, true));
    let r = chain.push_macro(block(2, 128, true), Ok(()));
    assert_eq!(r, Ok(PushResult::Extended));
    assert_eq!(kinds(&chain), vec![(0, 2), (2, 2)]);
    assert_eq!(chain.election_head.block_number, 128);
    assert_eq!(chain.current_validators, Some(Blake2bHash([2 ^ 0x80; 32])));
}

#[test]
fn known_old_and_invalid_blocks_change_nothing() {
    let mut chain = LightBlockchain::new(block(0, 0, true));
    assert_eq!(chain.push_macro(block(0, 0, true), Ok(())), Ok(PushResult::Known));
    chain.push_macro(block(1, 64, false), Ok(()));
    assert_eq!(chain.push_macro(block(3, 32, false), Ok(())), Ok(PushResult::Ignored));
    assert_eq!(
        chain.push_macro(block(4, 96, false), Err(BlockError::InvalidSignature)),
        Err(PushError::InvalidBlock(BlockError::InvalidSignature))
    );
    let mut bodiless = block(5, 96, false);
    bodiless.has_body = false;
    assert_eq!(
        chain.push_macro(bodiless, Ok(())),
        Err(PushError::InvalidBlock(BlockError::MissingBody))
    );
    assert_eq!(chain.macro_head.block_number, 64);
    assert_eq!(kinds(&chain).len(), 2);
}

#[test]
fn a_zero_knowledge_proof_syncs_to_an_election_block() {
    let mut chain = LightBlockchain::new(block(0, 0, true));
    assert_eq!(
        chain.push_zkp(block(2, 256, true), Ok(()), false, false),
        Err(PushError::InvalidZKP)
    );
    assert_eq!(chain.push_zkp(block(2, 256, true), Ok(()), true, false), Ok(PushResult::Extended));
    assert_eq!(kinds(&chain), vec![(0, 2), (2, 2)]);
    assert_eq!(chain.head.block_number, 256);
    assert_eq!(chain.election_head.block_number, 256);
    assert_eq!(chain.current_validators, Some(Blake2bHash([2 ^ 0x80; 32])));
    assert_eq!(chain.push_zkp(block(3, 384, true), Ok(()), false, true), Ok(PushResult::Extended));
    assert_eq!(chain.macro_head.block_number, 384);
}

#[test]
fn next_block_type_follows_the_calendar() {
    let p = Policy::test_policy();
    assert_eq!(get_next_block_type(&p, 0), BlockType::Micro);
    assert_eq!(get_next_block_type(&p, 31), BlockType::Macro);
    assert_eq!(get_next_block_type(&p, 32), BlockType::Micro);
}

#[test]
fn the_default_node_is_honest() {
    let c = TaintedBlockchainConfig::default();
    assert!(!c.always_produce && !c.fork_blocks && !c.invalid_blocks);
    assert!(!c.tainted_request_head && !c.tainted_signing_key);
}
