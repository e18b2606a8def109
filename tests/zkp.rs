use albatross::blockchain::MacroBlockInfo;
use albatross::policy::Policy;
use albatross::primitives::Blake2bHash;
use albatross::tendermint::{accepts_update, is_quorum, proposer_index, round_timeout};
use albatross::zkp::{is_genesis_proof, pending_election_count, should_launch_proof, ProverQueue};

fn election(n: u32) -> MacroBlockInfo {
    MacroBlockInfo { hash: Blake2bHash([n as u8; 32]), block_number: n, is_election: true, has_body: true, validators: None }
}

#[test]
fn the_prover_catches_up_on_missing_epochs() {
    let p = Policy::test_policy();
    assert_eq!(pending_election_count(&p, 384, 128), 2);
    assert_eq!(pending_election_count(&p, 128, 128), 0);
    assert_eq!(pending_election_count(&p, 0, 128), 0);
}

#[test]
fn only_the_next_election_block_is_proven() {
    let p = Policy::test_policy();
    assert!(should_launch_proof(&p, 128, 256));
    assert!(!should_launch_proof(&p, 256, 256));
    assert!(is_genesis_proof(0, false));
    assert!(!is_genesis_proof(0, true));
    assert!(!is_genesis_proof(128, false));
}

#[test]
fn the_queue_skips_proven_blocks_and_runs_one_job() {
    let p = Policy::test_policy();
    let mut q = ProverQueue::new(vec![election(128), election(256), election(384)]);
    let launched = q.launch_next(&p, 128).unwrap();
    assert_eq!(launched.block_number, 256);
    assert_eq!(q.pending.len(), 1);
    assert!(q.launch_next(&p, 128).is_none());
    q.finish();
    q.push_election_block(election(512));
    let launched = q.launch_next(&p, 256).unwrap();
    assert_eq!(launched.block_number, 384);
    q.finish();
    assert!(q.launch_next(&p, 128).is_none());
    assert!(q.pending.is_empty());
}

#[test]
fn round_timeouts_grow_linearly() {
    let p = Policy::test_policy();
    assert_eq!(round_timeout(&p, 0), 1000);
    assert_eq!(round_timeout(&p, 3), 4000);
}

#[test]
fn proposers_rotate_with_height_and_round() {
    assert_eq!(proposer_index(10, 0, 7), 3);
    assert_eq!(proposer_index(10, 5, 7), 1);
    assert_eq!(proposer_index(u32::MAX, u32::MAX, 7), ((u32::MAX as u64 * 2) % 7) as u16);
}

#[test]
fn updates_for_other_heights_or_senders_are_dropped() {
    assert!(accepts_update(5, 2, 5, 2));
    assert!(!accepts_update(4, 2, 5, 2));
    assert!(!accepts_update(5, 1, 5, 2));
    assert!(is_quorum(342));
    assert!(!is_quorum(341));
}

use albatross::tendermint::{RoundState, Step, TendermintAction, TendermintInput};

/// Runs one height among `n` validators of equal stake, of which `faulty` stays silent, and
/// returns the round in which every honest validator decided.
fn run_height(height: u32, n: u16, faulty: u16) -> u32 {
    let slots_each = 512 / n;
    let honest: Vec<u16> = (0..n).filter(|v| *v != faulty).collect();
    let mut states: Vec<RoundState> = honest.iter().map(|_| RoundState::new()).collect();
    let value = Blake2bHash([height as u8; 32]);
    for round in 0..4u32 {
        let proposer = proposer_index(height, round, n);
        // propose
        let mut prevoted: Vec<Option<Blake2bHash>> = Vec::new();
        for st in states.iter_mut() {
            let action = if proposer == faulty {
                st.handle(TendermintInput::Timeout { round, step: Step::Propose })
            } else {
                st.handle(TendermintInput::Proposal { round, hash: value, valid_round: None, is_valid: true })
            };
            match action {
                TendermintAction::Prevote(_, v) => prevoted.push(v),
                _ => panic!("expected a prevote"),
            }
        }
        let agreed = prevoted[0];
        assert!(prevoted.iter().all(|v| *v == agreed));
        let weight = slots_each * honest.len() as u16;
        let mut precommitted = Vec::new();
        for st in states.iter_mut() {
            match st.handle(TendermintInput::Prevotes { round, hash: agreed, slots: weight }) {
                TendermintAction::Precommit(_, v) => precommitted.push(v),
                _ => panic!("expected a precommit"),
            }
        }
        let mut decided = 0;
        for st in states.iter_mut() {
            match st.handle(TendermintInput::Precommits { round, hash: precommitted[0], slots: weight }) {
                TendermintAction::Decide(h) => {
                    assert_eq!(h, value);
                    decided += 1;
                }
                TendermintAction::NewRound(r) => assert_eq!(r, round + 1),
                _ => panic!("unexpected action"),
            }
        }
        if decided == states.len() {
            return round;
        }
    }
    panic!("no decision");
}

#[test]
fn seven_validators_with_one_silent_decide_within_two_rounds() {
    for height in 0..20u32 {
        let round = run_height(height, 7, 3);
        assert!(round <= 1);
    }
}

#[test]
fn a_locked_validator_prevotes_nil_for_another_value() {
    let mut st = RoundState::new();
    let a = Blake2bHash([1u8; 32]);
    let b = Blake2bHash([2u8; 32]);
    st.handle(TendermintInput::Proposal { round: 0, hash: a, valid_round: None, is_valid: true });
    st.handle(TendermintInput::Prevotes { round: 0, hash: Some(a), slots: 400 });
    assert_eq!(st.locked.map(|(r, h)| (r, h.0[0])), Some((0, 1)));
    st.handle(TendermintInput::Timeout { round: 0, step: Step::Precommit });
    match st.handle(TendermintInput::Proposal { round: 1, hash: b, valid_round: None, is_valid: true }) {
        TendermintAction::Prevote(1, None) => {}
        other => panic!("unexpected {:?}", other),
    }
    assert!(matches!(st.handle(TendermintInput::Precommits { round: 1, hash: Some(b), slots: 100 }), TendermintAction::Nothing));
}
