use albatross::equivocation::{verify_fork_proof, EquivocationError, EquivocationLog, ForkProof};
use albatross::keys::{KeyPair, PrivateKey};
use albatross::primitives::Blake2bHash;

fn fork_proof(kp: &KeyPair, n: u32, a: u8, b: u8) -> ForkProof {
    let header1 = Blake2bHash([a; 32]);
    let header2 = Blake2bHash([b; 32]);
    ForkProof {
        block_number: n,
        header1,
        header2,
        signature1: kp.sign(&header1.0),
        signature2: kp.sign(&header2.0),
    }
}

#[test]
fn an_equivocating_validator_is_slashed_at_the_next_election() {
    let validator = KeyPair::derive(&PrivateKey([4u8; 32]));
    let other = KeyPair::derive(&PrivateKey([5u8; 32]));
    let proof = fork_proof(&validator, 2, 10, 11);
    assert!(verify_fork_proof(&proof, &validator.public_key()));
    assert!(!verify_fork_proof(&proof, &other.public_key()));

    let mut log = EquivocationLog::new();
    assert_eq!(log.report(1, &proof, &other.public_key()), Err(EquivocationError::InvalidProof));
    assert_eq!(log.report(1, &proof, &validator.public_key()), Ok(true));
    assert_eq!(log.report(1, &proof, &validator.public_key()), Ok(false));
    assert_eq!(log.reported, vec![(1u16, 2u32)]);

    let mut stakes = vec![1000u64, 1000, 1000];
    log.slash_at_election(&mut stakes, 10);
    assert_eq!(stakes, vec![1000, 900, 1000]);
    assert!(log.reported.is_empty());
}

#[test]
fn signing_the_same_block_twice_is_no_equivocation() {
    let validator = KeyPair::derive(&PrivateKey([4u8; 32]));
    let proof = fork_proof(&validator, 2, 10, 10);
    assert!(!verify_fork_proof(&proof, &validator.public_key()));
}
