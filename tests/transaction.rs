use base64::Engine;
use p256::ecdsa::signature::Signer;
use sha2::Digest;
use albatross::keys::{KeyPair, PrivateKey, Signature};
use albatross::webauthn::{WebauthnClientDataFlags, WebauthnPublicKey, WebauthnSignatureProof};
use albatross::policy::Policy;
use albatross::primitives::{AccountType, Address, NetworkId};
use albatross::signature_proof::{
    Blake2bMerklePath, EdDSASignatureProof, MerklePathNode, SignatureProof,
};
use albatross::primitives::Blake2bHash;
use albatross::transaction::{
    ExecutedTransaction, Transaction, TransactionError, TransactionFlags, TransactionFlagsConvertError,
    TransactionFormat,
};

fn key(seed: u8) -> KeyPair {
    KeyPair::derive(&PrivateKey([seed; 32]))
}

fn signed_basic(kp: &KeyPair, recipient: Address, value: u64, network: NetworkId) -> Transaction {
    let mut tx = Transaction::new_basic(kp.to_address(), recipient, value, 1, 0, network);
    let signature = kp.sign(&tx.serialize_content());
    let proof = EdDSASignatureProof::from(kp.public_key(), signature);
    tx.proof = proof.serialize_to_vec();
    tx
}

#[test]
fn it_does_not_allow_creation() {
    let owner = Address([0u8; 20]);

    let transaction = Transaction::new_contract_creation(
        owner,
        AccountType::Basic,
        vec![],
        AccountType::Basic,
        vec![],
        100,
        0,
        0,
        NetworkId::Dummy,
    );

    assert_eq!(
        AccountType::verify_incoming_transaction(&transaction),
        Err(TransactionError::InvalidForRecipient)
    );
}

#[test]
fn it_does_not_allow_signalling() {
    let owner = Address([0u8; 20]);

    let transaction = Transaction::new_signaling(
        owner,
        AccountType::Basic,
        Address([1u8; 20]),
        AccountType::Basic,
        0,
        vec![],
        0,
        NetworkId::Dummy,
    );

    assert_eq!(
        AccountType::verify_incoming_transaction(&transaction),
        Err(TransactionError::ZeroValue)
    );
}

#[test]
fn content_layout_is_fixed() {
    let mut tx = Transaction::new_extended(
        Address([1u8; 20]),
        AccountType::Vesting,
        vec![9, 9],
        Address([2u8; 20]),
        AccountType::HTLC,
        vec![7],
        0x0102,
        3,
        0x0a0b0c0d,
        NetworkId::TestAlbatross,
    );
    tx.flags = TransactionFlags { bits: 2 };
    let mut expected = vec![0, 1, 7];
    expected.extend_from_slice(&[1u8; 20]);
    expected.push(1);
    expected.extend_from_slice(&[2u8; 20]);
    expected.push(2);
    expected.extend_from_slice(&[0, 0, 0, 0, 0, 0, 1, 2]);
    expected.extend_from_slice(&[0, 0, 0, 0, 0, 0, 0, 3]);
    expected.extend_from_slice(&[10, 11, 12, 13]);
    expected.push(5);
    expected.push(2);
    expected.extend_from_slice(&[2, 9, 9]);
    assert_eq!(tx.serialize_content(), expected);

    tx.network_id = NetworkId::Main;
    expected.truncate(expected.len() - 3);
    let at = expected.len() - 2;
    expected[at] = 42;
    assert_eq!(tx.serialize_content(), expected);
}

#[test]
fn a_basic_transaction_signed_by_its_sender_verifies() {
    let kp = key(1);
    let mut tx = signed_basic(&kp, Address([5u8; 20]), 100, NetworkId::UnitAlbatross);
    assert_eq!(tx.verify(NetworkId::UnitAlbatross), Ok(()));
    assert_eq!(tx.format(), TransactionFormat::Basic);
    assert!(!tx.valid);
    assert_eq!(tx.verify_mut(NetworkId::UnitAlbatross), Ok(()));
    assert!(tx.valid);
}

#[test]
fn a_signature_by_another_key_is_rejected() {
    let kp = key(1);
    let other = key(2);
    let mut tx = signed_basic(&kp, Address([5u8; 20]), 100, NetworkId::UnitAlbatross);
    let signature = other.sign(&tx.serialize_content());
    tx.proof = EdDSASignatureProof::from(other.public_key(), signature).serialize_to_vec();
    assert_eq!(tx.verify(NetworkId::UnitAlbatross), Err(TransactionError::InvalidProof));
    assert_eq!(tx.format(), TransactionFormat::Extended);
}

#[test]
fn a_tampered_transaction_is_rejected() {
    let kp = key(1);
    let mut tx = signed_basic(&kp, Address([5u8; 20]), 100, NetworkId::UnitAlbatross);
    tx.value = 101;
    assert_eq!(tx.verify(NetworkId::UnitAlbatross), Err(TransactionError::InvalidProof));
}

#[test]
fn an_unreadable_proof_is_rejected() {
    let kp = key(1);
    let mut tx = signed_basic(&kp, Address([5u8; 20]), 100, NetworkId::UnitAlbatross);
    tx.proof = vec![1, 2, 3];
    assert_eq!(tx.verify(NetworkId::UnitAlbatross), Err(TransactionError::InvalidSerialization));
}

#[test]
fn generic_checks_come_first() {
    let kp = key(1);
    let tx = signed_basic(&kp, Address([5u8; 20]), 100, NetworkId::UnitAlbatross);
    assert_eq!(tx.verify(NetworkId::TestAlbatross), Err(TransactionError::ForeignNetwork));

    let tx = signed_basic(&kp, kp.to_address(), 100, NetworkId::UnitAlbatross);
    assert_eq!(tx.verify(NetworkId::UnitAlbatross), Err(TransactionError::SenderEqualsRecipient));

    let tx = signed_basic(&kp, Address([5u8; 20]), 0, NetworkId::UnitAlbatross);
    assert_eq!(tx.verify(NetworkId::UnitAlbatross), Err(TransactionError::ZeroValue));

    let tx = signed_basic(&kp, Address([5u8; 20]), Policy::TOTAL_SUPPLY, NetworkId::UnitAlbatross);
    assert_eq!(tx.verify(NetworkId::UnitAlbatross), Err(TransactionError::Overflow));

    let mut staking = [0u8; 20];
    staking[19] = 1;
    let tx = signed_basic(&kp, Address(staking), 100, NetworkId::UnitAlbatross);
    assert_eq!(tx.verify(NetworkId::UnitAlbatross), Err(TransactionError::InvalidForRecipient));
}

#[test]
fn signaling_transactions_move_no_value() {
    let kp = key(12);
    let mut tx = Transaction::new_signaling(
        kp.to_address(),
        AccountType::Vesting,
        Address([2u8; 20]),
        AccountType::Staking,
        1,
        vec![],
        0,
        NetworkId::UnitAlbatross,
    );
    kp.sign_transaction(&mut tx);
    assert_eq!(tx.verify(NetworkId::UnitAlbatross), Ok(()));
    tx.value = 5;
    assert_eq!(tx.verify(NetworkId::UnitAlbatross), Err(TransactionError::InvalidForRecipient));
}

#[test]
fn every_sender_kind_must_sign() {
    let kp = key(13);
    let other = key(14);
    for kind in [AccountType::Vesting, AccountType::HTLC, AccountType::Staking] {
        let mut tx = Transaction::new_extended(
            kp.to_address(),
            kind,
            vec![],
            Address([2u8; 20]),
            AccountType::Vesting,
            vec![],
            10,
            1,
            0,
            NetworkId::UnitAlbatross,
        );
        assert_eq!(tx.verify(NetworkId::UnitAlbatross), Err(TransactionError::InvalidSerialization));
        other.sign_transaction(&mut tx);
        assert_eq!(tx.verify(NetworkId::UnitAlbatross), Err(TransactionError::InvalidProof));
        kp.sign_transaction(&mut tx);
        assert_eq!(tx.verify(NetworkId::UnitAlbatross), Ok(()));
    }
}

#[test]
fn the_validity_window_starts_one_batch_early() {
    let p = Policy::test_policy();
    let mut tx = Transaction::new_basic(Address([1u8; 20]), Address([2u8; 20]), 1, 0, 100, NetworkId::Dummy);
    assert!(!tx.is_valid_at(67, &p));
    assert!(tx.is_valid_at(68, &p));
    assert!(tx.is_valid_at(163, &p));
    assert!(!tx.is_valid_at(164, &p));
    tx.validity_start_height = 10;
    assert!(tx.is_valid_at(0, &p));
}

#[test]
fn total_value_saturates() {
    let mut tx = Transaction::new_basic(Address([1u8; 20]), Address([2u8; 20]), 5, 7, 0, NetworkId::Dummy);
    assert_eq!(tx.total_value(), 12);
    tx.value = u64::MAX;
    assert_eq!(tx.total_value(), u64::MAX);
}

#[test]
fn the_contract_address_is_derived_from_the_content() {
    let tx = Transaction::new_contract_creation(
        Address([1u8; 20]),
        AccountType::Basic,
        vec![],
        AccountType::Vesting,
        vec![1, 2],
        10,
        0,
        0,
        NetworkId::Dummy,
    );
    assert_ne!(tx.recipient, Address([0u8; 20]));
    assert_eq!(tx.contract_creation_address(), tx.recipient);
    let hash = tx.hash();
    assert_ne!(hash.0.to_vec(), tx.serialize_content());
}

#[test]
fn flags_reject_undefined_bits() {
    assert_eq!(TransactionFlags::try_from(3), Ok(TransactionFlags { bits: 3 }));
    assert_eq!(TransactionFlags::try_from(4), Err(TransactionFlagsConvertError(4)));
    assert!(TransactionFlags { bits: 3 }.contains(TransactionFlags::SIGNALING));
    assert!(!TransactionFlags::empty().contains(TransactionFlags::CONTRACT_CREATION));
}

#[test]
fn proofs_round_trip_through_their_bytes() {
    let kp = key(3);
    let signature = kp.sign(b"abc");
    let mut proof = EdDSASignatureProof::from(kp.public_key(), signature);
    proof.merkle_path = Blake2bMerklePath {
        nodes: vec![
            MerklePathNode { left: true, hash: Blake2bHash([4u8; 32]) },
            MerklePathNode { left: false, hash: Blake2bHash([5u8; 32]) },
        ],
    };
    let bytes = proof.serialize_to_vec();
    assert_eq!(bytes.len(), 97 + 66);
    assert_eq!(bytes[32], 2);
    let back = EdDSASignatureProof::deserialize_from_vec(&bytes).unwrap();
    assert_eq!(back.serialize_to_vec(), bytes);
    assert!(back.verify(b"abc"));
    assert!(!back.verify(b"abd"));
    assert_ne!(back.compute_signer(), kp.to_address());

    let mut bad = bytes.clone();
    bad[33] = 7;
    assert!(EdDSASignatureProof::deserialize_from_vec(&bad).is_none());
    assert!(EdDSASignatureProof::deserialize_from_vec(&bytes[..100]).is_none());
}

#[test]
fn a_single_signature_proof_signs_for_the_key_address() {
    let kp = key(4);
    let proof = EdDSASignatureProof::from(kp.public_key(), kp.sign(b"x"));
    assert!(proof.is_signed_by(&kp.to_address()));
    let digest = blake2b_simd::Params::new().hash_length(32).hash(&kp.public_key().0);
    assert_eq!(&kp.to_address().0[..], &digest.as_bytes()[..20]);
}

#[test]
fn it_can_verify_webauthn_signature_proofs() {
    let signature_proof = WebauthnSignatureProof {
        public_key: WebauthnPublicKey([
            2, 145, 87, 130, 102, 84, 114, 146, 139, 254, 114, 194, 134, 155, 187, 214, 188, 12,
            35, 147, 121, 213, 161, 80, 234, 94, 43, 25, 178, 5, 213, 54, 89,
        ]),
        merkle_path: Blake2bMerklePath::empty(),
        signature: Signature([
            7, 185, 23, 233, 88, 246, 250, 252, 173, 116, 122, 201, 94, 32, 221, 241, 172, 99, 252,
            93, 153, 191, 69, 22, 233, 2, 233, 69, 145, 100, 16, 132, 1, 94, 247, 237, 70, 3, 74,
            241, 133, 18, 116, 58, 13, 203, 199, 167, 134, 170, 226, 113, 16, 184, 203, 209, 204,
            232, 27, 6, 43, 216, 12, 110,
        ]),
        host: "localhost:3000".as_bytes().to_vec(),
        authenticator_data_suffix: vec![1, 101, 1, 154, 108],
        client_data_flags: WebauthnClientDataFlags { bits: 0 },
        client_data_extra_fields: "".as_bytes().to_vec(),
    };

    let tx_content = [
        0, 0, 154, 96, 106, 136, 176, 143, 11, 229, 208, 208, 107, 52, 170, 88, 232, 81, 173, 106,
        175, 10, 0, 0, 0, 0, 0, 0, 0, 0, 0, 0, 0, 0, 0, 0, 0, 0, 0, 0, 0, 0, 0, 0, 0, 0, 0, 0, 0,
        152, 150, 128, 0, 0, 0, 0, 0, 0, 0, 0, 0, 0, 0, 0, 5, 0, 0,
    ];
    assert!(signature_proof.verify(&tx_content));
    assert!(SignatureProof::ECDSA(signature_proof.clone()).verify(&tx_content));
    assert!(!signature_proof.verify(&tx_content[1..]));
}

#[test]
fn priority_prefers_lower_recipient_then_higher_fee() {
    let a = Transaction::new_basic(Address([1u8; 20]), Address([2u8; 20]), 5, 10, 0, NetworkId::Dummy);
    let b = Transaction::new_basic(Address([1u8; 20]), Address([3u8; 20]), 5, 10, 0, NetworkId::Dummy);
    assert_eq!(a.cmp(&b), std::cmp::Ordering::Less);
    assert_eq!(b.cmp(&a), std::cmp::Ordering::Greater);
    let c = Transaction::new_basic(Address([1u8; 20]), Address([2u8; 20]), 5, 20, 0, NetworkId::Dummy);
    assert_eq!(c.cmp(&a), std::cmp::Ordering::Less);
    let d = Transaction::new_basic(Address([1u8; 20]), Address([2u8; 20]), 5, 10, 0, NetworkId::Dummy);
    assert_eq!(a.cmp(&d), std::cmp::Ordering::Equal);
    let mut e = Transaction::new_basic(Address([1u8; 20]), Address([2u8; 20]), 5, 10, 0, NetworkId::Dummy);
    e.recipient_data = vec![1];
    assert_eq!(a.cmp(&e), std::cmp::Ordering::Less);
}

#[test]
fn signing_a_transaction_makes_it_verify() {
    let kp = key(9);
    let mut tx = Transaction::new_basic(kp.to_address(), Address([5u8; 20]), 10, 1, 0, NetworkId::UnitAlbatross);
    assert_eq!(tx.verify(NetworkId::UnitAlbatross), Err(TransactionError::InvalidSerialization));
    kp.sign_transaction(&mut tx);
    assert_eq!(tx.verify(NetworkId::UnitAlbatross), Ok(()));
}

#[test]
fn the_outcome_does_not_change_the_digest() {
    let a = Transaction::new_basic(Address([1u8; 20]), Address([2u8; 20]), 3, 0, 0, NetworkId::Dummy);
    let b = Transaction::new_basic(Address([1u8; 20]), Address([2u8; 20]), 3, 0, 0, NetworkId::Dummy);
    let ok = ExecutedTransaction::Succeeded(a);
    let failed = ExecutedTransaction::Failed(b);
    assert!(ok.succeeded() && !ok.failed());
    assert!(failed.failed() && !failed.succeeded());
    assert_eq!(ok.hash(), failed.hash());
    assert!(*ok.get_raw_transaction() == *failed.get_raw_transaction());
}

#[test]
fn webauthn_proofs_read_back_and_sign_transactions() {
    let proof = WebauthnSignatureProof {
        public_key: WebauthnPublicKey([2u8; 33]),
        merkle_path: Blake2bMerklePath {
            nodes: vec![MerklePathNode { left: true, hash: Blake2bHash([6u8; 32]) }],
        },
        signature: Signature([3u8; 64]),
        host: b"example.com".to_vec(),
        authenticator_data_suffix: vec![1, 2, 3],
        client_data_flags: WebauthnClientDataFlags { bits: 2 },
        client_data_extra_fields: b"\"a\":1".to_vec(),
    };
    let bytes = proof.serialize_to_vec();
    assert_eq!(bytes.len(), 33 + 1 + 33 + 64 + 1 + 4 + 11 + 4 + 3 + 4 + 5);
    let back = WebauthnSignatureProof::deserialize_from_vec(&bytes).unwrap();
    assert_eq!(back.serialize_to_vec(), bytes);
    assert_eq!(back.host, proof.host);
    assert!(WebauthnSignatureProof::deserialize_from_vec(&bytes[..bytes.len() - 1]).is_none());

    // A transaction whose proof is a WebAuthn proof is checked against that proof.
    let signer = proof.compute_signer();
    let mut tx = Transaction::new_basic(signer, Address([9u8; 20]), 5, 0, 0, NetworkId::UnitAlbatross);
    tx.proof = bytes;
    assert_eq!(tx.verify(NetworkId::UnitAlbatross), Err(TransactionError::InvalidProof));
    tx.proof.push(0);
    assert_eq!(tx.verify(NetworkId::UnitAlbatross), Err(TransactionError::InvalidSerialization));
}

#[test]
fn a_webauthn_signed_transaction_verifies() {
    let signing_key = p256::ecdsa::SigningKey::from_slice(&[7u8; 32]).unwrap();
    let point = signing_key.verifying_key().to_encoded_point(true);
    let mut public_key = [0u8; 33];
    public_key.copy_from_slice(point.as_bytes());
    let mut proof = WebauthnSignatureProof {
        public_key: WebauthnPublicKey(public_key),
        merkle_path: Blake2bMerklePath::empty(),
        signature: Signature([0u8; 64]),
        host: b"example.com".to_vec(),
        authenticator_data_suffix: vec![5, 0, 0, 0, 1],
        client_data_flags: WebauthnClientDataFlags { bits: 0 },
        client_data_extra_fields: vec![],
    };
    let sender = proof.compute_signer();
    let mut tx = Transaction::new_basic(sender, Address([9u8; 20]), 5, 0, 0, NetworkId::UnitAlbatross);

    let content = tx.serialize_content();
    let challenge = blake2b_simd::Params::new().hash_length(32).hash(&content);
    let json = format!(
        "{{\"type\":\"webauthn.get\",\"challenge\":\"{}\",\"origin\":\"https://example.com\",\"crossOrigin\":false}}",
        base64::engine::general_purpose::URL_SAFE_NO_PAD.encode(challenge.as_bytes())
    );
    let mut signed = sha2::Sha256::digest(b"example.com").to_vec();
    signed.extend_from_slice(&proof.authenticator_data_suffix);
    signed.extend_from_slice(&sha2::Sha256::digest(json.as_bytes()));
    let signature: p256::ecdsa::Signature = signing_key.sign(&signed);
    proof.signature = Signature(signature.to_bytes().into());

    assert!(proof.verify(&content));
    tx.proof = proof.serialize_to_vec();
    assert_eq!(tx.verify(NetworkId::UnitAlbatross), Ok(()));
    tx.value = 6;
    assert_eq!(tx.verify(NetworkId::UnitAlbatross), Err(TransactionError::InvalidProof));
}
