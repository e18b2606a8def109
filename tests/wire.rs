use albatross::keys::{KeyPair, PrivateKey};
use albatross::primitives::{AccountType, Address, NetworkId};
use albatross::signature_proof::EdDSASignatureProof;
use albatross::transaction::{Transaction, TransactionFlags};

fn signed_basic() -> Transaction {
    let kp = KeyPair::derive(&PrivateKey([6u8; 32]));
    let mut tx = Transaction::new_basic(kp.to_address(), Address([3u8; 20]), 500, 2, 77, NetworkId::UnitAlbatross);
    let signature = kp.sign(&tx.serialize_content());
    tx.proof = EdDSASignatureProof::from(kp.public_key(), signature).serialize_to_vec();
    tx
}

#[test]
fn basic_transactions_take_the_minimum_size_and_read_back() {
    let tx = signed_basic();
    let bytes = tx.serialize_to_vec();
    assert_eq!(bytes.len(), Transaction::MIN_SIZE);
    assert_eq!(bytes[0], 0);
    assert_eq!(&bytes[53..61], &500u64.to_le_bytes());
    let back = Transaction::deserialize_from_vec(&bytes).unwrap();
    assert!(back == tx);
    assert_eq!(back.proof, tx.proof);
    assert_eq!(back.sender, tx.sender);
    assert!(!back.valid);
    assert_eq!(back.verify(NetworkId::UnitAlbatross), Ok(()));
}

#[test]
fn extended_transactions_read_back() {
    let mut tx = Transaction::new_extended(
        Address([1u8; 20]),
        AccountType::Vesting,
        vec![1, 2, 3],
        Address([2u8; 20]),
        AccountType::Staking,
        vec![4, 5],
        9,
        1,
        1000,
        NetworkId::TestAlbatross,
    );
    tx.flags = TransactionFlags { bits: 2 };
    tx.proof = vec![7, 7, 7, 7];
    let bytes = tx.serialize_to_vec();
    assert_eq!(bytes[0], 1);
    assert_eq!(bytes.len(), 1 + 20 + 1 + 4 + 3 + 20 + 1 + 4 + 2 + 8 + 8 + 4 + 1 + 1 + 4 + 4);
    let back = Transaction::deserialize_from_vec(&bytes).unwrap();
    assert!(back == tx);
    assert_eq!(back.proof, tx.proof);
    assert_eq!(back.flags, tx.flags);
    assert_eq!(back.serialize_to_vec(), bytes);
}

#[test]
fn malformed_bytes_carry_no_transaction() {
    let tx = signed_basic();
    let bytes = tx.serialize_to_vec();
    assert!(Transaction::deserialize_from_vec(&[]).is_none());
    assert!(Transaction::deserialize_from_vec(&bytes[..137]).is_none());
    let mut bad_network = bytes.clone();
    bad_network[73] = 99;
    assert!(Transaction::deserialize_from_vec(&bad_network).is_none());
    let mut bad_tag = bytes.clone();
    bad_tag[0] = 2;
    assert!(Transaction::deserialize_from_vec(&bad_tag).is_none());

    let ext = Transaction::new_extended(
        Address([1u8; 20]),
        AccountType::Basic,
        vec![],
        Address([2u8; 20]),
        AccountType::HTLC,
        vec![1],
        1,
        0,
        0,
        NetworkId::Dummy,
    );
    let ext_bytes = ext.serialize_to_vec();
    let mut longer = ext_bytes.clone();
    longer.push(0);
    assert!(Transaction::deserialize_from_vec(&longer).is_none());
    let mut bad_flags = ext_bytes.clone();
    let at = ext_bytes.len() - 5;
    bad_flags[at] = 8;
    assert!(Transaction::deserialize_from_vec(&bad_flags).is_none());
    let mut bad_kind = ext_bytes.clone();
    bad_kind[21] = 4;
    assert!(Transaction::deserialize_from_vec(&bad_kind).is_none());
    assert!(Transaction::deserialize_from_vec(&ext_bytes).is_some());
}

#[test]
fn equality_ignores_the_proof() {
    let a = signed_basic();
    let mut b = Transaction::deserialize_from_vec(&a.serialize_to_vec()).unwrap();
    b.proof = vec![];
    assert!(a == b);
    b.fee = 3;
    assert!(a != b);
}
