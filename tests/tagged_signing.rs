use albatross::keys::{KeyPair, PrivateKey};
use albatross::tagged_signing::{
    SerializedMessage, TaggedKeyPair, TaggedSignable, TaggedSignature, TaggedSigned,
};

type Message = SerializedMessage<0x01>;
type AnotherMessage = SerializedMessage<0x02>;

#[allow(non_snake_case)]
fn Message(v: u64) -> Message {
    SerializedMessage { data: v.to_be_bytes().to_vec() }
}

#[allow(non_snake_case)]
fn AnotherMessage(v: u64) -> AnotherMessage {
    SerializedMessage { data: v.to_be_bytes().to_vec() }
}

fn test_keypair() -> KeyPair {
    KeyPair::derive(&PrivateKey([7u8; 32]))
}

#[test]
fn it_signs_and_verifies() {
    let msg = Message(42);

    let keypair = test_keypair();

    let sig = keypair.tagged_sign(&msg);

    assert!(sig.tagged_verify(&msg, &keypair.public_key()));
}

#[test]
fn message_data_is_different() {
    let msg1 = Message(42);
    let msg2 = AnotherMessage(42);

    assert_eq!(msg1.serialize_to_vec(), msg2.serialize_to_vec());
    assert_ne!(msg1.message_data(), msg2.message_data());
}

#[test]
fn it_rejects_signatures_from_different_message_types() {
    let msg1 = Message(42);
    let msg2 = AnotherMessage(42);

    assert_eq!(msg1.serialize_to_vec(), msg2.serialize_to_vec());

    let keypair = test_keypair();

    let sig1 = keypair.tagged_sign(&msg1);
    let sig2 = keypair.tagged_sign(&msg2);

    assert!(sig1.tagged_verify(&msg1, &keypair.public_key()));
    assert!(sig2.tagged_verify(&msg2, &keypair.public_key()));

    assert_ne!(sig1.as_bytes(), sig2.as_bytes());

    let sig1_replayed =
        TaggedSignature::<AnotherMessage, KeyPair>::from_bytes(sig1.as_bytes().to_vec());
    let sig2_replayed = TaggedSignature::<Message, KeyPair>::from_bytes(sig2.as_bytes().to_vec());

    assert!(!sig2_replayed.tagged_verify(&msg1, &keypair.public_key()));
    assert!(!sig1_replayed.tagged_verify(&msg2, &keypair.public_key()));
}

#[test]
fn message_data_starts_with_the_tag() {
    assert_eq!(Message(1).message_data(), vec![1, 0, 0, 0, 0, 0, 0, 0, 1]);
    assert_eq!(AnotherMessage(2).message_data(), vec![2, 0, 0, 0, 0, 0, 0, 0, 2]);
}

#[test]
fn signed_records_verify_and_report_their_tag() {
    let keypair = test_keypair();
    let msg = Message(9);
    let signature = keypair.tagged_sign(&msg);
    let signed = TaggedSigned::<Message, KeyPair>::new(msg, signature);
    assert!(signed.verify(&keypair.public_key()));
    assert_eq!(signed.get_tag(), 1);

    let other = KeyPair::derive(&PrivateKey([8u8; 32]));
    assert!(!signed.verify(&other.public_key()));
}

#[test]
fn peek_tag_reads_the_first_byte() {
    assert_eq!(TaggedSigned::<Message, KeyPair>::peek_tag(&[3, 1, 2]), Some(3));
    assert_eq!(TaggedSigned::<Message, KeyPair>::peek_tag(&[]), None);
}

#[test]
fn a_serialized_signed_record_starts_with_its_tag() {
    let keypair = test_keypair();
    let msg = AnotherMessage(5);
    let signature = keypair.tagged_sign(&msg);
    let signed = TaggedSigned::<AnotherMessage, KeyPair>::new(msg, signature);
    let bytes = signed.serialize_to_vec();
    assert_eq!(bytes.len(), 1 + 4 + 8 + 4 + 64);
    assert_eq!(TaggedSigned::<AnotherMessage, KeyPair>::peek_tag(&bytes), Some(2));
    assert_eq!(&bytes[1..5], &8u32.to_le_bytes());
    assert_eq!(&bytes[13..17], &64u32.to_le_bytes());
    assert_eq!(&bytes[17..], signed.signature.as_bytes());

    let back = TaggedSigned::<AnotherMessage, KeyPair>::deserialize_from_vec(&bytes).unwrap();
    assert_eq!(back.record.data, signed.record.data);
    assert_eq!(back.signature.as_bytes(), signed.signature.as_bytes());
    assert!(back.verify(&keypair.public_key()));

    // Another type's tag, or a broken frame, reads back as nothing.
    assert!(TaggedSigned::<Message, KeyPair>::deserialize_from_vec(&bytes).is_none());
    assert!(TaggedSigned::<AnotherMessage, KeyPair>::deserialize_from_vec(&bytes[..bytes.len() - 1]).is_none());
}
