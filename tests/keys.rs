use albatross::keys::{KeyPair, PrivateKey};

#[test]
fn signatures_verify_under_their_key_only() {
    let kp = KeyPair::derive(&PrivateKey([1u8; 32]));
    let other = KeyPair::derive(&PrivateKey([2u8; 32]));
    let sig = kp.sign(b"hello");
    assert!(kp.public_key().verify(&sig, b"hello"));
    assert!(!kp.public_key().verify(&sig, b"hellp"));
    assert!(!other.public_key().verify(&sig, b"hello"));
    assert_eq!(kp.private_key().as_bytes(), &[1u8; 32]);
}

#[test]
fn the_public_key_is_the_one_ed25519_derives() {
    let kp = KeyPair::derive(&PrivateKey([9u8; 32]));
    let expected = ed25519_dalek::SigningKey::from_bytes(&[9u8; 32]).verifying_key().to_bytes();
    assert_eq!(kp.public_key().0, expected);
    assert_ne!(kp.to_address().0.to_vec(), expected[..20].to_vec());
}

#[test]
fn generated_keys_differ() {
    let a = KeyPair::generate();
    let b = KeyPair::generate();
    assert_ne!(a.private_key(), b.private_key());
}
