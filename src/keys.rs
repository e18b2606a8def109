//! Ed25519 keys, signatures and addresses.

use ed25519_dalek::Signer;
use ed25519_dalek::Verifier;
use vstd::prelude::*;

use crate::primitives::{blake2b, blake2b_of, bytes_equal, Address};

verus! {

/// The Ed25519 public key that a 32-byte secret key derives.
pub uninterp spec fn ed25519_public_of(secret: Seq<u8>) -> Seq<u8>;

/// The Ed25519 signature of a message under a 32-byte secret key.
pub uninterp spec fn ed25519_signature_of(secret: Seq<u8>, message: Seq<u8>) -> Seq<u8>;

/// Whether a 64-byte signature is a valid Ed25519 signature of a message under a public key.
pub uninterp spec fn ed25519_verifies(public_key: Seq<u8>, signature: Seq<u8>, message: Seq<u8>) -> bool;

/// Relies on `ed25519_dalek::SigningKey::verifying_key`: the public key derived from a
/// secret key, a function of the secret alone.
#[verifier::external_body]
fn derive_public_key(secret: &[u8; 32]) -> (r: [u8; 32])
    ensures
        r@ == ed25519_public_of(secret@),
{
    ed25519_dalek::SigningKey::from_bytes(secret).verifying_key().to_bytes()
}

/// Relies on `ed25519_dalek::SigningKey::sign`: Ed25519 signing is deterministic, so the
/// signature depends on the secret key and the message alone.
#[verifier::external_body]
fn sign_bytes(secret: &[u8; 32], message: &[u8]) -> (r: [u8; 64])
    ensures
        r@ == ed25519_signature_of(secret@, message@),
{
    ed25519_dalek::SigningKey::from_bytes(secret).sign(message).to_bytes()
}

/// Relies on `ed25519_dalek::VerifyingKey::verify`: whether the signature is valid for the
/// message under the key; bytes that are no valid curve point verify nothing.
#[verifier::external_body]
fn verify_bytes(public_key: &[u8; 32], signature: &[u8; 64], message: &[u8]) -> (r: bool)
    ensures
        r == ed25519_verifies(public_key@, signature@, message@),
{
    match ed25519_dalek::VerifyingKey::from_bytes(public_key) {
        Ok(key) => key.verify(message, &ed25519_dalek::Signature::from_bytes(signature)).is_ok(),
        Err(_) => false,
    }
}

/// Relies on `rand::random`: 32 bytes from the thread-local generator, nothing known of them.
#[verifier::external_body]
fn random_secret() -> (r: [u8; 32]) {
    rand::random::<[u8; 32]>()
}

/// An Ed25519 secret key.
#[derive(Clone, Copy, Debug)]
pub struct PrivateKey(pub [u8; 32]);

impl View for PrivateKey {
    type V = Seq<u8>;

    open spec fn view(&self) -> Seq<u8> {
        self.0@
    }
}

impl PrivateKey {
    pub const SIZE: usize = 32;

    /// A fresh secret key from the operating system's randomness.
    pub fn generate() -> (r: PrivateKey) {
        PrivateKey(random_secret())
    }

    /// The 32 bytes of the key.
    pub fn as_bytes(&self) -> (r: &[u8; 32])
        ensures
            r@ == self@,
    {
        &self.0
    }
}

impl PartialEq for PrivateKey {
    fn eq(&self, other: &PrivateKey) -> (r: bool) {
        bytes_equal(&self.0, &other.0)
    }
}

impl vstd::std_specs::cmp::PartialEqSpecImpl for PrivateKey {
    open spec fn obeys_eq_spec() -> bool {
        true
    }

    open spec fn eq_spec(&self, other: &PrivateKey) -> bool {
        self@ == other@
    }
}

/// An Ed25519 public key.
#[derive(Clone, Copy, Debug)]
pub struct PublicKey(pub [u8; 32]);

impl View for PublicKey {
    type V = Seq<u8>;

    open spec fn view(&self) -> Seq<u8> {
        self.0@
    }
}

impl PartialEq for PublicKey {
    fn eq(&self, other: &PublicKey) -> (r: bool) {
        bytes_equal(&self.0, &other.0)
    }
}

impl vstd::std_specs::cmp::PartialEqSpecImpl for PublicKey {
    open spec fn obeys_eq_spec() -> bool {
        true
    }

    open spec fn eq_spec(&self, other: &PublicKey) -> bool {
        self@ == other@
    }
}

/// The address of an account owned by a public key: the first 20 bytes of the key's digest.
pub open spec fn address_of(public_key: Seq<u8>) -> Seq<u8> {
    Address::of_digest(blake2b_of(public_key))
}

impl PublicKey {
    /// Whether `signature` is a valid signature of `message` under this key.
    pub fn verify(&self, signature: &Signature, message: &[u8]) -> (r: bool)
        ensures
            r == ed25519_verifies(self@, signature@, message@),
    {
        verify_bytes(&self.0, &signature.0, message)
    }

    /// The address of the account that this key owns.
    pub fn to_address(&self) -> (r: Address)
        ensures
            r@ == address_of(self@),
    {
        Address::from_hash(&blake2b(&self.0))
    }
}

/// A 64-byte Ed25519 signature.
#[derive(Clone, Copy, Debug)]
pub struct Signature(pub [u8; 64]);

impl View for Signature {
    type V = Seq<u8>;

    open spec fn view(&self) -> Seq<u8> {
        self.0@
    }
}

/// A secret key together with the public key it derives.
#[derive(Clone, Copy, Debug)]
pub struct KeyPair {
    pub private: PrivateKey,
    pub public: PublicKey,
}

impl KeyPair {
    /// Whether the public key is the one the secret key derives.
    pub open spec fn wf(&self) -> bool {
        self.public@ == ed25519_public_of(self.private@)
    }

    /// A fresh key pair from the operating system's randomness.
    pub fn generate() -> (r: KeyPair)
        ensures
            r.wf(),
    {
        Self::derive(&PrivateKey::generate())
    }

    /// The key pair of an existing secret key.
    pub fn derive(private_key: &PrivateKey) -> (r: KeyPair)
        ensures
            r.wf(),
            r.private@ == private_key@,
    {
        KeyPair { private: *private_key, public: PublicKey(derive_public_key(&private_key.0)) }
    }

    /// Signs arbitrary data.
    pub fn sign(&self, data: &[u8]) -> (r: Signature)
        ensures
            r@ == ed25519_signature_of(self.private@, data@),
    {
        Signature(sign_bytes(&self.private.0, data))
    }

    /// The key pair's secret key.
    pub fn private_key(&self) -> (r: PrivateKey)
        ensures
            r == self.private,
    {
        self.private
    }

    /// The key pair's public key.
    pub fn public_key(&self) -> (r: PublicKey)
        ensures
            r == self.public,
    {
        self.public
    }

    /// The address of the account that this key pair owns.
    pub fn to_address(&self) -> (r: Address)
        ensures
            r@ == address_of(self.public@),
    {
        self.public.to_address()
    }
}

} // verus!
