//! Typed signatures over domain-tagged messages: every signed payload is prefixed with a
//! one-byte tag of its type, so that a signature of one message type never verifies a message
//! of another, even when both serialize to the same bytes.

use std::marker::PhantomData;
use vstd::prelude::*;

use crate::codec::{le32_at, lemma_le32_round_trip, push_bytes, push_u32_le, read_u32_le, read_vec, u32_le};
use crate::keys::{ed25519_signature_of, ed25519_verifies, KeyPair, PublicKey};

verus! {

/// A message type that can be signed. Each type picks a unique tag, which is signed as the
/// first byte of the message:
///
///  - `0x01`: challenge nonce
///  - `0x02`: peer contact
///  - `0x03`: validator record
pub trait TaggedSignable: Sized {
    /// The tag of this message type.
    spec fn tag_of() -> u8;

    /// The serialization of a message.
    spec fn serialized(&self) -> Seq<u8>;

    /// The tag of this message type.
    fn tag() -> (r: u8)
        ensures
            r == Self::tag_of(),
    ;

    /// Serializes the message.
    fn serialize_to_vec(&self) -> (r: Vec<u8>)
        ensures
            r@ == self.serialized(),
    ;

    /// Reads a message from its serialization; `None` when the bytes serialize no message.
    fn deserialize_from_vec(bytes: &[u8]) -> (r: Option<Self>)
        ensures
            match r {
                Some(m) => m.serialized() == bytes@,
                None => forall|m: Self| #[trigger] m.serialized() != bytes@,
            },
    ;

    /// The bytes that are signed: the tag followed by the serialized message.
    fn message_data(&self) -> (r: Vec<u8>)
        ensures
            r@ == tagged_bytes(Self::tag_of(), self.serialized()),
    {
        let mut buf: Vec<u8> = Vec::new();
        buf.push(Self::tag());
        let mut body = self.serialize_to_vec();
        buf.append(&mut body);
        buf
    }
}

/// A message that is already serialized, signed under the tag `TAG`.
#[derive(Clone, Debug)]
pub struct SerializedMessage<const TAG: u8> {
    pub data: Vec<u8>,
}

impl<const TAG: u8> TaggedSignable for SerializedMessage<TAG> {
    open spec fn tag_of() -> u8 {
        TAG
    }

    open spec fn serialized(&self) -> Seq<u8> {
        self.data@
    }

    fn tag() -> (r: u8) {
        TAG
    }

    fn serialize_to_vec(&self) -> (r: Vec<u8>) {
        let mut out: Vec<u8> = Vec::new();
        push_bytes(&mut out, self.data.as_slice());
        out
    }

    fn deserialize_from_vec(bytes: &[u8]) -> (r: Option<Self>) {
        let mut data: Vec<u8> = Vec::new();
        push_bytes(&mut data, bytes);
        Some(SerializedMessage { data })
    }
}

/// A message prefixed with its tag.
pub open spec fn tagged_bytes(tag: u8, serialized: Seq<u8>) -> Seq<u8> {
    seq![tag] + serialized
}

/// A public key of a signature scheme.
pub trait TaggedPublicKey: Sized {
    /// Whether `sig` is a valid signature of `msg` under this key.
    spec fn verifies(&self, msg: Seq<u8>, sig: Seq<u8>) -> bool;

    /// Checks a signature of raw bytes.
    fn verify(&self, msg: &[u8], sig: &[u8]) -> (r: bool)
        ensures
            r == self.verifies(msg@, sig@),
    ;
}

/// A key pair of a signature scheme.
pub trait TaggedKeyPair: Sized {
    type PublicKey: TaggedPublicKey;

    /// The signature this key pair gives to raw bytes.
    spec fn signature_of(&self, message: Seq<u8>) -> Seq<u8>;

    /// Signs raw bytes.
    fn sign(&self, message: &[u8]) -> (r: Vec<u8>)
        ensures
            r@ == self.signature_of(message@),
    ;

    /// Signs a tagged message.
    fn tagged_sign<TSignable: TaggedSignable>(&self, message: &TSignable) -> (r: TaggedSignature<
        TSignable,
        Self,
    >)
        ensures
            r@ == self.signature_of(tagged_bytes(TSignable::tag_of(), message.serialized())),
    {
        let data = message.message_data();
        TaggedSignature::from_bytes(self.sign(data.as_slice()))
    }
}

/// A signature of a message of type `TSignable` under the scheme `TScheme`.
pub struct TaggedSignature<TSignable, TScheme> {
    signature: Vec<u8>,
    _tagged: PhantomData<TSignable>,
    _scheme: PhantomData<TScheme>,
}

impl<TSignable, TScheme> View for TaggedSignature<TSignable, TScheme> {
    type V = Seq<u8>;

    closed spec fn view(&self) -> Seq<u8> {
        self.signature@
    }
}

impl<TSignable, TScheme> TaggedSignature<TSignable, TScheme> {
    /// Wraps the raw bytes of a signature.
    pub fn from_bytes(signature: Vec<u8>) -> (r: Self)
        ensures
            r@ == signature@,
    {
        TaggedSignature { signature, _tagged: PhantomData, _scheme: PhantomData }
    }

    /// The raw bytes of the signature.
    pub fn as_bytes(&self) -> (r: &[u8])
        ensures
            r@ == self@,
    {
        self.signature.as_slice()
    }
}

impl<TSignable: TaggedSignable, TScheme: TaggedKeyPair> TaggedSignature<TSignable, TScheme> {
    /// Whether this is a valid signature of the tagged `message` under `public_key`.
    pub fn tagged_verify(&self, message: &TSignable, public_key: &TScheme::PublicKey) -> (r: bool)
        ensures
            r == public_key.verifies(
                tagged_bytes(TSignable::tag_of(), message.serialized()),
                self@,
            ),
    {
        let data = message.message_data();
        public_key.verify(data.as_slice(), self.signature.as_slice())
    }
}

/// A record together with its tagged signature.
pub struct TaggedSigned<TSignable, TScheme> {
    pub record: TSignable,
    pub signature: TaggedSignature<TSignable, TScheme>,
}

impl<TSignable: TaggedSignable, TScheme: TaggedKeyPair> TaggedSigned<TSignable, TScheme> {
    /// Bundles a record with its signature.
    pub fn new(record: TSignable, signature: TaggedSignature<TSignable, TScheme>) -> (r: Self)
        ensures
            r.record == record,
            r.signature@ == signature@,
    {
        TaggedSigned { record, signature }
    }

    /// Verifies the signature of the record.
    pub fn verify(&self, public_key: &TScheme::PublicKey) -> (r: bool)
        ensures
            r == public_key.verifies(
                tagged_bytes(TSignable::tag_of(), self.record.serialized()),
                self.signature@,
            ),
    {
        let data = self.record.message_data();
        public_key.verify(data.as_slice(), self.signature.as_bytes())
    }

    /// The tag of the record's type.
    pub fn get_tag(&self) -> (r: u8)
        ensures
            r == TSignable::tag_of(),
    {
        TSignable::tag()
    }

    /// The serialization of a signed record: the tag, then the serialized record and the
    /// signature, each with its four-byte little-endian length.
    pub open spec fn serialized_signed(&self) -> Seq<u8> {
        signed_frame(TSignable::tag_of(), self.record.serialized(), self.signature@)
    }

    /// Serializes the signed record.
    pub fn serialize_to_vec(&self) -> (r: Vec<u8>)
        requires
            self.record.serialized().len() <= u32::MAX,
            self.signature@.len() <= u32::MAX,
        ensures
            r@ == self.serialized_signed(),
    {
        let mut out: Vec<u8> = Vec::new();
        out.push(TSignable::tag());
        let record = self.record.serialize_to_vec();
        push_u32_le(&mut out, record.len() as u32);
        push_bytes(&mut out, record.as_slice());
        let signature = self.signature.as_bytes();
        push_u32_le(&mut out, signature.len() as u32);
        push_bytes(&mut out, signature);
        assert(out@ =~= self.serialized_signed());
        out
    }

    /// Reads a signed record from its serialization; `None` when the bytes are no frame, carry
    /// another type's tag, or hold no record of this type.
    pub fn deserialize_from_vec(bytes: &[u8]) -> (r: Option<Self>)
        ensures
            match r {
                Some(x) => parse_signed_frame(bytes@) == Some(
                    (TSignable::tag_of(), x.record.serialized(), x.signature@),
                ),
                None => match parse_signed_frame(bytes@) {
                    None => true,
                    Some(f) => f.0 != TSignable::tag_of() || forall|m: TSignable|
                        #[trigger] m.serialized() != f.1,
                },
            },
    {
        let len = bytes.len();
        if len < 5 {
            return None;
        }
        let l1 = read_u32_le(bytes, 1) as u64;
        let o = 5 + l1;
        if (len as u64) < o + 4 {
            return None;
        }
        let o = o as usize;
        let l2 = read_u32_le(bytes, o) as u64;
        if len as u64 != o as u64 + 4 + l2 {
            return None;
        }
        if bytes[0] != TSignable::tag() {
            return None;
        }
        let record_bytes = read_vec(bytes, 5, o - 5);
        let record = match TSignable::deserialize_from_vec(record_bytes.as_slice()) {
            Some(m) => m,
            None => return None,
        };
        let signature = read_vec(bytes, o + 4, len - (o + 4));
        Some(TaggedSigned { record, signature: TaggedSignature::from_bytes(signature) })
    }

    /// Reads the tag of a serialized tagged record: its first byte, if there is one.
    pub fn peek_tag(buffer: &[u8]) -> (r: Option<u8>)
        ensures
            buffer@.len() == 0 ==> r.is_none(),
            buffer@.len() > 0 ==> r == Some(buffer@[0]),
    {
        if buffer.len() == 0 {
            None
        } else {
            Some(buffer[0])
        }
    }
}

impl TaggedPublicKey for PublicKey {
    open spec fn verifies(&self, msg: Seq<u8>, sig: Seq<u8>) -> bool {
        sig.len() == 64 && ed25519_verifies(self@, sig, msg)
    }

    fn verify(&self, msg: &[u8], sig: &[u8]) -> (r: bool) {
        if sig.len() != 64 {
            return false;
        }
        let mut bytes = [0u8; 64];
        let mut i: usize = 0;
        while i < 64
            invariant
                0 <= i <= 64,
                sig@.len() == 64,
                bytes@.len() == 64,
                forall|j: int| 0 <= j < i ==> bytes@[j] == sig@[j],
            decreases 64 - i,
        {
            bytes[i] = sig[i];
            i += 1;
        }
        assert(bytes@ =~= sig@);
        PublicKey::verify(self, &crate::keys::Signature(bytes), msg)
    }
}

impl TaggedKeyPair for KeyPair {
    type PublicKey = PublicKey;

    open spec fn signature_of(&self, message: Seq<u8>) -> Seq<u8> {
        ed25519_signature_of(self.private@, message)
    }

    fn sign(&self, message: &[u8]) -> (r: Vec<u8>) {
        let signature = KeyPair::sign(self, message);
        let mut out: Vec<u8> = Vec::new();
        let mut i: usize = 0;
        while i < 64
            invariant
                0 <= i <= 64,
                signature@.len() == 64,
                out@ == signature@.subrange(0, i as int),
            decreases 64 - i,
        {
            out.push(signature.0[i]);
            i += 1;
            assert(out@ =~= signature@.subrange(0, i as int));
        }
        assert(signature@.subrange(0, 64) =~= signature@);
        out
    }
}

/// A tag, a record and a signature, the last two with their four-byte lengths.
pub open spec fn signed_frame(tag: u8, record: Seq<u8>, signature: Seq<u8>) -> Seq<u8> {
    seq![tag] + u32_le(record.len() as u32) + record + u32_le(signature.len() as u32) + signature
}

/// The tag, record bytes and signature that a byte string frames, if any.
pub open spec fn parse_signed_frame(b: Seq<u8>) -> Option<(u8, Seq<u8>, Seq<u8>)> {
    if b.len() < 5 {
        None
    } else {
        let o = 5 + le32_at(b, 1) as int;
        if b.len() >= o + 4 && b.len() == o + 4 + le32_at(b, o) as int {
            Some((b[0], b.subrange(5, o), b.subrange(o + 4, b.len() as int)))
        } else {
            None
        }
    }
}

/// Reading back a serialized signed record gives its tag, record and signature.
pub proof fn lemma_signed_frame_round_trip(tag: u8, record: Seq<u8>, signature: Seq<u8>)
    requires
        record.len() <= u32::MAX,
        signature.len() <= u32::MAX,
    ensures
        parse_signed_frame(signed_frame(tag, record, signature)) == Some((tag, record, signature)),
{
    let b = signed_frame(tag, record, signature);
    let o = 5 + record.len() as int;
    assert(b.subrange(1, 5) =~= u32_le(record.len() as u32));
    lemma_le32_round_trip(b, 1, record.len() as u32);
    assert(b.subrange(o, o + 4) =~= u32_le(signature.len() as u32));
    lemma_le32_round_trip(b, o, signature.len() as u32);
    assert(b.subrange(5, o) =~= record);
    assert(b.subrange(o + 4, b.len() as int) =~= signature);
}

/// The tag read from a serialized signed record is the tag of its record's type.
pub proof fn lemma_peek_serialized_tag<TSignable: TaggedSignable, TScheme: TaggedKeyPair>(
    signed: &TaggedSigned<TSignable, TScheme>,
)
    ensures
        signed.serialized_signed().len() > 0,
        signed.serialized_signed()[0] == TSignable::tag_of(),
{
}

} // verus!
