//! The wire format of transactions. A transaction in the basic format travels as its signer's
//! key, recipient, value, fee, validity start height, network and signature (138 bytes); any
//! other as all of its fields, with each byte string prefixed by its length. Integers are
//! little-endian.

use vstd::prelude::*;

use crate::codec::{
    le32_at, le64_at, lemma_le32_round_trip, lemma_le64_round_trip, push_bytes, push_u32_le,
    push_u64_le, read_array, read_u32_le, read_u64_le, read_vec, u32_le, u64_le,
};
use crate::keys::{address_of, PublicKey, Signature};
use crate::primitives::{AccountType, Address, NetworkId};
use crate::signature_proof::{parse_proof, proof_bytes, EdDSASignatureProof, NodeView};
use crate::transaction::{Transaction, TransactionFlags};

verus! {

/// The fields of a transaction that travel on the wire, as plain values.
pub struct TxFields {
    pub sender: Seq<u8>,
    pub sender_type: AccountType,
    pub sender_data: Seq<u8>,
    pub recipient: Seq<u8>,
    pub recipient_type: AccountType,
    pub recipient_data: Seq<u8>,
    pub value: u64,
    pub fee: u64,
    pub validity_start_height: u32,
    pub network_id: NetworkId,
    pub flags: u8,
    pub proof: Seq<u8>,
}

impl Transaction {
    /// The fields of the transaction that travel on the wire.
    pub open spec fn fields(&self) -> TxFields {
        TxFields {
            sender: self.sender@,
            sender_type: self.sender_type,
            sender_data: self.sender_data@,
            recipient: self.recipient@,
            recipient_type: self.recipient_type,
            recipient_data: self.recipient_data@,
            value: self.value,
            fee: self.fee,
            validity_start_height: self.validity_start_height,
            network_id: self.network_id,
            flags: self.flags.bits,
            proof: self.proof@,
        }
    }

    /// Whether the transaction can travel: defined flags, and byte strings whose lengths fit
    /// their four-byte prefix.
    pub open spec fn wire_ok(&self) -> bool {
        &&& self.flags.bits <= 3
        &&& self.sender_data@.len() <= u32::MAX
        &&& self.recipient_data@.len() <= u32::MAX
        &&& self.proof@.len() <= u32::MAX
    }

    /// The bytes of the transaction in the basic format.
    pub open spec fn basic_wire(&self) -> Seq<u8> {
        let p = parse_proof(self.proof@).unwrap();
        seq![0u8] + p.0 + self.recipient@ + u64_le(self.value) + u64_le(self.fee) + u32_le(
            self.validity_start_height,
        ) + seq![self.network_id.code()] + p.2
    }

    /// The sender part of the extended format: tag, sender, its kind and its data.
    pub open spec fn extended_head(&self) -> Seq<u8> {
        seq![1u8] + self.sender@ + seq![self.sender_type.code()] + u32_le(
            self.sender_data@.len() as u32,
        ) + self.sender_data@
    }

    /// The recipient part of the extended format: recipient, its kind and its data.
    pub open spec fn extended_middle(&self) -> Seq<u8> {
        self.recipient@ + seq![self.recipient_type.code()] + u32_le(
            self.recipient_data@.len() as u32,
        ) + self.recipient_data@
    }

    /// The rest of the extended format: value, fee, validity start height, network, flags
    /// and proof.
    pub open spec fn extended_tail(&self) -> Seq<u8> {
        u64_le(self.value) + u64_le(self.fee) + u32_le(self.validity_start_height) + seq![
            self.network_id.code(),
        ] + seq![self.flags.bits] + u32_le(self.proof@.len() as u32) + self.proof@
    }

    /// The bytes of the transaction in the extended format.
    pub open spec fn extended_wire(&self) -> Seq<u8> {
        self.extended_head() + self.extended_middle() + self.extended_tail()
    }

    /// The bytes of the transaction on the wire, in its format.
    pub open spec fn wire(&self) -> Seq<u8> {
        if self.is_basic_format() {
            self.basic_wire()
        } else {
            self.extended_wire()
        }
    }
}

impl Transaction {
    /// The size in bytes of the smallest transaction: a basic one.
    pub const MIN_SIZE: usize = 138;

    /// Serializes the transaction in its format.
    pub fn serialize_to_vec(&self) -> (r: Vec<u8>)
        requires
            self.wire_ok(),
        ensures
            r@ == self.wire(),
    {
        let mut out: Vec<u8> = Vec::new();
        if self.format() == crate::transaction::TransactionFormat::Basic {
            let proof = match EdDSASignatureProof::deserialize_from_vec(self.proof.as_slice()) {
                Some(p) => p,
                None => {
                    proof {
                        assert(false);
                    }
                    return out;
                },
            };
            out.push(0u8);
            push_bytes(&mut out, &proof.public_key.0);
            push_bytes(&mut out, &self.recipient.0);
            push_u64_le(&mut out, self.value);
            push_u64_le(&mut out, self.fee);
            push_u32_le(&mut out, self.validity_start_height);
            out.push(self.network_id.to_u8());
            push_bytes(&mut out, &proof.signature.0);
            assert(out@ =~= self.basic_wire());
        } else {
            out.push(1u8);
            push_bytes(&mut out, &self.sender.0);
            out.push(self.sender_type.to_u8());
            push_u32_le(&mut out, self.sender_data.len() as u32);
            push_bytes(&mut out, self.sender_data.as_slice());
            let ghost head = out@;
            assert(head =~= self.extended_head());
            push_bytes(&mut out, &self.recipient.0);
            out.push(self.recipient_type.to_u8());
            push_u32_le(&mut out, self.recipient_data.len() as u32);
            push_bytes(&mut out, self.recipient_data.as_slice());
            let ghost mid = out@;
            assert(mid =~= head + self.extended_middle());
            push_u64_le(&mut out, self.value);
            push_u64_le(&mut out, self.fee);
            push_u32_le(&mut out, self.validity_start_height);
            out.push(self.network_id.to_u8());
            out.push(self.flags.bits);
            push_u32_le(&mut out, self.proof.len() as u32);
            push_bytes(&mut out, self.proof.as_slice());
            assert(out@ =~= mid + self.extended_tail());
        }
        out
    }

    /// Reads a transaction from the wire; `None` when the bytes carry none. The transaction
    /// read is not marked verified.
    pub fn deserialize_from_vec(bytes: &[u8]) -> (r: Option<Transaction>)
        ensures
            match r {
                Some(t) => parse_wire(bytes@) == Some(t.fields()) && !t.valid,
                None => parse_wire(bytes@) is None,
            },
    {
        let len = bytes.len();
        if len == 138 && bytes[0] == 0 {
            let network_id = match NetworkId::from_u8(bytes[73]) {
                Some(n) => n,
                None => return None,
            };
            let public_key = PublicKey(read_array(bytes, 1));
            let recipient = Address(read_array(bytes, 33));
            let value = read_u64_le(bytes, 53);
            let fee = read_u64_le(bytes, 61);
            let validity_start_height = read_u32_le(bytes, 69);
            let signature = Signature(read_array(bytes, 74));
            let sender = public_key.to_address();
            let single = EdDSASignatureProof::from(public_key, signature);
            proof {
                assert forall|i: int| 0 <= i < single@.1.len() implies (#[trigger] single@.1[i]).1.len()
                    == 32 by {}
            }
            let proof = single.serialize_to_vec();
            let mut tx = Transaction::new_basic(sender, recipient, value, fee, validity_start_height, network_id);
            tx.proof = proof;
            proof {
                assert(tx.sender_data@ =~= Seq::<u8>::empty());
                assert(tx.recipient_data@ =~= Seq::<u8>::empty());
                assert(tx.fields() == parse_wire(bytes@).unwrap());
            }
            return Some(tx);
        }
        if len < 26 || bytes[0] != 1 {
            return None;
        }
        let l1 = read_u32_le(bytes, 22) as u64;
        let o2 = 26 + l1;
        if (len as u64) < o2 + 25 {
            return None;
        }
        let o2 = o2 as usize;
        let l2 = read_u32_le(bytes, o2 + 21) as u64;
        let o3 = o2 as u64 + 25 + l2;
        if (len as u64) < o3 + 26 {
            return None;
        }
        let o3 = o3 as usize;
        let l3 = read_u32_le(bytes, o3 + 22) as u64;
        if len as u64 != o3 as u64 + 26 + l3 {
            return None;
        }
        let sender_type = match AccountType::from_u8(bytes[21]) {
            Some(t) => t,
            None => return None,
        };
        let recipient_type = match AccountType::from_u8(bytes[o2 + 20]) {
            Some(t) => t,
            None => return None,
        };
        let network_id = match NetworkId::from_u8(bytes[o3 + 20]) {
            Some(n) => n,
            None => return None,
        };
        let flags = bytes[o3 + 21];
        if flags > 3 {
            return None;
        }
        let sender = Address(read_array(bytes, 1));
        let sender_data = read_vec(bytes, 26, o2 - 26);
        let recipient = Address(read_array(bytes, o2));
        let recipient_data = read_vec(bytes, o2 + 25, o3 - (o2 + 25));
        let value = read_u64_le(bytes, o3);
        let fee = read_u64_le(bytes, o3 + 8);
        let validity_start_height = read_u32_le(bytes, o3 + 16);
        let proof = read_vec(bytes, o3 + 26, len - (o3 + 26));
        let mut tx = Transaction::new_extended(
            sender,
            sender_type,
            sender_data,
            recipient,
            recipient_type,
            recipient_data,
            value,
            fee,
            validity_start_height,
            network_id,
        );
        tx.flags = TransactionFlags { bits: flags };
        tx.proof = proof;
        proof {
            assert(tx.fields() == parse_wire(bytes@).unwrap());
        }
        Some(tx)
    }
}

/// The transaction fields that a byte string carries, if it is one.
pub open spec fn parse_wire(b: Seq<u8>) -> Option<TxFields> {
    if b.len() == 138 && b[0] == 0 && NetworkId::of_code(b[73]) is Some {
        let pk = b.subrange(1, 33);
        let sig = b.subrange(74, 138);
        Some(
            TxFields {
                sender: address_of(pk),
                sender_type: AccountType::Basic,
                sender_data: Seq::empty(),
                recipient: b.subrange(33, 53),
                recipient_type: AccountType::Basic,
                recipient_data: Seq::empty(),
                value: le64_at(b, 53),
                fee: le64_at(b, 61),
                validity_start_height: le32_at(b, 69),
                network_id: NetworkId::of_code(b[73]).unwrap(),
                flags: 0,
                proof: proof_bytes((pk, Seq::<NodeView>::empty(), sig)),
            },
        )
    } else if b.len() >= 26 && b[0] == 1 {
        let o2 = 26 + le32_at(b, 22) as int;
        let o3 = o2 + 25 + le32_at(b, o2 + 21) as int;
        let end = o3 + 26 + le32_at(b, o3 + 22) as int;
        if b.len() >= o2 + 25 && b.len() >= o3 + 26 && b.len() == end && AccountType::of_code(b[21])
            is Some && AccountType::of_code(b[o2 + 20]) is Some && NetworkId::of_code(b[o3 + 20])
            is Some && b[o3 + 21] <= 3 {
            Some(
                TxFields {
                    sender: b.subrange(1, 21),
                    sender_type: AccountType::of_code(b[21]).unwrap(),
                    sender_data: b.subrange(26, o2),
                    recipient: b.subrange(o2, o2 + 20),
                    recipient_type: AccountType::of_code(b[o2 + 20]).unwrap(),
                    recipient_data: b.subrange(o2 + 25, o3),
                    value: le64_at(b, o3),
                    fee: le64_at(b, o3 + 8),
                    validity_start_height: le32_at(b, o3 + 16),
                    network_id: NetworkId::of_code(b[o3 + 20]).unwrap(),
                    flags: b[o3 + 21],
                    proof: b.subrange(o3 + 26, end),
                },
            )
        } else {
            None
        }
    } else {
        None
    }
}

proof fn lemma_codes()
    ensures
        forall|t: AccountType| #[trigger] AccountType::of_code(t.code()) == Some(t),
        forall|n: NetworkId| #[trigger] NetworkId::of_code(n.code()) == Some(n),
{
}

/// A proof that parses with an empty path is the serialization of what it parses to.
proof fn lemma_single_signature_bytes(b: Seq<u8>)
    requires
        parse_proof(b) is Some,
        parse_proof(b).unwrap().1.len() == 0,
    ensures
        proof_bytes(parse_proof(b).unwrap()) == b,
{
    let p = parse_proof(b).unwrap();
    assert(proof_bytes(p) =~= b);
}

/// A transaction read back from its wire bytes has the fields it was written with.
pub proof fn lemma_wire_round_trip(tx: &Transaction)
    requires
        tx.wire_ok(),
    ensures
        parse_wire(tx.wire()) == Some(tx.fields()),
{
    if tx.is_basic_format() {
        lemma_basic_round_trip(tx);
    } else {
        lemma_extended_round_trip(tx);
    }
}

#[verifier::rlimit(50)]
proof fn lemma_basic_round_trip(tx: &Transaction)
    requires
        tx.is_basic_format(),
    ensures
        parse_wire(tx.basic_wire()) == Some(tx.fields()),
{
    lemma_codes();
    let b = tx.basic_wire();
    let p = parse_proof(tx.proof@).unwrap();
    lemma_single_signature_bytes(tx.proof@);
    assert(b.len() == 138);
    assert(b.subrange(1, 33) =~= p.0);
    assert(b.subrange(74, 138) =~= p.2);
    assert(b.subrange(33, 53) =~= tx.recipient@);
    assert(b.subrange(53, 61) =~= u64_le(tx.value));
    assert(b.subrange(61, 69) =~= u64_le(tx.fee));
    assert(b.subrange(69, 73) =~= u32_le(tx.validity_start_height));
    lemma_le64_round_trip(b, 53, tx.value);
    lemma_le64_round_trip(b, 61, tx.fee);
    lemma_le32_round_trip(b, 69, tx.validity_start_height);
    assert(b[0] == 0);
    assert(b[73] == tx.network_id.code());
    assert(tx.sender_data@ =~= Seq::<u8>::empty());
    assert(tx.recipient_data@ =~= Seq::<u8>::empty());
    assert(p.1 =~= Seq::<NodeView>::empty());
    let f = parse_wire(b).unwrap();
    assert(f.sender == tx.sender@);
    assert(f.proof == tx.proof@);
    assert(f.recipient == tx.recipient@);
    assert(f.sender_data == tx.sender_data@);
    assert(f.recipient_data == tx.recipient_data@);
}

proof fn lemma_head(tx: &Transaction)
    requires
        tx.wire_ok(),
    ensures
        ({
            let h = tx.extended_head();
            let l1 = tx.sender_data@.len() as int;
            &&& h.len() == 26 + l1
            &&& h[0] == 1
            &&& h.subrange(1, 21) == tx.sender@
            &&& h[21] == tx.sender_type.code()
            &&& h.subrange(22, 26) == u32_le(l1 as u32)
            &&& h.subrange(26, 26 + l1) == tx.sender_data@
        }),
{
    let h = tx.extended_head();
    assert(h.subrange(1, 21) =~= tx.sender@);
    assert(h.subrange(22, 26) =~= u32_le(tx.sender_data@.len() as u32));
    assert(h.subrange(26, h.len() as int) =~= tx.sender_data@);
}

proof fn lemma_middle(tx: &Transaction)
    requires
        tx.wire_ok(),
    ensures
        ({
            let m = tx.extended_middle();
            let l2 = tx.recipient_data@.len() as int;
            &&& m.len() == 25 + l2
            &&& m.subrange(0, 20) == tx.recipient@
            &&& m[20] == tx.recipient_type.code()
            &&& m.subrange(21, 25) == u32_le(l2 as u32)
            &&& m.subrange(25, 25 + l2) == tx.recipient_data@
        }),
{
    let m = tx.extended_middle();
    assert(m.subrange(0, 20) =~= tx.recipient@);
    assert(m.subrange(21, 25) =~= u32_le(tx.recipient_data@.len() as u32));
    assert(m.subrange(25, m.len() as int) =~= tx.recipient_data@);
}

proof fn lemma_tail(tx: &Transaction)
    requires
        tx.wire_ok(),
    ensures
        ({
            let t = tx.extended_tail();
            let l3 = tx.proof@.len() as int;
            &&& t.len() == 26 + l3
            &&& t.subrange(0, 8) == u64_le(tx.value)
            &&& t.subrange(8, 16) == u64_le(tx.fee)
            &&& t.subrange(16, 20) == u32_le(tx.validity_start_height)
            &&& t[20] == tx.network_id.code()
            &&& t[21] == tx.flags.bits
            &&& t.subrange(22, 26) == u32_le(l3 as u32)
            &&& t.subrange(26, 26 + l3) == tx.proof@
        }),
{
    let t = tx.extended_tail();
    assert(t.subrange(0, 8) =~= u64_le(tx.value));
    assert(t.subrange(8, 16) =~= u64_le(tx.fee));
    assert(t.subrange(16, 20) =~= u32_le(tx.validity_start_height));
    assert(t.subrange(22, 26) =~= u32_le(tx.proof@.len() as u32));
    assert(t.subrange(26, t.len() as int) =~= tx.proof@);
}

/// Reading inside one part of a concatenation reads that part.
proof fn lemma_part(a: Seq<u8>, m: Seq<u8>, t: Seq<u8>)
    ensures
        (a + m + t).subrange(0, a.len() as int) == a,
        (a + m + t).subrange(a.len() as int, (a.len() + m.len()) as int) == m,
        (a + m + t).subrange((a.len() + m.len()) as int, (a.len() + m.len() + t.len()) as int) == t,
{
    assert((a + m + t).subrange(0, a.len() as int) =~= a);
    assert((a + m + t).subrange(a.len() as int, (a.len() + m.len()) as int) =~= m);
    assert((a + m + t).subrange((a.len() + m.len()) as int, (a.len() + m.len() + t.len()) as int) =~= t);
}

/// Subranges of a part are subranges of the whole.
proof fn lemma_sub(b: Seq<u8>, start: int, len: int, i: int, j: int)
    requires
        0 <= start,
        start + len <= b.len(),
        0 <= i <= j <= len,
    ensures
        b.subrange(start, start + len).subrange(i, j) == b.subrange(start + i, start + j),
        i < len ==> b.subrange(start, start + len)[i] == b[start + i],
{
    assert(b.subrange(start, start + len).subrange(i, j) =~= b.subrange(start + i, start + j));
}

#[verifier::rlimit(80)]
proof fn lemma_extended_round_trip(tx: &Transaction)
    requires
        tx.wire_ok(),
    ensures
        parse_wire(tx.extended_wire()) == Some(tx.fields()),
{
    lemma_codes();
    let h = tx.extended_head();
    let m = tx.extended_middle();
    let t = tx.extended_tail();
    let b = tx.extended_wire();
    lemma_head(tx);
    lemma_middle(tx);
    lemma_tail(tx);
    lemma_part(h, m, t);
    let l1 = tx.sender_data@.len() as int;
    let l2 = tx.recipient_data@.len() as int;
    let l3 = tx.proof@.len() as int;
    let o2 = 26 + l1;
    let o3 = o2 + 25 + l2;
    assert(b.len() == o3 + 26 + l3);
    lemma_sub(b, 0, o2, 0, 1);
    lemma_sub(b, 0, o2, 1, 21);
    lemma_sub(b, 0, o2, 21, 22);
    lemma_sub(b, 0, o2, 22, 26);
    lemma_sub(b, 0, o2, 26, o2);
    lemma_sub(b, o2, 25 + l2, 0, 20);
    lemma_sub(b, o2, 25 + l2, 20, 21);
    lemma_sub(b, o2, 25 + l2, 21, 25);
    lemma_sub(b, o2, 25 + l2, 25, 25 + l2);
    lemma_sub(b, o3, 26 + l3, 0, 8);
    lemma_sub(b, o3, 26 + l3, 8, 16);
    lemma_sub(b, o3, 26 + l3, 16, 20);
    lemma_sub(b, o3, 26 + l3, 20, 21);
    lemma_sub(b, o3, 26 + l3, 21, 22);
    lemma_sub(b, o3, 26 + l3, 22, 26);
    lemma_sub(b, o3, 26 + l3, 26, 26 + l3);
    lemma_le32_round_trip(b, 22, l1 as u32);
    lemma_le32_round_trip(b, o2 + 21, l2 as u32);
    lemma_le32_round_trip(b, o3 + 22, l3 as u32);
    lemma_le64_round_trip(b, o3, tx.value);
    lemma_le64_round_trip(b, o3 + 8, tx.fee);
    lemma_le32_round_trip(b, o3 + 16, tx.validity_start_height);
}

} // verus!
