//! Signature proofs: an Ed25519 public key, the Merkle path that leads from it to the signing
//! address (empty for a single-signature account), and the signature.

use vstd::prelude::*;

use crate::codec::{push_bytes, read_array};
use crate::keys::{ed25519_verifies, PublicKey, Signature};
use crate::primitives::{blake2b, blake2b_of, Address, Blake2bHash};
use crate::webauthn::WebauthnSignatureProof;

verus! {

/// One step of a Merkle path: the sibling digest, and whether it stands on the left.
#[derive(Clone, Copy, Debug)]
pub struct MerklePathNode {
    pub left: bool,
    pub hash: Blake2bHash,
}

/// A node as plain values.
pub type NodeView = (bool, Seq<u8>);

/// A Merkle path from a leaf up to a root.
#[derive(Clone, Debug)]
pub struct Blake2bMerklePath {
    pub nodes: Vec<MerklePathNode>,
}

impl View for Blake2bMerklePath {
    type V = Seq<NodeView>;

    open spec fn view(&self) -> Seq<NodeView> {
        self.nodes@.map_values(|n: MerklePathNode| (n.left, n.hash@))
    }
}

/// The root reached from `leaf` along `nodes`, taken from the first node upwards.
pub open spec fn path_root(nodes: Seq<NodeView>, leaf: Seq<u8>) -> Seq<u8>
    decreases nodes.len(),
{
    if nodes.len() == 0 {
        leaf
    } else {
        let below = path_root(nodes.drop_last(), leaf);
        let node = nodes.last();
        if node.0 {
            blake2b_of(node.1 + below)
        } else {
            blake2b_of(below + node.1)
        }
    }
}

impl Blake2bMerklePath {
    /// The path of a single-signature account.
    pub fn empty() -> (r: Blake2bMerklePath)
        ensures
            r@.len() == 0,
    {
        Blake2bMerklePath { nodes: Vec::new() }
    }

    /// Whether the path has no node.
    pub fn is_empty(&self) -> (r: bool)
        ensures
            r == (self@.len() == 0),
    {
        self.nodes.len() == 0
    }

    /// The root of the tree whose leaf is the digest of a public key's bytes.
    pub fn compute_root(&self, public_key: &[u8]) -> (r: Blake2bHash)
        ensures
            r@ == path_root(self@, blake2b_of(public_key@)),
    {
        let mut h = blake2b(public_key);
        let mut i: usize = 0;
        while i < self.nodes.len()
            invariant
                0 <= i <= self@.len(),
                self@.len() == self.nodes@.len(),
                h@ == path_root(self@.subrange(0, i as int), blake2b_of(public_key@)),
            decreases self@.len() - i,
        {
            let node = self.nodes[i];
            let mut data: Vec<u8> = Vec::new();
            if node.left {
                push_bytes(&mut data, &node.hash.0);
                push_bytes(&mut data, &h.0);
            } else {
                push_bytes(&mut data, &h.0);
                push_bytes(&mut data, &node.hash.0);
            }
            proof {
                assert(self@.subrange(0, i + 1).drop_last() =~= self@.subrange(0, i as int));
            }
            h = blake2b(data.as_slice());
            i += 1;
        }
        assert(self@.subrange(0, self@.len() as int) =~= self@);
        h
    }
}

/// An Ed25519 signature proof as plain values: public key, path and signature.
pub type ProofView = (Seq<u8>, Seq<NodeView>, Seq<u8>);

/// The address that a proof's key and path lead to.
pub open spec fn signer_of(p: ProofView) -> Seq<u8> {
    Address::of_digest(path_root(p.1, blake2b_of(p.0)))
}

/// Whether a proof's signature is valid for `message` under its key.
pub open spec fn proof_verifies(p: ProofView, message: Seq<u8>) -> bool {
    ed25519_verifies(p.0, p.2, message)
}

/// The bytes of one path node: a side byte (1 for left) and the sibling digest.
pub open spec fn node_bytes(n: NodeView) -> Seq<u8> {
    seq![if n.0 { 1u8 } else { 0u8 }] + n.1
}

/// The bytes of a sequence of path nodes.
pub open spec fn nodes_bytes(nodes: Seq<NodeView>) -> Seq<u8>
    decreases nodes.len(),
{
    if nodes.len() == 0 {
        seq![]
    } else {
        nodes_bytes(nodes.drop_last()) + node_bytes(nodes.last())
    }
}

/// The serialization of a proof: the 32-byte key, the number of path nodes in one byte, the
/// nodes, and the 64-byte signature.
pub open spec fn proof_bytes(p: ProofView) -> Seq<u8> {
    p.0 + seq![p.1.len() as u8] + nodes_bytes(p.1) + p.2
}

/// Whether a proof can be serialized: a 32-byte key, 32-byte digests, a 64-byte signature and
/// at most 255 path nodes.
pub open spec fn proof_wf(p: ProofView) -> bool {
    &&& p.0.len() == 32
    &&& p.2.len() == 64
    &&& p.1.len() <= 255
    &&& forall|i: int| 0 <= i < p.1.len() ==> (#[trigger] p.1[i]).1.len() == 32
}

/// The proof that a byte string serializes, if any: the length must match the node count and
/// every side byte must be 0 or 1.
pub open spec fn parse_proof(b: Seq<u8>) -> Option<ProofView> {
    if b.len() >= 97 && b.len() == 97 + 33 * (b[32] as int) && (forall|i: int|
        0 <= i < b[32] ==> (#[trigger] b[33 + 33 * i]) <= 1) {
        let n = b[32] as int;
        Some(
            (
                b.subrange(0, 32),
                Seq::new(n as nat, |i: int| (b[33 + 33 * i] == 1, b.subrange(34 + 33 * i, 66 + 33 * i))),
                b.subrange(b.len() - 64, b.len() as int),
            ),
        )
    } else {
        None
    }
}

/// An Ed25519 signature proof.
#[derive(Clone, Debug)]
pub struct EdDSASignatureProof {
    pub public_key: PublicKey,
    pub merkle_path: Blake2bMerklePath,
    pub signature: Signature,
}

impl View for EdDSASignatureProof {
    type V = ProofView;

    open spec fn view(&self) -> ProofView {
        (self.public_key@, self.merkle_path@, self.signature@)
    }
}

impl EdDSASignatureProof {
    /// A single-signature proof.
    pub fn from(public_key: PublicKey, signature: Signature) -> (r: EdDSASignatureProof)
        ensures
            r@ == (public_key@, Seq::<NodeView>::empty(), signature@),
    {
        let r = EdDSASignatureProof { public_key, merkle_path: Blake2bMerklePath::empty(), signature };
        assert(r.merkle_path@ =~= Seq::<NodeView>::empty());
        r
    }

    /// Serializes the proof.
    pub fn serialize_to_vec(&self) -> (r: Vec<u8>)
        requires
            proof_wf(self@),
        ensures
            r@ == proof_bytes(self@),
    {
        let mut out: Vec<u8> = Vec::new();
        push_bytes(&mut out, &self.public_key.0);
        out.push(self.merkle_path.nodes.len() as u8);
        let ghost head = out@;
        let mut i: usize = 0;
        while i < self.merkle_path.nodes.len()
            invariant
                0 <= i <= self.merkle_path@.len(),
                self.merkle_path@.len() == self.merkle_path.nodes@.len(),
                out@ == head + nodes_bytes(self.merkle_path@.subrange(0, i as int)),
            decreases self.merkle_path@.len() - i,
        {
            let node = self.merkle_path.nodes[i];
            let ghost before = out@;
            out.push(if node.left { 1u8 } else { 0u8 });
            push_bytes(&mut out, &node.hash.0);
            proof {
                let s = self.merkle_path@.subrange(0, i + 1);
                assert(s.drop_last() =~= self.merkle_path@.subrange(0, i as int));
                assert(out@ =~= before + node_bytes(s.last()));
            }
            i += 1;
        }
        assert(self.merkle_path@.subrange(0, self.merkle_path@.len() as int) =~= self.merkle_path@);
        push_bytes(&mut out, &self.signature.0);
        assert(out@ =~= proof_bytes(self@));
        out
    }

    /// Reads a proof from its serialization; `None` when the bytes serialize no proof.
    pub fn deserialize_from_vec(bytes: &[u8]) -> (r: Option<EdDSASignatureProof>)
        ensures
            match r {
                Some(p) => parse_proof(bytes@) == Some(p@),
                None => parse_proof(bytes@).is_none(),
            },
    {
        let len = bytes.len();
        if len < 97 {
            return None;
        }
        let n = bytes[32] as usize;
        if len != 97 + 33 * n {
            return None;
        }
        let public_key = PublicKey(read_array(bytes, 0));
        let mut nodes: Vec<MerklePathNode> = Vec::new();
        let mut i: usize = 0;
        while i < n
            invariant
                len == bytes@.len(),
                n == bytes@[32],
                len == 97 + 33 * n,
                0 <= i <= n,
                nodes@.len() == i,
                forall|k: int| 0 <= k < i ==> (#[trigger] bytes@[33 + 33 * k]) <= 1,
                forall|k: int|
                    0 <= k < i ==> (#[trigger] nodes@[k]).left == (bytes@[33 + 33 * k] == 1)
                        && nodes@[k].hash@ == bytes@.subrange(34 + 33 * k, 66 + 33 * k),
            decreases n - i,
        {
            let flag = bytes[33 + 33 * i];
            if flag > 1 {
                assert(!(bytes@[33 + 33 * (i as int)] <= 1));
                return None;
            }
            let hash = Blake2bHash(read_array(bytes, 34 + 33 * i));
            nodes.push(MerklePathNode { left: flag == 1, hash });
            i += 1;
        }
        let signature = Signature(read_array(bytes, len - 64));
        let r = EdDSASignatureProof { public_key, merkle_path: Blake2bMerklePath { nodes }, signature };
        proof {
            let parsed = parse_proof(bytes@).unwrap();
            assert(r.merkle_path@ =~= parsed.1);
        }
        Some(r)
    }

    /// The address this proof signs for.
    pub fn compute_signer(&self) -> (r: Address)
        ensures
            r@ == signer_of(self@),
    {
        Address::from_hash(&self.merkle_path.compute_root(&self.public_key.0))
    }

    /// Whether this proof signs for `address`.
    pub fn is_signed_by(&self, address: &Address) -> (r: bool)
        ensures
            r == (signer_of(self@) == address@),
    {
        self.compute_signer() == *address
    }

    /// Whether the signature is valid for `message`.
    pub fn verify(&self, message: &[u8]) -> (r: bool)
        ensures
            r == proof_verifies(self@, message@),
    {
        self.public_key.verify(&self.signature, message)
    }
}

/// The bytes of path nodes with 32-byte digests hold each node at a stride of 33 bytes.
pub(crate) proof fn lemma_nodes_bytes(nodes: Seq<NodeView>)
    requires
        forall|i: int| 0 <= i < nodes.len() ==> (#[trigger] nodes[i]).1.len() == 32,
    ensures
        nodes_bytes(nodes).len() == 33 * nodes.len(),
        forall|i: int|
            0 <= i < nodes.len() ==> (#[trigger] nodes_bytes(nodes)[33 * i]) == (if nodes[i].0 {
                1u8
            } else {
                0u8
            }) && nodes_bytes(nodes).subrange(33 * i + 1, 33 * i + 33) == nodes[i].1,
    decreases nodes.len(),
{
    if nodes.len() > 0 {
        let init = nodes.drop_last();
        lemma_nodes_bytes(init);
        let b = nodes_bytes(nodes);
        assert(b == nodes_bytes(init) + node_bytes(nodes.last()));
        assert forall|i: int| 0 <= i < nodes.len() implies (#[trigger] b[33 * i]) == (if nodes[i].0 {
            1u8
        } else {
            0u8
        }) && b.subrange(33 * i + 1, 33 * i + 33) == nodes[i].1 by {
            if i < nodes.len() - 1 {
                assert(init[i] == nodes[i]);
                assert(nodes_bytes(init)[33 * i] == b[33 * i]);
                assert(b.subrange(33 * i + 1, 33 * i + 33) =~= nodes_bytes(init).subrange(
                    33 * i + 1,
                    33 * i + 33,
                ));
            } else {
                assert(b.subrange(33 * i + 1, 33 * i + 33) =~= nodes[i].1);
            }
        }
    }
}

/// Reading back a serialized proof gives the proof again.
pub proof fn lemma_proof_round_trip(p: ProofView)
    requires
        proof_wf(p),
    ensures
        parse_proof(proof_bytes(p)) == Some(p),
{
    let b = proof_bytes(p);
    let n = p.1.len() as int;
    lemma_nodes_bytes(p.1);
    let nb = nodes_bytes(p.1);
    assert(b[32] == n as u8);
    assert forall|i: int| 0 <= i < b[32] implies (#[trigger] b[33 + 33 * i]) <= 1 by {
        assert(b[33 + 33 * i] == nb[33 * i]);
    }
    let q = parse_proof(b).unwrap();
    assert(q.0 =~= p.0);
    assert(q.2 =~= p.2);
    assert forall|i: int| 0 <= i < n implies #[trigger] q.1[i] == p.1[i] by {
        assert(b[33 + 33 * i] == nb[33 * i]);
        assert(b.subrange(34 + 33 * i, 66 + 33 * i) =~= nb.subrange(33 * i + 1, 33 * i + 33));
    }
    assert(q.1 =~= p.1);
}

/// A signature proof of either kind.
#[derive(Clone, Debug)]
pub enum SignatureProof {
    EdDSA(EdDSASignatureProof),
    ECDSA(WebauthnSignatureProof),
}

impl SignatureProof {
    /// The address the proof signs for, as plain values.
    pub open spec fn signer(&self) -> Seq<u8> {
        match self {
            SignatureProof::EdDSA(p) => signer_of(p@),
            SignatureProof::ECDSA(p) => Address::of_digest(
                path_root(p.merkle_path@, blake2b_of(p.public_key.0@)),
            ),
        }
    }

    /// Whether the proof's signature is valid for `message`.
    pub open spec fn verifies(&self, message: Seq<u8>) -> bool {
        match self {
            SignatureProof::EdDSA(p) => proof_verifies(p@, message),
            SignatureProof::ECDSA(p) => p.verifies(message),
        }
    }

    /// The Merkle path of the proof.
    pub fn merkle_path(&self) -> (r: &Blake2bMerklePath)
        ensures
            r@ == match self {
                SignatureProof::EdDSA(p) => p.merkle_path@,
                SignatureProof::ECDSA(p) => p.merkle_path@,
            },
    {
        match self {
            SignatureProof::EdDSA(proof) => &proof.merkle_path,
            SignatureProof::ECDSA(proof) => &proof.merkle_path,
        }
    }

    /// Whether the proof's signature is valid for `message`.
    pub fn verify(&self, message: &[u8]) -> (r: bool)
        ensures
            r == self.verifies(message@),
    {
        match self {
            SignatureProof::EdDSA(proof) => proof.verify(message),
            SignatureProof::ECDSA(proof) => proof.verify(message),
        }
    }

    /// The address the proof signs for.
    pub fn compute_signer(&self) -> (r: Address)
        ensures
            r@ == self.signer(),
    {
        match self {
            SignatureProof::EdDSA(proof) => proof.compute_signer(),
            SignatureProof::ECDSA(proof) => proof.compute_signer(),
        }
    }

    /// Whether the proof signs for `address`.
    pub fn is_signed_by(&self, address: &Address) -> (r: bool)
        ensures
            r == (self.signer() == address@),
    {
        self.compute_signer() == *address
    }
}

} // verus!
