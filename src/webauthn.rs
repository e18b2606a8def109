//! WebAuthn signature proofs: an ECDSA P-256 signature made by an authenticator over its
//! authenticator data and the digest of the client data JSON, which the proof reconstructs from
//! the signed message, the relying party's host and a few flags.

use base64::Engine;
use p256::ecdsa::signature::Verifier;
use sha2::Digest;
use vstd::prelude::*;

use crate::codec::{le32_at, lemma_le32_round_trip, push_bytes, push_u32_le, read_array, read_u32_le, read_vec, u32_le};
use crate::keys::Signature;
use crate::primitives::{blake2b, blake2b_of, Address, Blake2bHash};
use crate::signature_proof::{lemma_nodes_bytes, node_bytes, nodes_bytes, path_root, Blake2bMerklePath, MerklePathNode, NodeView};

verus! {

/// The SHA-256 digest of a byte string.
pub uninterp spec fn sha256_of(data: Seq<u8>) -> Seq<u8>;

/// The unpadded base64url encoding of a byte string.
pub uninterp spec fn base64url_of(data: Seq<u8>) -> Seq<u8>;

/// The JSON string literal of a UTF-8 text, quotes included; `None` when the bytes are not
/// UTF-8.
pub uninterp spec fn json_quoted_of(text: Seq<u8>) -> Option<Seq<u8>>;

/// The host of a URL, without port; `None` when the text does not parse as a URL with a host.
pub uninterp spec fn url_host_of(url: Seq<u8>) -> Option<Seq<u8>>;

/// Whether a 64-byte signature is a valid ECDSA P-256 signature, with SHA-256, of a message
/// under a SEC1-encoded public key.
pub uninterp spec fn p256_verifies(public_key: Seq<u8>, signature: Seq<u8>, message: Seq<u8>) -> bool;

/// Relies on `sha2::Sha256::digest`: the SHA-256 digest of `data`.
#[verifier::external_body]
fn sha256(data: &[u8]) -> (r: [u8; 32])
    ensures
        r@ == sha256_of(data@),
{
    sha2::Sha256::digest(data).into()
}

/// Relies on `base64::Engine::encode` with `URL_SAFE_NO_PAD`: the unpadded base64url text of
/// `data`, as ASCII bytes.
#[verifier::external_body]
fn base64url(data: &[u8]) -> (r: Vec<u8>)
    ensures
        r@ == base64url_of(data@),
{
    base64::engine::general_purpose::URL_SAFE_NO_PAD.encode(data).into_bytes()
}

/// Relies on `serde_json::to_vec` of a `str`: the JSON string literal of the text, with quotes,
/// backslashes and control characters escaped; `None` for bytes that are no UTF-8 text.
#[verifier::external_body]
fn json_quoted(text: &[u8]) -> (r: Option<Vec<u8>>)
    ensures
        r matches Some(v) ==> json_quoted_of(text@) == Some(v@),
        r is None ==> json_quoted_of(text@) is None,
{
    match std::str::from_utf8(text) {
        Ok(s) => serde_json::to_vec(s).ok(),
        Err(_) => None,
    }
}

/// Relies on `url::Url::parse` and `Url::host_str`: the host of the URL the text parses as;
/// `None` when it does not parse or has no host.
#[verifier::external_body]
fn url_host(url: &[u8]) -> (r: Option<Vec<u8>>)
    ensures
        r matches Some(v) ==> url_host_of(url@) == Some(v@),
        r is None ==> url_host_of(url@) is None,
{
    match std::str::from_utf8(url) {
        Ok(s) => match url::Url::parse(s) {
            Ok(parsed) => parsed.host_str().map(|h| h.as_bytes().to_vec()),
            Err(_) => None,
        },
        Err(_) => None,
    }
}

/// Relies on `p256::ecdsa::VerifyingKey::verify`: whether the signature is valid for the
/// SHA-256 digest of the message; keys and signatures that do not decode verify nothing.
#[verifier::external_body]
fn p256_verify(public_key: &[u8; 33], signature: &[u8; 64], message: &[u8]) -> (r: bool)
    ensures
        r == p256_verifies(public_key@, signature@, message@),
{
    match (
        p256::ecdsa::VerifyingKey::from_sec1_bytes(public_key),
        p256::ecdsa::Signature::from_slice(signature),
    ) {
        (Ok(key), Ok(sig)) => key.verify(message, &sig).is_ok(),
        _ => false,
    }
}

/// `localhost`
pub open spec fn localhost_prefix() -> Seq<u8> {
    seq![108u8, 111u8, 99u8, 97u8, 108u8, 104u8, 111u8, 115u8, 116u8]
}

/// `localhost`
fn localhost_prefix_bytes() -> (r: Vec<u8>)
    ensures
        r@ == localhost_prefix(),
{
    let a: [u8; 9] = [108, 111, 99, 97, 108, 104, 111, 115, 116];
    let mut r: Vec<u8> = Vec::new();
    push_bytes(&mut r, &a);
    assert(r@ =~= localhost_prefix());
    r
}

/// `http`
pub open spec fn http_scheme() -> Seq<u8> {
    seq![104u8, 116u8, 116u8, 112u8]
}

/// `http`
fn http_scheme_bytes() -> (r: Vec<u8>)
    ensures
        r@ == http_scheme(),
{
    let a: [u8; 4] = [104, 116, 116, 112];
    let mut r: Vec<u8> = Vec::new();
    push_bytes(&mut r, &a);
    assert(r@ =~= http_scheme());
    r
}

/// `https`
pub open spec fn https_scheme() -> Seq<u8> {
    seq![104u8, 116u8, 116u8, 112u8, 115u8]
}

/// `https`
fn https_scheme_bytes() -> (r: Vec<u8>)
    ensures
        r@ == https_scheme(),
{
    let a: [u8; 5] = [104, 116, 116, 112, 115];
    let mut r: Vec<u8> = Vec::new();
    push_bytes(&mut r, &a);
    assert(r@ =~= https_scheme());
    r
}

/// `://`
pub open spec fn plain_separator() -> Seq<u8> {
    seq![58u8, 47u8, 47u8]
}

/// `://`
fn plain_separator_bytes() -> (r: Vec<u8>)
    ensures
        r@ == plain_separator(),
{
    let a: [u8; 3] = [58, 47, 47];
    let mut r: Vec<u8> = Vec::new();
    push_bytes(&mut r, &a);
    assert(r@ =~= plain_separator());
    r
}

/// `:\/\/`, the separator with escaped slashes
pub open spec fn escaped_separator() -> Seq<u8> {
    seq![58u8, 92u8, 47u8, 92u8, 47u8]
}

/// `:\/\/`, the separator with escaped slashes
fn escaped_separator_bytes() -> (r: Vec<u8>)
    ensures
        r@ == escaped_separator(),
{
    let a: [u8; 5] = [58, 92, 47, 92, 47];
    let mut r: Vec<u8> = Vec::new();
    push_bytes(&mut r, &a);
    assert(r@ =~= escaped_separator());
    r
}

/// The opening of the client data up to the challenge.
pub open spec fn json_head() -> Seq<u8> {
    seq![123u8, 34u8, 116u8, 121u8, 112u8, 101u8, 34u8, 58u8, 34u8, 119u8, 101u8, 98u8, 97u8, 117u8, 116u8, 104u8, 110u8, 46u8, 103u8, 101u8, 116u8, 34u8, 44u8, 34u8, 99u8, 104u8, 97u8, 108u8, 108u8, 101u8, 110u8, 103u8, 101u8, 34u8, 58u8, 34u8]
}

/// The opening of the client data up to the challenge.
fn json_head_bytes() -> (r: Vec<u8>)
    ensures
        r@ == json_head(),
{
    let a: [u8; 36] = [123, 34, 116, 121, 112, 101, 34, 58, 34, 119, 101, 98, 97, 117, 116, 104, 110, 46, 103, 101, 116, 34, 44, 34, 99, 104, 97, 108, 108, 101, 110, 103, 101, 34, 58, 34];
    let mut r: Vec<u8> = Vec::new();
    push_bytes(&mut r, &a);
    assert(r@ =~= json_head());
    r
}

/// The text between the challenge and the origin.
pub open spec fn json_origin_key() -> Seq<u8> {
    seq![34u8, 44u8, 34u8, 111u8, 114u8, 105u8, 103u8, 105u8, 110u8, 34u8, 58u8]
}

/// The text between the challenge and the origin.
fn json_origin_key_bytes() -> (r: Vec<u8>)
    ensures
        r@ == json_origin_key(),
{
    let a: [u8; 11] = [34, 44, 34, 111, 114, 105, 103, 105, 110, 34, 58];
    let mut r: Vec<u8> = Vec::new();
    push_bytes(&mut r, &a);
    assert(r@ =~= json_origin_key());
    r
}

/// The `crossOrigin` field.
pub open spec fn json_cross_origin() -> Seq<u8> {
    seq![44u8, 34u8, 99u8, 114u8, 111u8, 115u8, 115u8, 79u8, 114u8, 105u8, 103u8, 105u8, 110u8, 34u8, 58u8, 102u8, 97u8, 108u8, 115u8, 101u8]
}

/// The `crossOrigin` field.
fn json_cross_origin_bytes() -> (r: Vec<u8>)
    ensures
        r@ == json_cross_origin(),
{
    let a: [u8; 20] = [44, 34, 99, 114, 111, 115, 115, 79, 114, 105, 103, 105, 110, 34, 58, 102, 97, 108, 115, 101];
    let mut r: Vec<u8> = Vec::new();
    push_bytes(&mut r, &a);
    assert(r@ =~= json_cross_origin());
    r
}

/// Halves every pair of backslashes, scanning from the left: the JSON text as the
/// authenticator writes it, where escaped slashes of the origin keep a single backslash.
pub open spec fn collapse_backslashes(s: Seq<u8>) -> Seq<u8>
    decreases s.len(),
{
    if s.len() < 2 {
        s
    } else if s[0] == 92u8 && s[1] == 92u8 {
        seq![92u8] + collapse_backslashes(s.subrange(2, s.len() as int))
    } else {
        seq![s[0]] + collapse_backslashes(s.subrange(1, s.len() as int))
    }
}

fn collapse(s: &[u8]) -> (r: Vec<u8>)
    ensures
        r@ == collapse_backslashes(s@),
{
    let mut out: Vec<u8> = Vec::new();
    let mut i: usize = 0;
    assert(s@.subrange(0, s@.len() as int) =~= s@);
    assert(out@ + collapse_backslashes(s@) =~= collapse_backslashes(s@));
    while i < s.len()
        invariant
            0 <= i <= s@.len(),
            out@ + collapse_backslashes(s@.subrange(i as int, s@.len() as int)) == collapse_backslashes(s@),
        decreases s@.len() - i,
    {
        let ghost rest = s@.subrange(i as int, s@.len() as int);
        if i + 1 < s.len() && s[i] == 92u8 && s[i + 1] == 92u8 {
            out.push(92u8);
            proof {
                assert(rest.subrange(2, rest.len() as int) =~= s@.subrange(i + 2, s@.len() as int));
            }
            i += 2;
        } else {
            out.push(s[i]);
            proof {
                assert(rest.subrange(1, rest.len() as int) =~= s@.subrange(i + 1, s@.len() as int));
            }
            i += 1;
        }
        proof {
            assert(out@ + collapse_backslashes(s@.subrange(i as int, s@.len() as int)) =~= collapse_backslashes(s@));
        }
    }
    assert(s@.subrange(0, s@.len() as int) =~= s@);
    out
}

/// The two quirks of authenticators that the client data must reproduce.
#[derive(Clone, Copy, Debug, PartialEq, Eq, Structural)]
pub struct WebauthnClientDataFlags {
    pub bits: u8,
}

impl WebauthnClientDataFlags {
    /// The authenticator leaves out the `crossOrigin` field.
    pub const NO_CROSSORIGIN_FIELD: u8 = 1;

    /// The authenticator escapes the forward slashes of the origin.
    pub const ESCAPED_ORIGIN_SLASHES: u8 = 2;

    /// Whether all bits of `flag` are set.
    pub open spec fn has(self, flag: u8) -> bool {
        self.bits & flag == flag
    }

    /// Whether all bits of `flag` are set.
    pub fn contains(&self, flag: u8) -> (r: bool)
        ensures
            r == self.has(flag),
    {
        self.bits & flag == flag
    }
}

/// A compressed SEC1 P-256 public key.
#[derive(Clone, Copy, Debug)]
pub struct WebauthnPublicKey(pub [u8; 33]);

/// A WebAuthn signature proof.
#[derive(Clone, Debug)]
pub struct WebauthnSignatureProof {
    pub public_key: WebauthnPublicKey,
    pub merkle_path: Blake2bMerklePath,
    pub signature: Signature,
    /// The relying party's host, with an optional port, as UTF-8.
    pub host: Vec<u8>,
    pub authenticator_data_suffix: Vec<u8>,
    pub client_data_flags: WebauthnClientDataFlags,
    /// Extra client data fields, as UTF-8 JSON members, appended before the closing brace.
    pub client_data_extra_fields: Vec<u8>,
}

/// A WebAuthn proof as plain values: public key, path, signature, client data flags, host,
/// authenticator data suffix and extra client data fields.
pub type WebauthnView = (Seq<u8>, Seq<NodeView>, Seq<u8>, u8, Seq<u8>, Seq<u8>, Seq<u8>);

impl View for WebauthnSignatureProof {
    type V = WebauthnView;

    open spec fn view(&self) -> WebauthnView {
        (
            self.public_key.0@,
            self.merkle_path@,
            self.signature@,
            self.client_data_flags.bits,
            self.host@,
            self.authenticator_data_suffix@,
            self.client_data_extra_fields@,
        )
    }
}

/// The origin the authenticator saw: `http` for a host starting with `localhost`, else
/// `https`, then the separator, then the host.
pub open spec fn webauthn_origin(w: WebauthnView) -> Seq<u8> {
    let scheme = if w.4.len() >= 9 && w.4.subrange(0, 9) == localhost_prefix() {
        http_scheme()
    } else {
        https_scheme()
    };
    let separator = if w.3 & WebauthnClientDataFlags::ESCAPED_ORIGIN_SLASHES
        == WebauthnClientDataFlags::ESCAPED_ORIGIN_SLASHES {
        escaped_separator()
    } else {
        plain_separator()
    };
    scheme + separator + w.4
}

/// The client data JSON for a message and the JSON literal of the origin: type, challenge
/// (the base64url text of the message's digest), origin, and `crossOrigin` unless the flags
/// leave it out; extra fields go before the closing brace.
pub open spec fn webauthn_client_data(w: WebauthnView, message: Seq<u8>, quoted_origin: Seq<u8>) -> Seq<u8> {
    let body = json_head() + base64url_of(blake2b_of(message)) + json_origin_key()
        + collapse_backslashes(quoted_origin) + if w.3 & WebauthnClientDataFlags::NO_CROSSORIGIN_FIELD
        == WebauthnClientDataFlags::NO_CROSSORIGIN_FIELD {
        Seq::<u8>::empty()
    } else {
        json_cross_origin()
    };
    if w.6.len() == 0 {
        body + seq![125u8]
    } else {
        body + seq![44u8] + w.6 + seq![125u8]
    }
}

/// Whether a proof's signature is valid for `message`: the authenticator signed the SHA-256
/// digest of the host, the authenticator data suffix, and the SHA-256 digest of the client
/// data. An origin without a host, or a host that is no UTF-8 text, verifies nothing.
pub open spec fn webauthn_verifies(w: WebauthnView, message: Seq<u8>) -> bool {
    match (url_host_of(webauthn_origin(w)), json_quoted_of(webauthn_origin(w))) {
        (Some(hostname), Some(quoted)) => p256_verifies(
            w.0,
            w.2,
            sha256_of(hostname) + w.5 + sha256_of(webauthn_client_data(w, message, quoted)),
        ),
        _ => false,
    }
}

/// The address a proof signs for.
pub open spec fn webauthn_signer(w: WebauthnView) -> Seq<u8> {
    Address::of_digest(path_root(w.1, blake2b_of(w.0)))
}

/// The serialization of a WebAuthn proof: the 33-byte key, the number of path nodes in one
/// byte, the nodes, the 64-byte signature, the flags byte, then host, authenticator data suffix
/// and extra fields, each with a four-byte little-endian length.
pub open spec fn webauthn_bytes(w: WebauthnView) -> Seq<u8> {
    w.0 + seq![w.1.len() as u8] + nodes_bytes(w.1) + w.2 + seq![w.3] + u32_le(w.4.len() as u32)
        + w.4 + u32_le(w.5.len() as u32) + w.5 + u32_le(w.6.len() as u32) + w.6
}

/// The WebAuthn proof that a byte string serializes, if any.
pub open spec fn parse_webauthn(b: Seq<u8>) -> Option<WebauthnView> {
    if b.len() < 34 {
        None
    } else {
        let n = b[33] as int;
        let o1 = 99 + 33 * n;
        let o2 = o1 + 4 + le32_at(b, o1) as int;
        let o3 = o2 + 4 + le32_at(b, o2) as int;
        let end = o3 + 4 + le32_at(b, o3) as int;
        if b.len() >= o1 + 4 && b.len() >= o2 + 4 && b.len() >= o3 + 4 && b.len() == end && (
        forall|i: int| 0 <= i < n ==> (#[trigger] b[34 + 33 * i]) <= 1) {
            Some(
                (
                    b.subrange(0, 33),
                    Seq::new(
                        n as nat,
                        |i: int| (b[34 + 33 * i] == 1, b.subrange(35 + 33 * i, 67 + 33 * i)),
                    ),
                    b.subrange(34 + 33 * n, 98 + 33 * n),
                    b[98 + 33 * n],
                    b.subrange(o1 + 4, o2),
                    b.subrange(o2 + 4, o3),
                    b.subrange(o3 + 4, end),
                ),
            )
        } else {
            None
        }
    }
}

impl WebauthnSignatureProof {
    /// The origin the authenticator saw.
    pub open spec fn origin(&self) -> Seq<u8> {
        webauthn_origin(self@)
    }

    /// The client data JSON for a message and the JSON literal of the origin.
    pub open spec fn client_data(&self, message: Seq<u8>, quoted_origin: Seq<u8>) -> Seq<u8> {
        webauthn_client_data(self@, message, quoted_origin)
    }

    /// Whether the proof's signature is valid for `message`.
    pub open spec fn verifies(&self, message: Seq<u8>) -> bool {
        webauthn_verifies(self@, message)
    }

    /// Serializes the proof.
    pub fn serialize_to_vec(&self) -> (r: Vec<u8>)
        requires
            self.merkle_path@.len() <= 255,
            self.host@.len() <= u32::MAX,
            self.authenticator_data_suffix@.len() <= u32::MAX,
            self.client_data_extra_fields@.len() <= u32::MAX,
        ensures
            r@ == webauthn_bytes(self@),
    {
        let mut out: Vec<u8> = Vec::new();
        push_bytes(&mut out, &self.public_key.0);
        out.push(self.merkle_path.nodes.len() as u8);
        let ghost head = out@;
        let mut i: usize = 0;
        while i < self.merkle_path.nodes.len()
            invariant
                0 <= i <= self.merkle_path@.len(),
                self.merkle_path@.len() == self.merkle_path.nodes@.len(),
                out@ == head + nodes_bytes(self.merkle_path@.subrange(0, i as int)),
            decreases self.merkle_path@.len() - i,
        {
            let node = self.merkle_path.nodes[i];
            let ghost before = out@;
            out.push(if node.left { 1u8 } else { 0u8 });
            push_bytes(&mut out, &node.hash.0);
            proof {
                let s = self.merkle_path@.subrange(0, i + 1);
                assert(s.drop_last() =~= self.merkle_path@.subrange(0, i as int));
                assert(out@ =~= before + node_bytes(s.last()));
            }
            i += 1;
        }
        assert(self.merkle_path@.subrange(0, self.merkle_path@.len() as int) =~= self.merkle_path@);
        push_bytes(&mut out, &self.signature.0);
        out.push(self.client_data_flags.bits);
        push_u32_le(&mut out, self.host.len() as u32);
        push_bytes(&mut out, self.host.as_slice());
        push_u32_le(&mut out, self.authenticator_data_suffix.len() as u32);
        push_bytes(&mut out, self.authenticator_data_suffix.as_slice());
        push_u32_le(&mut out, self.client_data_extra_fields.len() as u32);
        push_bytes(&mut out, self.client_data_extra_fields.as_slice());
        assert(out@ =~= webauthn_bytes(self@));
        out
    }

    /// Reads a proof from its serialization; `None` when the bytes serialize no proof.
    #[verifier::rlimit(60)]
    pub fn deserialize_from_vec(bytes: &[u8]) -> (r: Option<WebauthnSignatureProof>)
        ensures
            match r {
                Some(p) => parse_webauthn(bytes@) == Some(p@),
                None => parse_webauthn(bytes@) is None,
            },
    {
        let len = bytes.len();
        if len < 34 {
            return None;
        }
        let n = bytes[33] as usize;
        let o1 = 99 + 33 * (n as u64);
        if (len as u64) < o1 + 4 {
            return None;
        }
        let o1 = o1 as usize;
        let l1 = read_u32_le(bytes, o1) as u64;
        let o2 = o1 as u64 + 4 + l1;
        if (len as u64) < o2 + 4 {
            return None;
        }
        let o2 = o2 as usize;
        let l2 = read_u32_le(bytes, o2) as u64;
        let o3 = o2 as u64 + 4 + l2;
        if (len as u64) < o3 + 4 {
            return None;
        }
        let o3 = o3 as usize;
        let l3 = read_u32_le(bytes, o3) as u64;
        if len as u64 != o3 as u64 + 4 + l3 {
            return None;
        }
        let mut nodes: Vec<MerklePathNode> = Vec::new();
        let mut i: usize = 0;
        while i < n
            invariant
                len == bytes@.len(),
                n == bytes@[33],
                len >= 99 + 33 * n + 4,
                0 <= i <= n,
                nodes@.len() == i,
                forall|k: int| 0 <= k < i ==> (#[trigger] bytes@[34 + 33 * k]) <= 1,
                forall|k: int|
                    0 <= k < i ==> (#[trigger] nodes@[k]).left == (bytes@[34 + 33 * k] == 1)
                        && nodes@[k].hash@ == bytes@.subrange(35 + 33 * k, 67 + 33 * k),
            decreases n - i,
        {
            let flag = bytes[34 + 33 * i];
            if flag > 1 {
                assert(!(bytes@[34 + 33 * (i as int)] <= 1));
                return None;
            }
            let hash = Blake2bHash(read_array(bytes, 35 + 33 * i));
            nodes.push(MerklePathNode { left: flag == 1, hash });
            i += 1;
        }
        let public_key = WebauthnPublicKey(read_array(bytes, 0));
        let signature = Signature(read_array(bytes, 34 + 33 * n));
        let flags = bytes[98 + 33 * n];
        let host = read_vec(bytes, o1 + 4, o2 - (o1 + 4));
        let authenticator_data_suffix = read_vec(bytes, o2 + 4, o3 - (o2 + 4));
        let client_data_extra_fields = read_vec(bytes, o3 + 4, len - (o3 + 4));
        let r = WebauthnSignatureProof {
            public_key,
            merkle_path: Blake2bMerklePath { nodes },
            signature,
            host,
            authenticator_data_suffix,
            client_data_flags: WebauthnClientDataFlags { bits: flags },
            client_data_extra_fields,
        };
        proof {
            let parsed = parse_webauthn(bytes@).unwrap();
            assert(r.merkle_path@ =~= parsed.1);
        }
        Some(r)
    }

    /// A proof with an empty Merkle path.
    pub fn from(
        public_key: WebauthnPublicKey,
        signature: Signature,
        host: Vec<u8>,
        authenticator_data_suffix: Vec<u8>,
        client_data_flags: WebauthnClientDataFlags,
        client_data_extra_fields: Vec<u8>,
    ) -> (r: WebauthnSignatureProof)
        ensures
            r.public_key == public_key,
            r.merkle_path@.len() == 0,
            r.signature == signature,
            r.host@ == host@,
            r.authenticator_data_suffix@ == authenticator_data_suffix@,
            r.client_data_flags == client_data_flags,
            r.client_data_extra_fields@ == client_data_extra_fields@,
    {
        WebauthnSignatureProof {
            public_key,
            merkle_path: Blake2bMerklePath::empty(),
            signature,
            host,
            authenticator_data_suffix,
            client_data_flags,
            client_data_extra_fields,
        }
    }

    /// The address this proof signs for.
    pub fn compute_signer(&self) -> (r: Address)
        ensures
            r@ == Address::of_digest(path_root(self.merkle_path@, blake2b_of(self.public_key.0@))),
    {
        Address::from_hash(&self.merkle_path.compute_root(&self.public_key.0))
    }

    /// Whether this proof signs for `address`.
    pub fn is_signed_by(&self, address: &Address) -> (r: bool)
        ensures
            r == (Address::of_digest(path_root(self.merkle_path@, blake2b_of(self.public_key.0@)))
                == address@),
    {
        self.compute_signer() == *address
    }

    fn origin_bytes(&self) -> (r: Vec<u8>)
        ensures
            r@ == self.origin(),
    {
        let n = self.host.len();
        let mut local = n >= 9;
        if local {
            let prefix = localhost_prefix_bytes();
            let mut i: usize = 0;
            while i < 9
                invariant
                    0 <= i <= 9,
                    n == self.host@.len(),
                    n >= 9,
                    prefix@ == localhost_prefix(),
                    local == forall|j: int| 0 <= j < i ==> self.host@[j] == prefix@[j],
                decreases 9 - i,
            {
                if self.host[i] != prefix[i] {
                    local = false;
                }
                i += 1;
            }
            proof {
                if local {
                    assert(self.host@.subrange(0, 9) =~= localhost_prefix());
                } else {
                    let j = choose|j: int| 0 <= j < 9 && self.host@[j] != prefix@[j];
                    assert(self.host@.subrange(0, 9)[j] != localhost_prefix()[j]);
                }
            }
        }
        let mut out = if local { http_scheme_bytes() } else { https_scheme_bytes() };
        let separator = if self.client_data_flags.contains(WebauthnClientDataFlags::ESCAPED_ORIGIN_SLASHES) {
            escaped_separator_bytes()
        } else {
            plain_separator_bytes()
        };
        push_bytes(&mut out, separator.as_slice());
        push_bytes(&mut out, self.host.as_slice());
        out
    }

    /// Verifies the signature for `message`, the serialized content of a transaction.
    pub fn verify(&self, message: &[u8]) -> (r: bool)
        ensures
            r == self.verifies(message@),
    {
        let challenge = base64url(&blake2b(message).0);
        let origin = self.origin_bytes();
        let hostname = match url_host(origin.as_slice()) {
            Some(h) => h,
            None => return false,
        };
        let quoted = match json_quoted(origin.as_slice()) {
            Some(q) => q,
            None => return false,
        };
        let rp_id = sha256(hostname.as_slice());
        let mut json = json_head_bytes();
        push_bytes(&mut json, challenge.as_slice());
        let key = json_origin_key_bytes();
        push_bytes(&mut json, key.as_slice());
        let origin_literal = collapse(quoted.as_slice());
        push_bytes(&mut json, origin_literal.as_slice());
        if !self.client_data_flags.contains(WebauthnClientDataFlags::NO_CROSSORIGIN_FIELD) {
            let cross = json_cross_origin_bytes();
            push_bytes(&mut json, cross.as_slice());
        }
        if self.client_data_extra_fields.len() > 0 {
            json.push(44u8);
            push_bytes(&mut json, self.client_data_extra_fields.as_slice());
        }
        json.push(125u8);
        proof {
            assert(json@ =~= self.client_data(message@, quoted@));
        }
        let client_data_hash = sha256(json.as_slice());
        let mut signed_data: Vec<u8> = Vec::new();
        push_bytes(&mut signed_data, &rp_id);
        push_bytes(&mut signed_data, self.authenticator_data_suffix.as_slice());
        push_bytes(&mut signed_data, &client_data_hash);
        p256_verify(&self.public_key.0, &self.signature.0, signed_data.as_slice())
    }
}

/// Whether a WebAuthn proof can be serialized: a 33-byte key, 32-byte digests, a 64-byte
/// signature, at most 255 path nodes, and byte strings whose lengths fit four bytes.
pub open spec fn webauthn_wf(w: WebauthnView) -> bool {
    &&& w.0.len() == 33
    &&& w.2.len() == 64
    &&& w.1.len() <= 255
    &&& forall|i: int| 0 <= i < w.1.len() ==> (#[trigger] w.1[i]).1.len() == 32
    &&& w.4.len() <= u32::MAX
    &&& w.5.len() <= u32::MAX
    &&& w.6.len() <= u32::MAX
}

/// The fixed-size head of a serialized WebAuthn proof: key, path, signature and flags.
spec fn webauthn_head(w: WebauthnView) -> Seq<u8> {
    w.0 + seq![w.1.len() as u8] + nodes_bytes(w.1) + w.2 + seq![w.3]
}

/// A byte string with its four-byte length.
spec fn framed(x: Seq<u8>) -> Seq<u8> {
    u32_le(x.len() as u32) + x
}

proof fn lemma_framed_read(b: Seq<u8>, o: int, x: Seq<u8>)
    requires
        0 <= o,
        o + 4 + x.len() <= b.len(),
        x.len() <= u32::MAX,
        b.subrange(o, o + 4 + x.len()) == framed(x),
    ensures
        le32_at(b, o) == x.len(),
        b.subrange(o + 4, o + 4 + x.len()) == x,
{
    assert(b.subrange(o, o + 4) =~= framed(x).subrange(0, 4));
    assert(framed(x).subrange(0, 4) =~= u32_le(x.len() as u32));
    lemma_le32_round_trip(b, o, x.len() as u32);
    assert(b.subrange(o + 4, o + 4 + x.len()) =~= framed(x).subrange(4, 4 + x.len() as int));
    assert(framed(x).subrange(4, 4 + x.len() as int) =~= x);
}

/// Reading back a serialized WebAuthn proof gives the proof again.
#[verifier::rlimit(80)]
pub proof fn lemma_webauthn_round_trip(w: WebauthnView)
    requires
        webauthn_wf(w),
    ensures
        parse_webauthn(webauthn_bytes(w)) == Some(w),
{
    let h = webauthn_head(w);
    let f1 = framed(w.4);
    let f2 = framed(w.5);
    let f3 = framed(w.6);
    let b = webauthn_bytes(w);
    assert(b =~= h + f1 + f2 + f3);
    let n = w.1.len() as int;
    lemma_nodes_bytes(w.1);
    let nb = nodes_bytes(w.1);
    assert(h.len() == 99 + 33 * n);
    let o1 = 99 + 33 * n;
    let o2 = o1 + 4 + w.4.len();
    let o3 = o2 + 4 + w.5.len();
    assert(b.subrange(o1, o2) =~= f1);
    assert(b.subrange(o2, o3) =~= f2);
    assert(b.subrange(o3, b.len() as int) =~= f3);
    lemma_framed_read(b, o1, w.4);
    lemma_framed_read(b, o2, w.5);
    lemma_framed_read(b, o3, w.6);
    assert(b[33] == n as u8);
    assert forall|i: int| 0 <= i < b[33] implies (#[trigger] b[34 + 33 * i]) <= 1 by {
        assert(b[34 + 33 * i] == nb[33 * i]);
    }
    let q = parse_webauthn(b).unwrap();
    assert(q.0 =~= w.0);
    assert(q.2 =~= w.2);
    assert(q.3 == w.3);
    assert forall|i: int| 0 <= i < n implies #[trigger] q.1[i] == w.1[i] by {
        assert(b[34 + 33 * i] == nb[33 * i]);
        assert(b.subrange(35 + 33 * i, 67 + 33 * i) =~= nb.subrange(33 * i + 1, 33 * i + 33));
    }
    assert(q.1 =~= w.1);
}

} // verus!
