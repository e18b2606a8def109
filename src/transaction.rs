//! Transactions: their signed content, their intrinsic checks and their validity window.

use vstd::prelude::*;

use crate::codec::{push_bytes, push_u16_be, push_u32_be, push_u64_be, push_varint, u16_be, u32_be, u64_be, varint};
use crate::policy::Policy;
use crate::primitives::{blake2b, blake2b_of, bytes_equal, AccountType, Address, Blake2bHash, NetworkId};
use crate::keys::{ed25519_signature_of, KeyPair};
use crate::webauthn::{parse_webauthn, webauthn_signer, webauthn_verifies, WebauthnSignatureProof};
use crate::signature_proof::{parse_proof, proof_bytes, proof_verifies, signer_of, EdDSASignatureProof, NodeView};

verus! {

/// The gossip topic on which transactions reach the mempool.
#[derive(Clone, Copy, Debug, Default)]
pub struct TransactionTopic;

impl TransactionTopic {
    pub const BUFFER_SIZE: usize = 1024;
    pub const NAME: &'static str = "transactions";
    pub const VALIDATE: bool = true;
}

/// The gossip topic of control transactions, for validators.
#[derive(Clone, Copy, Debug, Default)]
pub struct ControlTransactionTopic;

impl ControlTransactionTopic {
    pub const BUFFER_SIZE: usize = 1024;
    pub const NAME: &'static str = "Controltransactions";
    pub const VALIDATE: bool = true;
}

/// The two serialization formats of a transaction.
#[derive(Clone, Copy, Debug, PartialEq, Eq, Structural)]
pub enum TransactionFormat {
    /// Sender is the address of the signing key; a single signature and no extra data.
    Basic,
    /// Explicit sender and recipient kinds, arbitrary data, flags and a proof blob.
    Extended,
}

/// The flags of a transaction, as a bit set.
#[derive(Clone, Copy, Debug, PartialEq, Eq, Structural)]
pub struct TransactionFlags {
    pub bits: u8,
}

/// The error for a byte that sets undefined transaction flags.
#[derive(Clone, Copy, Debug, PartialEq, Eq, Structural)]
pub struct TransactionFlagsConvertError(pub u8);

impl TransactionFlags {
    /// The transaction creates a contract at an address derived from its content.
    pub const CONTRACT_CREATION: u8 = 0b01;

    /// The transaction carries a signal and moves no value.
    pub const SIGNALING: u8 = 0b10;

    /// Whether all bits of `flag` are set.
    pub open spec fn has(self, flag: u8) -> bool {
        self.bits & flag == flag
    }

    /// No flag set.
    pub fn empty() -> (r: TransactionFlags)
        ensures
            r.bits == 0,
    {
        TransactionFlags { bits: 0 }
    }

    /// Whether no flag is set.
    pub fn is_empty(&self) -> (r: bool)
        ensures
            r == (self.bits == 0),
    {
        self.bits == 0
    }

    /// Whether all bits of `flag` are set.
    pub fn contains(&self, flag: u8) -> (r: bool)
        ensures
            r == self.has(flag),
    {
        self.bits & flag == flag
    }

    /// The raw bits.
    pub fn bits(&self) -> (r: u8)
        ensures
            r == self.bits,
    {
        self.bits
    }

    /// The flags that a byte sets; an error when it sets a bit outside the two defined flags.
    pub fn try_from(value: u8) -> (r: Result<TransactionFlags, TransactionFlagsConvertError>)
        ensures
            value <= 3 ==> r == Ok::<TransactionFlags, TransactionFlagsConvertError>(
                TransactionFlags { bits: value },
            ),
            value > 3 ==> r == Err::<TransactionFlags, TransactionFlagsConvertError>(
                TransactionFlagsConvertError(value),
            ),
    {
        if value <= 3 {
            Ok(TransactionFlags { bits: value })
        } else {
            Err(TransactionFlagsConvertError(value))
        }
    }
}

/// Why a transaction is rejected.
#[derive(Clone, Copy, Debug, PartialEq, Eq, Structural)]
pub enum TransactionError {
    ForeignNetwork,
    ZeroValue,
    Overflow,
    SenderEqualsRecipient,
    InvalidForSender,
    InvalidForRecipient,
    InvalidProof,
    InvalidSerialization,
}

/// The address of the staking contract, `00 .. 00 01`.
pub open spec fn staking_contract_address() -> Seq<u8> {
    Seq::new(20, |i: int| if i == 19 { 1u8 } else { 0u8 })
}

/// The address of the staking contract, `00 .. 00 01`.
pub fn staking_contract_address_value() -> (r: Address)
    ensures
        r@ == staking_contract_address(),
{
    let mut bytes = [0u8; 20];
    bytes[19] = 1;
    let r = Address(bytes);
    assert(r@ =~= staking_contract_address());
    r
}

/// A transaction.
#[derive(Debug)]
pub struct Transaction {
    pub sender: Address,
    pub sender_type: AccountType,
    pub sender_data: Vec<u8>,
    pub recipient: Address,
    pub recipient_type: AccountType,
    pub recipient_data: Vec<u8>,
    pub value: u64,
    pub fee: u64,
    pub validity_start_height: u32,
    pub network_id: NetworkId,
    pub flags: TransactionFlags,
    pub proof: Vec<u8>,
    /// Set once the transaction passed verification.
    pub valid: bool,
}

impl Transaction {
    /// Whether an earlier successful verification is recorded on the transaction.
    pub open spec fn verified(&self) -> bool {
        self.valid
    }

    /// The content that is signed and hashed, for a given recipient: the recipient data with a
    /// two-byte length (its length modulo 2^16), sender, sender kind, recipient, recipient kind,
    /// value, fee, validity start height, network and flags; on proof-of-stake networks the
    /// sender data follows, with its length in LEB128.
    pub open spec fn content_for(&self, recipient: Seq<u8>) -> Seq<u8> {
        u16_be((self.recipient_data@.len() % 65536) as u16) + self.recipient_data@ + self.sender@
            + seq![self.sender_type.code()] + recipient + seq![self.recipient_type.code()]
            + u64_be(self.value) + u64_be(self.fee) + u32_be(self.validity_start_height)
            + seq![self.network_id.code()] + seq![self.flags.bits] + if self.network_id.spec_is_albatross() {
            varint(self.sender_data@.len()) + self.sender_data@
        } else {
            Seq::<u8>::empty()
        }
    }

    /// The content that is signed and hashed.
    pub open spec fn content(&self) -> Seq<u8> {
        self.content_for(self.recipient@)
    }

    /// The address at which a contract-creating transaction creates its contract: the
    /// address of the digest of its content with an all-zero recipient.
    pub open spec fn creation_address(&self) -> Seq<u8> {
        Address::of_digest(blake2b_of(self.content_for(Seq::new(20, |_i: int| 0u8))))
    }

    /// The sender-side check, for every kind of sender account: the proof must parse, as an
    /// Ed25519 proof or else as a WebAuthn proof, lead to the sender's address and carry a
    /// valid signature of the content.
    pub open spec fn outgoing_outcome(&self) -> Result<(), TransactionError> {
        match parse_proof(self.proof@) {
            Some(p) => if signer_of(p) == self.sender@ && proof_verifies(p, self.content()) {
                Ok(())
            } else {
                Err(TransactionError::InvalidProof)
            },
            None => match parse_webauthn(self.proof@) {
                Some(w) => if webauthn_signer(w) == self.sender@ && webauthn_verifies(
                    w,
                    self.content(),
                ) {
                    Ok(())
                } else {
                    Err(TransactionError::InvalidProof)
                },
                None => Err(TransactionError::InvalidSerialization),
            },
        }
    }

    /// The recipient-side check of a basic account: it creates no contract and receives a
    /// non-zero value.
    pub open spec fn basic_incoming_outcome(&self) -> Result<(), TransactionError> {
        if self.flags.has(TransactionFlags::CONTRACT_CREATION) {
            Err(TransactionError::InvalidForRecipient)
        } else if self.value == 0 {
            Err(TransactionError::ZeroValue)
        } else {
            Ok(())
        }
    }

    /// The outcome of verifying the transaction for `network_id`, check by check.
    pub open spec fn verify_outcome(&self, network_id: NetworkId) -> Result<(), TransactionError> {
        if self.recipient@ == staking_contract_address() && self.recipient_type
            != AccountType::Staking {
            Err(TransactionError::InvalidForRecipient)
        } else if self.sender@ == staking_contract_address() && self.sender_type
            != AccountType::Staking {
            Err(TransactionError::InvalidForSender)
        } else if self.sender@ == self.recipient@ {
            Err(TransactionError::SenderEqualsRecipient)
        } else if self.network_id != network_id {
            Err(TransactionError::ForeignNetwork)
        } else if self.flags.has(TransactionFlags::SIGNALING) && self.value != 0 {
            Err(TransactionError::InvalidForRecipient)
        } else if !self.flags.has(TransactionFlags::SIGNALING) && self.value == 0 {
            Err(TransactionError::ZeroValue)
        } else if self.value + self.fee > Policy::TOTAL_SUPPLY {
            Err(TransactionError::Overflow)
        } else if self.outgoing_outcome().is_err() {
            self.outgoing_outcome()
        } else if self.recipient_type == AccountType::Basic
            && self.basic_incoming_outcome().is_err() {
            self.basic_incoming_outcome()
        } else {
            Ok(())
        }
    }

    /// A basic transfer between two basic accounts.
    pub fn new_basic(
        sender: Address,
        recipient: Address,
        value: u64,
        fee: u64,
        validity_start_height: u32,
        network_id: NetworkId,
    ) -> (r: Transaction)
        ensures
            r.sender == sender,
            r.sender_type == AccountType::Basic,
            r.sender_data@.len() == 0,
            r.recipient == recipient,
            r.recipient_type == AccountType::Basic,
            r.recipient_data@.len() == 0,
            r.value == value,
            r.fee == fee,
            r.validity_start_height == validity_start_height,
            r.network_id == network_id,
            r.flags.bits == 0,
            r.proof@.len() == 0,
            !r.verified(),
    {
        Transaction {
            sender,
            sender_type: AccountType::Basic,
            sender_data: Vec::new(),
            recipient,
            recipient_type: AccountType::Basic,
            recipient_data: Vec::new(),
            value,
            fee,
            validity_start_height,
            network_id,
            flags: TransactionFlags::empty(),
            proof: Vec::new(),
            valid: false,
        }
    }

    /// A transaction with explicit account kinds and data.
    pub fn new_extended(
        sender: Address,
        sender_type: AccountType,
        sender_data: Vec<u8>,
        recipient: Address,
        recipient_type: AccountType,
        recipient_data: Vec<u8>,
        value: u64,
        fee: u64,
        validity_start_height: u32,
        network_id: NetworkId,
    ) -> (r: Transaction)
        ensures
            r.sender == sender,
            r.sender_type == sender_type,
            r.sender_data@ == sender_data@,
            r.recipient == recipient,
            r.recipient_type == recipient_type,
            r.recipient_data@ == recipient_data@,
            r.value == value,
            r.fee == fee,
            r.validity_start_height == validity_start_height,
            r.network_id == network_id,
            r.flags.bits == 0,
            r.proof@.len() == 0,
            !r.verified(),
    {
        Transaction {
            sender,
            sender_type,
            sender_data,
            recipient,
            recipient_type,
            recipient_data,
            value,
            fee,
            validity_start_height,
            network_id,
            flags: TransactionFlags::empty(),
            proof: Vec::new(),
            valid: false,
        }
    }

    /// A signaling transaction: it moves no value and carries data for the recipient.
    pub fn new_signaling(
        sender: Address,
        sender_type: AccountType,
        recipient: Address,
        recipient_type: AccountType,
        fee: u64,
        recipient_data: Vec<u8>,
        validity_start_height: u32,
        network_id: NetworkId,
    ) -> (r: Transaction)
        ensures
            r.sender == sender,
            r.sender_type == sender_type,
            r.sender_data@.len() == 0,
            r.recipient == recipient,
            r.recipient_type == recipient_type,
            r.recipient_data@ == recipient_data@,
            r.value == 0,
            r.fee == fee,
            r.validity_start_height == validity_start_height,
            r.network_id == network_id,
            r.flags.bits == TransactionFlags::SIGNALING,
            r.proof@.len() == 0,
            !r.verified(),
    {
        Transaction {
            sender,
            sender_type,
            sender_data: Vec::new(),
            recipient,
            recipient_type,
            recipient_data,
            value: 0,
            fee,
            validity_start_height,
            network_id,
            flags: TransactionFlags { bits: TransactionFlags::SIGNALING },
            proof: Vec::new(),
            valid: false,
        }
    }

    /// A contract-creating transaction; its recipient is the creation address.
    pub fn new_contract_creation(
        sender: Address,
        sender_type: AccountType,
        sender_data: Vec<u8>,
        recipient_type: AccountType,
        recipient_data: Vec<u8>,
        value: u64,
        fee: u64,
        validity_start_height: u32,
        network_id: NetworkId,
    ) -> (r: Transaction)
        ensures
            r.sender == sender,
            r.sender_type == sender_type,
            r.sender_data@ == sender_data@,
            r.recipient@ == r.creation_address(),
            r.recipient_type == recipient_type,
            r.recipient_data@ == recipient_data@,
            r.value == value,
            r.fee == fee,
            r.validity_start_height == validity_start_height,
            r.network_id == network_id,
            r.flags.bits == TransactionFlags::CONTRACT_CREATION,
            r.proof@.len() == 0,
            !r.verified(),
    {
        let mut tx = Transaction {
            sender,
            sender_type,
            sender_data,
            recipient: Address::zero(),
            recipient_type,
            recipient_data,
            value,
            fee,
            validity_start_height,
            network_id,
            flags: TransactionFlags { bits: TransactionFlags::CONTRACT_CREATION },
            proof: Vec::new(),
            valid: false,
        };
        tx.recipient = tx.contract_creation_address();
        tx
    }

    /// The content for a given recipient.
    fn serialize_content_for(&self, recipient: &Address) -> (r: Vec<u8>)
        ensures
            r@ == self.content_for(recipient@),
    {
        let mut res: Vec<u8> = Vec::new();
        push_u16_be(&mut res, (self.recipient_data.len() % 65536) as u16);
        push_bytes(&mut res, self.recipient_data.as_slice());
        push_bytes(&mut res, &self.sender.0);
        res.push(self.sender_type.to_u8());
        push_bytes(&mut res, &recipient.0);
        res.push(self.recipient_type.to_u8());
        push_u64_be(&mut res, self.value);
        push_u64_be(&mut res, self.fee);
        push_u32_be(&mut res, self.validity_start_height);
        res.push(self.network_id.to_u8());
        res.push(self.flags.bits);
        let ghost head = res@;
        if self.network_id.is_albatross() {
            push_varint(&mut res, self.sender_data.len());
            push_bytes(&mut res, self.sender_data.as_slice());
        }
        assert(res@ =~= self.content_for(recipient@));
        res
    }

    /// The bytes that are signed and hashed.
    pub fn serialize_content(&self) -> (r: Vec<u8>)
        ensures
            r@ == self.content(),
    {
        self.serialize_content_for(&self.recipient)
    }

    /// The digest of the content.
    pub fn hash(&self) -> (r: Blake2bHash)
        ensures
            r@ == blake2b_of(self.content()),
    {
        let content = self.serialize_content();
        blake2b(content.as_slice())
    }

    /// The address at which this transaction would create a contract.
    pub fn contract_creation_address(&self) -> (r: Address)
        ensures
            r@ == self.creation_address(),
    {
        let zero = Address::zero();
        let content = self.serialize_content_for(&zero);
        Address::from_hash(&blake2b(content.as_slice()))
    }

    /// Whether the transaction has the basic format: both accounts are basic, there is no data
    /// and no flag, and the proof is a single signature by the key whose address is the sender.
    pub open spec fn is_basic_format(&self) -> bool {
        &&& self.sender_type == AccountType::Basic
        &&& self.recipient_type == AccountType::Basic
        &&& self.recipient_data@.len() == 0
        &&& self.sender_data@.len() == 0
        &&& self.flags.bits == 0
        &&& parse_proof(self.proof@) is Some
        &&& parse_proof(self.proof@).unwrap().1.len() == 0
        &&& self.sender@ == crate::keys::address_of(parse_proof(self.proof@).unwrap().0)
    }

    /// The format the transaction serializes in.
    pub fn format(&self) -> (r: TransactionFormat)
        ensures
            r == (if self.is_basic_format() {
                TransactionFormat::Basic
            } else {
                TransactionFormat::Extended
            }),
    {
        if self.sender_type == AccountType::Basic && self.recipient_type == AccountType::Basic
            && self.recipient_data.len() == 0 && self.sender_data.len() == 0
            && self.flags.is_empty() {
            if let Some(signature_proof) = EdDSASignatureProof::deserialize_from_vec(
                self.proof.as_slice(),
            ) {
                if self.sender == signature_proof.public_key.to_address()
                    && signature_proof.merkle_path.is_empty() {
                    return TransactionFormat::Basic;
                }
            }
        }
        TransactionFormat::Extended
    }

    /// Verifies the transaction and records success on it.
    pub fn verify_mut(&mut self, network_id: NetworkId) -> (r: Result<(), TransactionError>)
        ensures
            old(self).verified() ==> r is Ok,
            !old(self).verified() ==> r == old(self).verify_outcome(network_id),
            final(self).verified() == (old(self).verified() || r is Ok),
            final(self).content() == old(self).content(),
            final(self).proof == old(self).proof,
    {
        let ret = self.verify(network_id);
        if ret.is_ok() {
            self.valid = true;
        }
        ret
    }

    /// Checks the transaction for `network_id`: staking-contract address kinds, distinct
    /// sender and recipient, network, value against the signaling flag, value plus fee within
    /// the total supply, the sender's signature proof over the content, and the basic-account
    /// rules on the recipient side. A transaction that was
    /// verified before passes at once.
    pub fn verify(&self, network_id: NetworkId) -> (r: Result<(), TransactionError>)
        ensures
            self.verified() ==> r is Ok,
            !self.verified() ==> r == self.verify_outcome(network_id),
    {
        if self.valid {
            return Ok(());
        }
        let staking = staking_contract_address_value();
        if self.recipient == staking && self.recipient_type != AccountType::Staking {
            return Err(TransactionError::InvalidForRecipient);
        }
        if self.sender == staking && self.sender_type != AccountType::Staking {
            return Err(TransactionError::InvalidForSender);
        }
        if self.sender == self.recipient {
            return Err(TransactionError::SenderEqualsRecipient);
        }
        if self.network_id != network_id {
            return Err(TransactionError::ForeignNetwork);
        }
        if self.flags.contains(TransactionFlags::SIGNALING) {
            if self.value != 0 {
                return Err(TransactionError::InvalidForRecipient);
            }
        } else if self.value == 0 {
            return Err(TransactionError::ZeroValue);
        }
        match self.value.checked_add(self.fee) {
            Some(total) => {
                if total > Policy::TOTAL_SUPPLY {
                    return Err(TransactionError::Overflow);
                }
            },
            None => return Err(TransactionError::Overflow),
        }
        AccountType::verify_outgoing_transaction(self)?;
        AccountType::verify_incoming_transaction(self)?;
        Ok(())
    }

    /// Records the verification of an identical transaction: when `tx` was verified and has
    /// the same digest, this one counts as verified too.
    pub fn check_set_valid(&mut self, tx: &Transaction)
        ensures
            final(self).verified() == (old(self).verified() || (tx.verified()
                && blake2b_of(old(self).content()) == blake2b_of(tx.content()))),
            final(self).content() == old(self).content(),
            final(self).proof == old(self).proof,
    {
        if tx.valid && self.hash() == tx.hash() {
            self.valid = true;
        }
    }

    /// Whether the transaction may be included in the block at `block_height`: from `B`
    /// blocks before its validity start height up to, excluding, the end of the window.
    pub fn is_valid_at(&self, block_height: u32, policy: &Policy) -> (r: bool)
        ensures
            r == (block_height >= if self.validity_start_height >= policy.blocks_per_batch {
                self.validity_start_height - policy.blocks_per_batch
            } else {
                0
            } && block_height < self.validity_start_height
                + policy.transaction_validity_window),
    {
        let window = policy.transaction_validity_window() as u64;
        block_height >= self.validity_start_height.saturating_sub(policy.blocks_per_batch())
            && (block_height as u64) < self.validity_start_height as u64 + window
    }

    /// Value plus fee, saturated at `u64::MAX`.
    pub fn total_value(&self) -> (r: u64)
        ensures
            r == if self.value + self.fee <= u64::MAX {
                (self.value + self.fee) as u64
            } else {
                u64::MAX
            },
    {
        self.value.saturating_add(self.fee)
    }

    /// The sender's address.
    pub fn sender(&self) -> (r: &Address)
        ensures
            r == self.sender,
    {
        &self.sender
    }

    /// The recipient's address.
    pub fn recipient(&self) -> (r: &Address)
        ensures
            r == self.recipient,
    {
        &self.recipient
    }
}

/// The checks of `verify` that do not look at signatures: staking-contract kinds, distinct
/// accounts, network, value and total, and the recipient-side rules.
pub open spec fn passes_checks_but_signature(tx: &Transaction, network_id: NetworkId) -> bool {
    &&& !(tx.recipient@ == staking_contract_address() && tx.recipient_type != AccountType::Staking)
    &&& !(tx.sender@ == staking_contract_address() && tx.sender_type != AccountType::Staking)
    &&& tx.sender@ != tx.recipient@
    &&& tx.network_id == network_id
    &&& tx.flags.has(TransactionFlags::SIGNALING) ==> tx.value == 0
    &&& !tx.flags.has(TransactionFlags::SIGNALING) ==> tx.value != 0
    &&& tx.value + tx.fee <= Policy::TOTAL_SUPPLY
    &&& tx.recipient_type == AccountType::Basic ==> tx.basic_incoming_outcome() is Ok
}

/// A transaction whose proof names the signer `signer_of(p)` verifies exactly when the sender is that signer and the signature is valid for the transaction's
/// content (given that the checks that do not look at signatures pass, and that it was not
/// verified before).
pub proof fn lemma_verify_iff_signed_by_sender(tx: &Transaction, network_id: NetworkId)
    requires
        parse_proof(tx.proof@) is Some,
        passes_checks_but_signature(tx, network_id),
    ensures
        ({
            let p = parse_proof(tx.proof@).unwrap();
            (tx.verify_outcome(network_id) is Ok) == (tx.sender@ == signer_of(p) && proof_verifies(
                p,
                tx.content(),
            ))
        }),
{
}

/// A transaction with the outcome of its execution; a failed one only paid its fee.
#[derive(Debug)]
pub enum ExecutedTransaction {
    Succeeded(Transaction),
    Failed(Transaction),
}

impl ExecutedTransaction {
    /// The transaction, whatever the outcome.
    pub fn get_raw_transaction(&self) -> (r: &Transaction)
        ensures
            r == match self {
                ExecutedTransaction::Succeeded(t) => t,
                ExecutedTransaction::Failed(t) => t,
            },
    {
        match self {
            ExecutedTransaction::Succeeded(txn) => txn,
            ExecutedTransaction::Failed(txn) => txn,
        }
    }

    /// Whether the execution failed.
    pub fn failed(&self) -> (r: bool)
        ensures
            r == self is Failed,
    {
        match self {
            ExecutedTransaction::Succeeded(_) => false,
            ExecutedTransaction::Failed(..) => true,
        }
    }

    /// Whether the execution succeeded.
    pub fn succeeded(&self) -> (r: bool)
        ensures
            r == self is Succeeded,
    {
        match self {
            ExecutedTransaction::Succeeded(_) => true,
            ExecutedTransaction::Failed(..) => false,
        }
    }

    /// The digest of the transaction, which does not depend on the outcome.
    pub fn hash(&self) -> (r: Blake2bHash)
        ensures
            r@ == blake2b_of(
                match self {
                    ExecutedTransaction::Succeeded(t) => t.content(),
                    ExecutedTransaction::Failed(t) => t.content(),
                },
            ),
    {
        match self {
            ExecutedTransaction::Succeeded(txn) => txn.hash(),
            ExecutedTransaction::Failed(txn) => txn.hash(),
        }
    }
}

impl KeyPair {
    /// Signs a transaction's content and sets a single-signature proof of this key on it.
    pub fn sign_transaction(&self, transaction: &mut Transaction)
        ensures
            final(transaction).proof@ == proof_bytes(
                (
                    self.public@,
                    Seq::<NodeView>::empty(),
                    ed25519_signature_of(self.private@, old(transaction).content()),
                ),
            ),
            final(transaction).content() == old(transaction).content(),
            final(transaction).valid == old(transaction).valid,
    {
        let content = transaction.serialize_content();
        let signature = self.sign(content.as_slice());
        let proof = EdDSASignatureProof::from(self.public_key(), signature);
        proof {
            assert forall|i: int| 0 <= i < proof@.1.len() implies (#[trigger] proof@.1[i]).1.len()
                == 32 by {}
        }
        transaction.proof = proof.serialize_to_vec();
    }
}

/// The lexicographic order of two byte strings.
pub open spec fn lex_order(a: Seq<u8>, b: Seq<u8>) -> std::cmp::Ordering
    decreases a.len(),
{
    if a.len() == 0 && b.len() == 0 {
        std::cmp::Ordering::Equal
    } else if a.len() == 0 {
        std::cmp::Ordering::Less
    } else if b.len() == 0 {
        std::cmp::Ordering::Greater
    } else if a[0] < b[0] {
        std::cmp::Ordering::Less
    } else if a[0] > b[0] {
        std::cmp::Ordering::Greater
    } else {
        lex_order(a.drop_first(), b.drop_first())
    }
}

/// The order of two integers.
pub open spec fn int_order(a: int, b: int) -> std::cmp::Ordering {
    if a < b {
        std::cmp::Ordering::Less
    } else if a > b {
        std::cmp::Ordering::Greater
    } else {
        std::cmp::Ordering::Equal
    }
}

/// The first order of a list that is not `Equal`, or `Equal`.
pub open spec fn first_decisive(steps: Seq<std::cmp::Ordering>) -> std::cmp::Ordering
    decreases steps.len(),
{
    if steps.len() == 0 {
        std::cmp::Ordering::Equal
    } else if steps[0] != std::cmp::Ordering::Equal {
        steps[0]
    } else {
        first_decisive(steps.drop_first())
    }
}

/// The lexicographic order of two byte strings.
pub fn lex_cmp(a: &[u8], b: &[u8]) -> (r: std::cmp::Ordering)
    ensures
        r == lex_order(a@, b@),
{
    let mut i: usize = 0;
    assert(a@.subrange(0, a@.len() as int) =~= a@);
    assert(b@.subrange(0, b@.len() as int) =~= b@);
    while i < a.len() && i < b.len()
        invariant
            0 <= i <= a@.len(),
            i <= b@.len(),
            lex_order(a@, b@) == lex_order(a@.subrange(i as int, a@.len() as int), b@.subrange(
                i as int,
                b@.len() as int,
            )),
        decreases a@.len() - i,
    {
        let ghost sa = a@.subrange(i as int, a@.len() as int);
        let ghost sb = b@.subrange(i as int, b@.len() as int);
        if a[i] < b[i] {
            return std::cmp::Ordering::Less;
        }
        if a[i] > b[i] {
            return std::cmp::Ordering::Greater;
        }
        proof {
            assert(sa.drop_first() =~= a@.subrange(i + 1, a@.len() as int));
            assert(sb.drop_first() =~= b@.subrange(i + 1, b@.len() as int));
        }
        i += 1;
    }
    if i < a.len() {
        std::cmp::Ordering::Greater
    } else if i < b.len() {
        std::cmp::Ordering::Less
    } else {
        std::cmp::Ordering::Equal
    }
}

fn is_equal(o: std::cmp::Ordering) -> (r: bool)
    ensures
        r == (o == std::cmp::Ordering::Equal),
{
    match o {
        std::cmp::Ordering::Equal => true,
        _ => false,
    }
}

fn num_cmp(a: u64, b: u64) -> (r: std::cmp::Ordering)
    ensures
        r == int_order(a as int, b as int),
{
    if a < b {
        std::cmp::Ordering::Less
    } else if a > b {
        std::cmp::Ordering::Greater
    } else {
        std::cmp::Ordering::Equal
    }
}

/// The priority order of transactions: by recipient, validity start height, higher fee
/// first, higher value first, sender, recipient kind, sender kind, flags, then recipient data
/// and sender data, each by length first and then by bytes.
pub open spec fn priority_order(a: &Transaction, b: &Transaction) -> std::cmp::Ordering {
    let steps = seq![
        lex_order(a.recipient@, b.recipient@),
        int_order(a.validity_start_height as int, b.validity_start_height as int),
        int_order(b.fee as int, a.fee as int),
        int_order(b.value as int, a.value as int),
        lex_order(a.sender@, b.sender@),
        int_order(a.recipient_type.code() as int, b.recipient_type.code() as int),
        int_order(a.sender_type.code() as int, b.sender_type.code() as int),
        int_order(a.flags.bits as int, b.flags.bits as int),
        int_order(a.recipient_data@.len() as int, b.recipient_data@.len() as int),
        lex_order(a.recipient_data@, b.recipient_data@),
        int_order(a.sender_data@.len() as int, b.sender_data@.len() as int),
        lex_order(a.sender_data@, b.sender_data@),
    ];
    first_decisive(steps)
}

impl Transaction {
    /// Compares two transactions by their priority order.
    pub fn cmp(&self, other: &Transaction) -> (r: std::cmp::Ordering)
        ensures
            r == priority_order(self, other),
    {
        proof {
            reveal_with_fuel(first_decisive, 13);
        }
        let o = lex_cmp(&self.recipient.0, &other.recipient.0);
        if !is_equal(o) {
            return o;
        }
        let o = num_cmp(self.validity_start_height as u64, other.validity_start_height as u64);
        if !is_equal(o) {
            return o;
        }
        let o = num_cmp(other.fee, self.fee);
        if !is_equal(o) {
            return o;
        }
        let o = num_cmp(other.value, self.value);
        if !is_equal(o) {
            return o;
        }
        let o = lex_cmp(&self.sender.0, &other.sender.0);
        if !is_equal(o) {
            return o;
        }
        let o = num_cmp(self.recipient_type.to_u8() as u64, other.recipient_type.to_u8() as u64);
        if !is_equal(o) {
            return o;
        }
        let o = num_cmp(self.sender_type.to_u8() as u64, other.sender_type.to_u8() as u64);
        if !is_equal(o) {
            return o;
        }
        let o = num_cmp(self.flags.bits as u64, other.flags.bits as u64);
        if !is_equal(o) {
            return o;
        }
        let o = num_cmp(self.recipient_data.len() as u64, other.recipient_data.len() as u64);
        if !is_equal(o) {
            return o;
        }
        let o = lex_cmp(self.recipient_data.as_slice(), other.recipient_data.as_slice());
        if !is_equal(o) {
            return o;
        }
        let o = num_cmp(self.sender_data.len() as u64, other.sender_data.len() as u64);
        if !is_equal(o) {
            return o;
        }
        lex_cmp(self.sender_data.as_slice(), other.sender_data.as_slice())
    }
}

/// Two transactions are equal when all their fields but the proof (and the verification mark)
/// are.
pub open spec fn same_transaction(a: &Transaction, b: &Transaction) -> bool {
    &&& a.sender@ == b.sender@
    &&& a.sender_type == b.sender_type
    &&& a.recipient@ == b.recipient@
    &&& a.recipient_type == b.recipient_type
    &&& a.value == b.value
    &&& a.fee == b.fee
    &&& a.validity_start_height == b.validity_start_height
    &&& a.network_id == b.network_id
    &&& a.flags == b.flags
    &&& a.recipient_data@ == b.recipient_data@
    &&& a.sender_data@ == b.sender_data@
}

impl PartialEq for Transaction {
    fn eq(&self, other: &Transaction) -> (r: bool) {
        self.sender == other.sender && self.sender_type == other.sender_type && self.recipient
            == other.recipient && self.recipient_type == other.recipient_type && self.value
            == other.value && self.fee == other.fee && self.validity_start_height
            == other.validity_start_height && self.network_id == other.network_id && self.flags
            == other.flags && bytes_equal(self.recipient_data.as_slice(), other.recipient_data.as_slice())
            && bytes_equal(self.sender_data.as_slice(), other.sender_data.as_slice())
    }
}

impl vstd::std_specs::cmp::PartialEqSpecImpl for Transaction {
    open spec fn obeys_eq_spec() -> bool {
        true
    }

    open spec fn eq_spec(&self, other: &Transaction) -> bool {
        same_transaction(self, other)
    }
}

/// A transaction whose proof is a WebAuthn proof (and no Ed25519 proof) verifies exactly when
/// the sender is the proof's signer and the signature is valid for the transaction's content
/// (given that the checks that do not look at signatures pass).
pub proof fn lemma_verify_iff_webauthn_signed_by_sender(tx: &Transaction, network_id: NetworkId)
    requires
        parse_proof(tx.proof@) is None,
        parse_webauthn(tx.proof@) is Some,
        passes_checks_but_signature(tx, network_id),
    ensures
        ({
            let w = parse_webauthn(tx.proof@).unwrap();
            (tx.verify_outcome(network_id) is Ok) == (tx.sender@ == webauthn_signer(w)
                && webauthn_verifies(w, tx.content()))
        }),
{
}

impl AccountType {
    /// The sender-side rules: whatever the sender's account kind, the proof must be a valid
    /// Ed25519 or WebAuthn signature proof of the content by the sender.
    pub fn verify_outgoing_transaction(transaction: &Transaction) -> (r: Result<(), TransactionError>)
        ensures
            r == transaction.outgoing_outcome(),
    {
        let content = transaction.serialize_content();
        match EdDSASignatureProof::deserialize_from_vec(transaction.proof.as_slice()) {
            Some(proof) => {
                if proof.is_signed_by(&transaction.sender) && proof.verify(content.as_slice()) {
                    Ok(())
                } else {
                    Err(TransactionError::InvalidProof)
                }
            },
            None => match WebauthnSignatureProof::deserialize_from_vec(transaction.proof.as_slice()) {
                Some(proof) => {
                    if proof.is_signed_by(&transaction.sender) && proof.verify(content.as_slice()) {
                        Ok(())
                    } else {
                        Err(TransactionError::InvalidProof)
                    }
                },
                None => Err(TransactionError::InvalidSerialization),
            },
        }
    }

    /// The recipient-side rules of the recipient's account kind; only basic accounts have
    /// rules here: they create no contract and receive a non-zero value.
    pub fn verify_incoming_transaction(transaction: &Transaction) -> (r: Result<(), TransactionError>)
        ensures
            r == if transaction.recipient_type == AccountType::Basic {
                transaction.basic_incoming_outcome()
            } else {
                Ok(())
            },
    {
        if transaction.recipient_type != AccountType::Basic {
            return Ok(());
        }
        if transaction.flags.contains(TransactionFlags::CONTRACT_CREATION) {
            Err(TransactionError::InvalidForRecipient)
        } else if transaction.value == 0 {
            Err(TransactionError::ZeroValue)
        } else {
            Ok(())
        }
    }
}

} // verus!
