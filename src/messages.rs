//! The request/response messages of the consensus protocol, each with its type tag and the
//! number of requests a peer may have in flight.

use vstd::prelude::*;

use crate::primitives::{Address, Blake2bHash};

verus! {

/// The max number of MacroChain requests per peer.
pub const MAX_REQUEST_RESPONSE_MACRO_CHAIN: u32 = 1000;
/// The max number of BatchSet requests per peer.
pub const MAX_REQUEST_RESPONSE_BATCH_SET: u32 = 1000;
/// The max number of HistoryChunk requests per peer.
pub const MAX_REQUEST_RESPONSE_HISTORY_CHUNK: u32 = 1000;
/// The max number of RequestBlock requests per peer.
pub const MAX_REQUEST_RESPONSE_BLOCK: u32 = 1000;
/// The max number of MissingBlocks requests per peer.
pub const MAX_REQUEST_RESPONSE_MISSING_BLOCKS: u32 = 1000;
/// The max number of RequestHead requests per peer.
pub const MAX_REQUEST_RESPONSE_HEAD: u32 = 1000;
/// The max number of transactions proof requests per peer.
pub const MAX_REQUEST_TRANSACTIONS_PROOF: u32 = 1000;
/// The max number of transactions-by-address requests per peer.
pub const MAX_REQUEST_TRANSACTIONS_BY_ADDRESS: u32 = 1000;
/// The max number of trie proof requests per peer.
pub const MAX_REQUEST_TRIE_PROOF: u32 = 1000;
/// The max number of block proof requests per peer.
pub const MAX_REQUEST_BLOCKS_PROOF: u32 = 1000;
/// The max number of subscribe-to-address requests per peer.
pub const MAX_REQUEST_SUBSCRIBE_BY_ADDRESS: u32 = 10;
/// The max number of address notifications per peer.
pub const MAX_ADDRESS_NOTIFICATIONS: u32 = 100;

/// A checkpoint macro block by number and hash.
#[derive(Clone, Copy, Debug)]
pub struct Checkpoint {
    pub block_number: u32,
    pub hash: Blake2bHash,
}

/// The election block hashes of a macro chain, with an optional later checkpoint.
#[derive(Clone, Debug)]
pub struct MacroChain {
    pub epochs: Vec<Blake2bHash>,
    pub checkpoint: Option<Checkpoint>,
}

#[derive(Clone, Copy, Debug, PartialEq, Eq, Structural)]
pub enum MacroChainError {
    UnknownLocators,
    Other,
}

/// Asks for the macro chain after the first known locator.
#[derive(Clone, Debug)]
pub struct RequestMacroChain {
    pub locators: Vec<Blake2bHash>,
    pub max_epochs: u16,
}

impl RequestMacroChain {
    pub const TYPE_ID: u16 = 200;
    pub const MAX_REQUESTS: u32 = MAX_REQUEST_RESPONSE_MACRO_CHAIN;
}

/// Asks for the batch set of an election block.
#[derive(Clone, Copy, Debug)]
pub struct RequestBatchSet {
    pub hash: Blake2bHash,
}

impl RequestBatchSet {
    pub const TYPE_ID: u16 = 202;
    pub const MAX_REQUESTS: u32 = MAX_REQUEST_RESPONSE_BATCH_SET;
}

#[derive(Clone, Copy, Debug, PartialEq, Eq, Structural)]
pub enum BatchSetError {
    TargetHashNotFound,
    Other,
}

/// Asks for one chunk of an epoch's history, as of a block.
#[derive(Clone, Copy, Debug, PartialEq, Eq, Structural)]
pub struct RequestHistoryChunk {
    pub epoch_number: u32,
    pub block_number: u32,
    pub chunk_index: u64,
}

impl RequestHistoryChunk {
    pub const TYPE_ID: u16 = 204;
    pub const MAX_REQUESTS: u32 = MAX_REQUEST_RESPONSE_HISTORY_CHUNK;
}

#[derive(Clone, Copy, Debug, PartialEq, Eq, Structural)]
pub enum HistoryChunkError {
    CouldntProduceProof,
    Other,
}

/// Asks for a block by hash.
#[derive(Clone, Copy, Debug)]
pub struct RequestBlock {
    pub hash: Blake2bHash,
    pub include_micro_bodies: bool,
}

impl RequestBlock {
    pub const TYPE_ID: u16 = 207;
    pub const MAX_REQUESTS: u32 = MAX_REQUEST_RESPONSE_BLOCK;
}

#[derive(Clone, Copy, Debug, PartialEq, Eq, Structural)]
pub enum BlockError {
    TargetHashNotFound,
    Other,
}

#[derive(Clone, Copy, Debug, PartialEq, Eq, Structural)]
pub enum ResponseBlocksError {
    TargetBlockNotOnMainChain,
    TargetHashNotFound,
    UnknownLocators,
    FailedToGetBlocks,
    Other,
}

/// Asks for the blocks between the first known locator and a target block.
#[derive(Clone, Debug)]
pub struct RequestMissingBlocks {
    pub target_hash: Blake2bHash,
    pub include_micro_bodies: bool,
    pub locators: Vec<Blake2bHash>,
}

impl RequestMissingBlocks {
    pub const TYPE_ID: u16 = 209;
    pub const MAX_REQUESTS: u32 = MAX_REQUEST_RESPONSE_MISSING_BLOCKS;
}

/// Asks for the hash of the head block.
#[derive(Clone, Copy, Debug, PartialEq, Eq, Structural)]
pub struct RequestHead {}

impl RequestHead {
    pub const TYPE_ID: u16 = 210;
    pub const MAX_REQUESTS: u32 = MAX_REQUEST_RESPONSE_HEAD;
}

#[derive(Clone, Copy, Debug, PartialEq, Eq, Structural)]
pub enum ResponseTransactionProofError {
    NoTransactionsProvided,
    /// The requested block number and the current head.
    RequestedTxnProofFromFuture(u32, u32),
    RequestedTxnProofFromFinalizedEpoch(u32),
    RequestedTxnProofFromFinalizedBatch(u32),
    BlockNotFound,
    CouldntProveInclusion,
    TransactionNotFound,
    Other,
}

/// Asks for inclusion proofs of transactions.
#[derive(Clone, Debug)]
pub struct RequestTransactionsProof {
    pub hashes: Vec<Blake2bHash>,
    pub block_number: Option<u32>,
}

impl RequestTransactionsProof {
    pub const TYPE_ID: u16 = 213;
    pub const MAX_REQUESTS: u32 = MAX_REQUEST_TRANSACTIONS_PROOF;
}

/// Asks for the receipts of the transactions of an address.
#[derive(Clone, Copy, Debug)]
pub struct RequestTransactionReceiptsByAddress {
    pub address: Address,
    pub max: Option<u16>,
}

impl RequestTransactionReceiptsByAddress {
    pub const TYPE_ID: u16 = 214;
    pub const MAX_REQUESTS: u32 = MAX_REQUEST_TRANSACTIONS_BY_ADDRESS;
}

/// Pairs of transaction hash and block number.
#[derive(Clone, Debug)]
pub struct ResponseTransactionReceiptsByAddress {
    pub receipts: Vec<(Blake2bHash, u32)>,
}

#[derive(Clone, Copy, Debug, PartialEq, Eq, Structural)]
pub enum ResponseTrieProofError {
    IncompleteTrie,
    Other,
}

/// Asks for a proof that blocks belong to the chain of an election head.
#[derive(Clone, Debug)]
pub struct RequestBlocksProof {
    pub election_head: u32,
    pub blocks: Vec<u32>,
}

impl RequestBlocksProof {
    pub const TYPE_ID: u16 = 216;
    pub const MAX_REQUESTS: u32 = MAX_REQUEST_BLOCKS_PROOF;
}

/// Operations of the address subscription.
#[derive(Clone, Copy, Debug, PartialEq, Eq, Structural)]
pub enum AddressSubscriptionOperation {
    /// Start receiving notifications about the addresses.
    Subscribe,
    /// Stop receiving notifications about the addresses.
    Unsubscribe,
}

/// Subscribes to, or unsubscribes from, addresses.
#[derive(Clone, Debug)]
pub struct RequestSubscribeToAddress {
    pub operation: AddressSubscriptionOperation,
    pub addresses: Vec<Address>,
}

impl RequestSubscribeToAddress {
    pub const TYPE_ID: u16 = 217;
    pub const MAX_REQUESTS: u32 = MAX_REQUEST_SUBSCRIBE_BY_ADDRESS;
}

/// Events that generate address notifications.
#[derive(Clone, Copy, Debug, PartialEq, Eq, Structural)]
pub enum NotificationEvent {
    /// A new block was pushed into the chain.
    BlockchainExtend,
}

/// Receipts that may interest a subscribed peer.
#[derive(Clone, Debug)]
pub struct AddressNotification {
    pub event: NotificationEvent,
    pub receipts: Vec<(Blake2bHash, u32)>,
}

/// The topic of address notifications; each peer gets a subtopic of its own.
#[derive(Clone, Copy, Debug, Default)]
pub struct AddressSubscriptionTopic;

impl AddressSubscriptionTopic {
    pub const BUFFER_SIZE: usize = 1024;
    pub const NAME: &'static str = "AddressNotification";
    pub const VALIDATE: bool = false;
}

} // verus!
