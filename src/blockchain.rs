//! The light block pipeline: how a node that keeps only macro blocks accepts an election block
//! proven by a zero-knowledge proof, or a macro block that succeeds its macro head, and which
//! events it emits.

use vstd::prelude::*;

use crate::policy::Policy;
use crate::primitives::{bytes_equal, Blake2bHash};
use crate::transaction::{lex_cmp, lex_order};

verus! {

/// Switches for a deliberately misbehaving node, used to test the network's defences.
#[derive(Clone, Copy, Debug, PartialEq, Eq, Structural)]
pub struct TaintedBlockchainConfig {
    /// Produce blocks even when it is not our turn.
    pub always_produce: bool,
    /// Produce two different blocks at the same height.
    pub fork_blocks: bool,
    /// Produce invalid blocks.
    pub invalid_blocks: bool,
    /// Tainted voting key.
    pub tainted_voting_key: bool,
    /// Tainted signing key.
    pub tainted_signing_key: bool,
    /// Tainted request macro chain.
    pub tainted_request_macro_chain: bool,
    /// Tainted request batch set.
    pub tainted_request_batch_set: bool,
    /// Tainted request history chunk.
    pub tainted_request_history_chunk: bool,
    /// Tainted request block.
    pub tainted_request_block: bool,
    /// Tainted request missing blocks.
    pub tainted_request_missing_blocks: bool,
    /// Tainted request head.
    pub tainted_request_head: bool,
}

impl Default for TaintedBlockchainConfig {
    /// An honest node: every switch off.
    fn default() -> (r: Self)
        ensures
            r == (TaintedBlockchainConfig {
                always_produce: false,
                fork_blocks: false,
                invalid_blocks: false,
                tainted_voting_key: false,
                tainted_signing_key: false,
                tainted_request_macro_chain: false,
                tainted_request_batch_set: false,
                tainted_request_history_chunk: false,
                tainted_request_block: false,
                tainted_request_missing_blocks: false,
                tainted_request_head: false,
            }),
    {
        TaintedBlockchainConfig {
            always_produce: false,
            fork_blocks: false,
            invalid_blocks: false,
            tainted_voting_key: false,
            tainted_signing_key: false,
            tainted_request_macro_chain: false,
            tainted_request_batch_set: false,
            tainted_request_history_chunk: false,
            tainted_request_block: false,
            tainted_request_missing_blocks: false,
            tainted_request_head: false,
        }
    }
}

/// The two kinds of block.
#[derive(Clone, Copy, Debug, PartialEq, Eq, Structural)]
pub enum BlockType {
    Macro,
    Micro,
}

/// The kind of the block that follows `last_block_number`.
pub fn get_next_block_type(policy: &Policy, last_block_number: u32) -> (r: BlockType)
    requires
        policy.wf(),
        last_block_number < u32::MAX,
    ensures
        r == if policy.is_macro(last_block_number + 1) {
            BlockType::Macro
        } else {
            BlockType::Micro
        },
{
    if policy.is_macro_block_at(last_block_number + 1) {
        BlockType::Macro
    } else {
        BlockType::Micro
    }
}

/// Fork choice: whether a branch with cumulative work `new_work` and head `new_hash` wins over
/// the current head. Strictly more work wins; on equal work the lower hash wins.
pub fn is_better_chain(
    new_work: u64,
    new_hash: &Blake2bHash,
    head_work: u64,
    head_hash: &Blake2bHash,
) -> (r: bool)
    ensures
        r == (new_work > head_work || (new_work == head_work && lex_order(new_hash@, head_hash@)
            == std::cmp::Ordering::Less)),
{
    if new_work != head_work {
        return new_work > head_work;
    }
    match lex_cmp(&new_hash.0, &head_hash.0) {
        std::cmp::Ordering::Less => true,
        _ => false,
    }
}

/// Why a block is rejected by its intrinsic checks.
#[derive(Clone, Copy, Debug, PartialEq, Eq, Structural)]
pub enum BlockError {
    MalformedHeader,
    WrongNetwork,
    InvalidSignature,
    MissingBody,
    BadStateRoot,
    BadHistoryRoot,
    FutureTimestamp,
    DuplicateTransaction,
    InvalidTendermintProof,
    InvalidSuccessor,
    InvalidValidators,
}

/// Why a push fails.
#[derive(Clone, Copy, Debug, PartialEq, Eq, Structural)]
pub enum PushError {
    InvalidBlock(BlockError),
    Orphan,
    InvalidZKP,
}

/// What a successful push did.
#[derive(Clone, Copy, Debug, PartialEq, Eq, Structural)]
pub enum PushResult {
    Known,
    Ignored,
    Extended,
}

/// The notifications of the block pipeline, by block hash.
#[derive(Clone, Copy, Debug)]
pub enum BlockchainEvent {
    Extended(Blake2bHash),
    Finalized(Blake2bHash),
    EpochFinalized(Blake2bHash),
}

/// A notification as plain values: its kind (0 extended, 1 finalized, 2 epoch finalized) and
/// the block hash.
pub type EventView = (u8, Seq<u8>);

impl View for BlockchainEvent {
    type V = EventView;

    open spec fn view(&self) -> EventView {
        match self {
            BlockchainEvent::Extended(h) => (0u8, h@),
            BlockchainEvent::Finalized(h) => (1u8, h@),
            BlockchainEvent::EpochFinalized(h) => (2u8, h@),
        }
    }
}

/// What the pipeline reads of a macro block.
#[derive(Clone, Copy, Debug)]
pub struct MacroBlockInfo {
    pub hash: Blake2bHash,
    pub block_number: u32,
    pub is_election: bool,
    pub has_body: bool,
    /// The commitment to the validator set that an election block carries (the root of its
    /// public-key tree); `None` for other blocks.
    pub validators: Option<Blake2bHash>,
}

/// The state of a light node: the hashes in its chain store, its heads, and the notifications
/// it has emitted, in order.
#[derive(Clone, Debug)]
pub struct LightBlockchain {
    pub chain_store: Vec<Blake2bHash>,
    pub head: MacroBlockInfo,
    pub macro_head: MacroBlockInfo,
    pub election_head: MacroBlockInfo,
    /// The validator set of the current epoch, as the commitment of its election block.
    pub current_validators: Option<Blake2bHash>,
    pub events: Vec<BlockchainEvent>,
}

impl LightBlockchain {
    /// The hashes of the chain store as plain values.
    pub open spec fn store_view(&self) -> Seq<Seq<u8>> {
        self.chain_store@.map_values(|h: Blake2bHash| h@)
    }

    /// The notifications as plain values.
    pub open spec fn events_view(&self) -> Seq<EventView> {
        self.events@.map_values(|e: BlockchainEvent| e@)
    }

    /// Whether the chain store holds a block of this hash.
    pub open spec fn knows(&self, hash: Seq<u8>) -> bool {
        self.store_view().contains(hash)
    }

    /// A node that starts from its genesis election block.
    pub fn new(genesis: MacroBlockInfo) -> (r: LightBlockchain)
        ensures
            r.store_view() == seq![genesis.hash@],
            r.head == genesis,
            r.macro_head == genesis,
            r.election_head == genesis,
            r.current_validators == genesis.validators,
            r.events@.len() == 0,
    {
        let mut chain_store: Vec<Blake2bHash> = Vec::new();
        chain_store.push(genesis.hash);
        let r = LightBlockchain {
            chain_store,
            head: genesis,
            macro_head: genesis,
            election_head: genesis,
            current_validators: genesis.validators,
            events: Vec::new(),
        };
        assert(r.store_view() =~= seq![genesis.hash@]);
        r
    }

    fn contains(&self, hash: &Blake2bHash) -> (r: bool)
        ensures
            r == self.knows(hash@),
    {
        let mut i: usize = 0;
        while i < self.chain_store.len()
            invariant
                0 <= i <= self.chain_store@.len(),
                forall|j: int| 0 <= j < i ==> self.store_view()[j] != hash@,
            decreases self.chain_store@.len() - i,
        {
            if bytes_equal(&self.chain_store[i].0, &hash.0) {
                assert(self.store_view()[i as int] == hash@);
                return true;
            }
            i += 1;
        }
        false
    }

    /// The checks a block passes before it is stored: it has a body, is new, lies after the
    /// macro head, and passes its intrinsic checks (`verification`).
    pub open spec fn admission(
        &self,
        block: MacroBlockInfo,
        verification: Result<(), BlockError>,
    ) -> Option<Result<PushResult, PushError>> {
        if !block.has_body {
            Some(Err(PushError::InvalidBlock(BlockError::MissingBody)))
        } else if self.knows(block.hash@) {
            Some(Ok(PushResult::Known))
        } else if block.block_number <= self.macro_head.block_number {
            Some(Ok(PushResult::Ignored))
        } else if let Err(e) = verification {
            Some(Err(PushError::InvalidBlock(e)))
        } else {
            None
        }
    }

    fn check_admission(&self, block: &MacroBlockInfo, verification: Result<(), BlockError>) -> (r: Option<
        Result<PushResult, PushError>,
    >)
        ensures
            r == self.admission(*block, verification),
    {
        if !block.has_body {
            return Some(Err(PushError::InvalidBlock(BlockError::MissingBody)));
        }
        if self.contains(&block.hash) {
            return Some(Ok(PushResult::Known));
        }
        if block.block_number <= self.macro_head.block_number {
            return Some(Ok(PushResult::Ignored));
        }
        match verification {
            Err(e) => Some(Err(PushError::InvalidBlock(e))),
            Ok(()) => None,
        }
    }

    /// Syncs to an election block proven from genesis by a zero-knowledge proof. `verification`
    /// is the outcome of the block's intrinsic checks and `proof_valid` that of the proof
    /// check, which is skipped for a `trusted_proof`. On success the chain store holds only
    /// this block, which becomes every head, its validator set becomes the current one, and
    /// `Extended` then `EpochFinalized` are emitted.
    pub fn push_zkp(
        &mut self,
        block: MacroBlockInfo,
        verification: Result<(), BlockError>,
        proof_valid: bool,
        trusted_proof: bool,
    ) -> (r: Result<PushResult, PushError>)
        requires
            block.is_election,
        ensures
            ({
                let s = *old(self);
                match s.admission(block, verification) {
                    Some(early) => r == early && *final(self) == s,
                    None => if !trusted_proof && !proof_valid {
                        r == Err::<PushResult, PushError>(PushError::InvalidZKP) && *final(self)
                            == s
                    } else {
                        &&& r == Ok::<PushResult, PushError>(PushResult::Extended)
                        &&& final(self).store_view() == seq![block.hash@]
                        &&& final(self).head == block
                        &&& final(self).macro_head == block
                        &&& final(self).election_head == block
                        &&& final(self).current_validators == block.validators
                        &&& final(self).events_view() == s.events_view() + seq![
                            (0u8, block.hash@),
                            (2u8, block.hash@),
                        ]
                    },
                }
            }),
    {
        if let Some(early) = self.check_admission(&block, verification) {
            return early;
        }
        if !trusted_proof && !proof_valid {
            return Err(PushError::InvalidZKP);
        }
        let ghost old_events = self.events_view();
        self.chain_store = Vec::new();
        self.chain_store.push(block.hash);
        self.head = block;
        self.macro_head = block;
        self.election_head = block;
        self.current_validators = block.validators;
        self.events.push(BlockchainEvent::Extended(block.hash));
        self.events.push(BlockchainEvent::EpochFinalized(block.hash));
        assert(self.store_view() =~= seq![block.hash@]);
        assert(self.events_view() =~= old_events + seq![(0u8, block.hash@), (2u8, block.hash@)]);
        Ok(PushResult::Extended)
    }

    /// Pushes a macro block that succeeds the macro head. `verification` is the outcome of
    /// the block's intrinsic checks, of its check as macro successor of the macro head, and of
    /// its check against the current validators. On success the chain store holds only this
    /// block, which becomes the head and the macro head; `Extended` is emitted, then
    /// `EpochFinalized` for an election block, which also becomes the election head and rotates
    /// the validator set, or
    /// `Finalized` for a checkpoint.
    pub fn push_macro(&mut self, block: MacroBlockInfo, verification: Result<(), BlockError>) -> (r:
        Result<PushResult, PushError>)
        ensures
            ({
                let s = *old(self);
                match s.admission(block, verification) {
                    Some(early) => r == early && *final(self) == s,
                    None => {
                        &&& r == Ok::<PushResult, PushError>(PushResult::Extended)
                        &&& final(self).store_view() == seq![block.hash@]
                        &&& final(self).head == block
                        &&& final(self).macro_head == block
                        &&& final(self).election_head == if block.is_election {
                            block
                        } else {
                            s.election_head
                        }
                        &&& final(self).current_validators == if block.is_election {
                            block.validators
                        } else {
                            s.current_validators
                        }
                        &&& final(self).events_view() == s.events_view() + seq![
                            (0u8, block.hash@),
                            (if block.is_election { 2u8 } else { 1u8 }, block.hash@),
                        ]
                    },
                }
            }),
    {
        if let Some(early) = self.check_admission(&block, verification) {
            return early;
        }
        let ghost old_events = self.events_view();
        self.chain_store = Vec::new();
        self.chain_store.push(block.hash);
        self.head = block;
        self.macro_head = block;
        self.events.push(BlockchainEvent::Extended(block.hash));
        if block.is_election {
            self.election_head = block;
            self.current_validators = block.validators;
            self.events.push(BlockchainEvent::EpochFinalized(block.hash));
        } else {
            self.events.push(BlockchainEvent::Finalized(block.hash));
        }
        assert(self.store_view() =~= seq![block.hash@]);
        assert(self.events_view() =~= old_events + seq![
            (0u8, block.hash@),
            (if block.is_election { 2u8 } else { 1u8 }, block.hash@),
        ]);
        Ok(PushResult::Extended)
    }
}

} // verus!
