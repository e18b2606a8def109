//! The decisions of the zero-knowledge prover pipeline: which election blocks still need a
//! proof, when a proof job is launched, and which proofs are accepted without a check. The
//! proving itself, the network and the proof checks happen outside and are handed in as plain
//! values.

use vstd::prelude::*;

use crate::blockchain::MacroBlockInfo;
use crate::policy::Policy;

verus! {

/// How many election blocks the prover must catch up on at start: those between the election
/// block of its proof state and the chain's election head.
pub fn pending_election_count(
    policy: &Policy,
    blockchain_election_height: u32,
    current_state_height: u32,
) -> (r: u32)
    requires
        policy.wf(),
    ensures
        r == if blockchain_election_height > current_state_height {
            (blockchain_election_height - current_state_height) / policy.be()
        } else {
            0
        },
{
    if blockchain_election_height > current_state_height {
        (blockchain_election_height - current_state_height) / policy.blocks_per_epoch()
    } else {
        0
    }
}

/// Whether a proof job is launched for an election block, given the block number of the
/// latest proven state: only for the election block right after it. Blocks the state already
/// covers are skipped.
pub fn should_launch_proof(policy: &Policy, latest_block_number: u32, block_number: u32) -> (r: bool)
    requires
        policy.wf(),
        block_number >= policy.be(),
        latest_block_number >= block_number - policy.be(),
    ensures
        r == (latest_block_number == block_number - policy.be()),
{
    latest_block_number == block_number - policy.blocks_per_epoch()
}

/// Whether a received proof is accepted without a check: the proof of the genesis block,
/// which carries no proof at all.
pub fn is_genesis_proof(block_number: u32, has_proof: bool) -> (r: bool)
    ensures
        r == (block_number == 0 && !has_proof),
{
    block_number == 0 && !has_proof
}

/// The queue of election blocks that wait for a proof, and the block whose proof is being
/// generated, if any.
pub struct ProverQueue {
    pub pending: Vec<MacroBlockInfo>,
    pub in_flight: Option<MacroBlockInfo>,
}

impl ProverQueue {
    /// A queue that waits for the given election blocks.
    pub fn new(pending: Vec<MacroBlockInfo>) -> (r: ProverQueue)
        ensures
            r.pending@ == pending@,
            r.in_flight is None,
    {
        ProverQueue { pending, in_flight: None }
    }

    /// An election block was finalized: it waits for its proof.
    pub fn push_election_block(&mut self, block: MacroBlockInfo)
        ensures
            final(self).pending@ == old(self).pending@.push(block),
            final(self).in_flight == old(self).in_flight,
    {
        self.pending.push(block);
    }

    /// When no job runs, takes blocks from the front of the queue until one needs a proof
    /// after the state at `latest_block_number`, and launches it; blocks that the state
    /// already covers are dropped. Returns the launched block.
    pub fn launch_next(&mut self, policy: &Policy, latest_block_number: u32) -> (r: Option<
        MacroBlockInfo,
    >)
        requires
            policy.wf(),
            forall|i: int|
                0 <= i < old(self).pending@.len() ==> (#[trigger] old(self).pending@[i]).block_number
                    >= policy.be() && latest_block_number >= old(self).pending@[i].block_number
                    - policy.be(),
        ensures
            old(self).in_flight is Some ==> r is None && *final(self) == *old(self),
            old(self).in_flight is None ==> final(self).in_flight == r,
            old(self).in_flight is None ==> match r {
                Some(b) => exists|k: int|
                    0 <= k < old(self).pending@.len() && old(self).pending@[k] == b && b.block_number
                        - policy.be() == latest_block_number && (forall|j: int|
                        0 <= j < k ==> (#[trigger] old(self).pending@[j]).block_number
                            - policy.be() != latest_block_number) && final(self).pending@ == old(
                        self,
                    ).pending@.subrange(k + 1, old(self).pending@.len() as int),
                None => final(self).pending@.len() == 0 && forall|j: int|
                    0 <= j < old(self).pending@.len() ==> (#[trigger] old(self).pending@[j]).block_number
                        - policy.be() != latest_block_number,
            },
    {
        if self.in_flight.is_some() {
            return None;
        }
        let ghost start = self.pending@;
        let n = self.pending.len();
        let mut taken: usize = 0;
        while self.pending.len() > 0
            invariant
                self.in_flight is None,
                old(self).in_flight is None,
                start == old(self).pending@,
                start.len() == n,
                policy.wf(),
                0 <= taken <= start.len(),
                self.pending@ == start.subrange(taken as int, start.len() as int),
                forall|j: int|
                    0 <= j < taken ==> (#[trigger] start[j]).block_number - policy.be()
                        != latest_block_number,
                forall|i: int|
                    0 <= i < start.len() ==> (#[trigger] start[i]).block_number >= policy.be()
                        && latest_block_number >= start[i].block_number - policy.be(),
            decreases self.pending@.len(),
        {
            let block = self.pending.remove(0);
            proof {
                assert(block == start[taken as int]);
            }
            if should_launch_proof(policy, latest_block_number, block.block_number) {
                self.in_flight = Some(block);
                proof {
                    assert(self.pending@ =~= start.subrange(taken + 1, start.len() as int));
                    let k = taken as int;
                    assert(0 <= k < start.len() && start[k] == block && block.block_number
                        - policy.be() == latest_block_number);
                }
                return Some(block);
            }
            taken += 1;
            proof {
                assert(self.pending@ =~= start.subrange(taken as int, start.len() as int));
            }
        }
        None
    }

    /// The running job ended, with a proof or with an error.
    pub fn finish(&mut self)
        ensures
            final(self).in_flight is None,
            final(self).pending@ == old(self).pending@,
    {
        self.in_flight = None;
    }
}

} // verus!
