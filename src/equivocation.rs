//! Equivocations: a validator that signs two different blocks at one height. A fork proof shows
//! it; the report is recorded once, and at the next election block every reported validator
//! loses a share of its stake.

use vstd::prelude::*;

use crate::keys::{ed25519_verifies, PublicKey, Signature};
use crate::primitives::Blake2bHash;

verus! {

/// Two block headers of one height, each with its producer's signature.
#[derive(Clone, Copy, Debug)]
pub struct ForkProof {
    pub block_number: u32,
    pub header1: Blake2bHash,
    pub header2: Blake2bHash,
    pub signature1: Signature,
    pub signature2: Signature,
}

/// Whether a fork proof shows an equivocation of the key's owner: two different headers,
/// each signed under the key.
pub open spec fn proves_equivocation(proof: ForkProof, signer: Seq<u8>) -> bool {
    &&& proof.header1@ != proof.header2@
    &&& ed25519_verifies(signer, proof.signature1@, proof.header1@)
    &&& ed25519_verifies(signer, proof.signature2@, proof.header2@)
}

/// Checks a fork proof against the producer's key.
pub fn verify_fork_proof(proof: &ForkProof, signer: &PublicKey) -> (r: bool)
    ensures
        r == proves_equivocation(*proof, signer@),
{
    proof.header1 != proof.header2 && signer.verify(&proof.signature1, &proof.header1.0)
        && signer.verify(&proof.signature2, &proof.header2.0)
}

/// Why a report is refused.
#[derive(Clone, Copy, Debug, PartialEq, Eq, Structural)]
pub enum EquivocationError {
    InvalidProof,
}

/// The equivocations reported since the last election block, by validator and height.
pub struct EquivocationLog {
    pub reported: Vec<(u16, u32)>,
}

/// A validator's stake after losing `percent` of it.
pub open spec fn slashed(stake: u64, percent: u8) -> u64 {
    (stake - stake * percent / 100) as u64
}

impl EquivocationLog {
    /// An empty log.
    pub fn new() -> (r: EquivocationLog)
        ensures
            r.reported@.len() == 0,
    {
        EquivocationLog { reported: Vec::new() }
    }

    fn contains(&self, validator: u16, block_number: u32) -> (r: bool)
        ensures
            r == self.reported@.contains((validator, block_number)),
    {
        let mut i: usize = 0;
        while i < self.reported.len()
            invariant
                0 <= i <= self.reported@.len(),
                forall|j: int| 0 <= j < i ==> self.reported@[j] != (validator, block_number),
            decreases self.reported@.len() - i,
        {
            let (v, n) = self.reported[i];
            if v == validator && n == block_number {
                assert(self.reported@[i as int] == (validator, block_number));
                return true;
            }
            i += 1;
        }
        false
    }

    /// Reports an equivocation of `validator`, whose key is `signer`. A valid proof is
    /// recorded once per validator and height; the result says whether it is new.
    pub fn report(&mut self, validator: u16, proof: &ForkProof, signer: &PublicKey) -> (r: Result<
        bool,
        EquivocationError,
    >)
        ensures
            !proves_equivocation(*proof, signer@) ==> r == Err::<bool, EquivocationError>(
                EquivocationError::InvalidProof,
            ) && final(self).reported@ == old(self).reported@,
            proves_equivocation(*proof, signer@) && old(self).reported@.contains(
                (validator, proof.block_number),
            ) ==> r == Ok::<bool, EquivocationError>(false) && final(self).reported@ == old(
                self,
            ).reported@,
            proves_equivocation(*proof, signer@) && !old(self).reported@.contains(
                (validator, proof.block_number),
            ) ==> r == Ok::<bool, EquivocationError>(true) && final(self).reported@ == old(
                self,
            ).reported@.push((validator, proof.block_number)),
    {
        if !verify_fork_proof(proof, signer) {
            return Err(EquivocationError::InvalidProof);
        }
        if self.contains(validator, proof.block_number) {
            return Ok(false);
        }
        self.reported.push((validator, proof.block_number));
        Ok(true)
    }

    /// At an election block: every reported validator loses `percent` of its stake, once per
    /// report, and the log starts afresh.
    pub fn slash_at_election(&mut self, stakes: &mut Vec<u64>, percent: u8)
        requires
            percent <= 100,
            forall|i: int| 0 <= i < old(self).reported@.len() ==> (#[trigger] old(self).reported@[i]).0
                < old(stakes)@.len(),
        ensures
            final(self).reported@.len() == 0,
            final(stakes)@ == slash_all(old(stakes)@, old(self).reported@, percent),
    {
        let mut i: usize = 0;
        while i < self.reported.len()
            invariant
                0 <= i <= self.reported@.len(),
                percent <= 100,
                self.reported@ == old(self).reported@,
                stakes@.len() == old(stakes)@.len(),
                forall|j: int| 0 <= j < self.reported@.len() ==> (#[trigger] self.reported@[j]).0
                    < stakes@.len(),
                stakes@ == slash_all(old(stakes)@, self.reported@.subrange(0, i as int), percent),
            decreases self.reported@.len() - i,
        {
            let v = self.reported[i].0 as usize;
            let stake = stakes[v];
            proof {
                assert(stake * percent <= stake * 100) by (nonlinear_arith)
                    requires
                        percent <= 100,
                ;
                assert(stake * percent / 100 <= stake) by (nonlinear_arith)
                    requires
                        stake * percent <= stake * 100,
                ;
            }
            let cut = ((stake as u128 * percent as u128) / 100) as u64;
            stakes.set(v, stake - cut);
            proof {
                assert(self.reported@.subrange(0, i + 1).drop_last() =~= self.reported@.subrange(0, i as int));
            }
            i += 1;
        }
        assert(self.reported@.subrange(0, self.reported@.len() as int) =~= self.reported@);
        self.reported = Vec::new();
    }
}

/// The stakes after slashing each reported validator, in the order of the reports.
pub open spec fn slash_all(stakes: Seq<u64>, reported: Seq<(u16, u32)>, percent: u8) -> Seq<u64>
    decreases reported.len(),
{
    if reported.len() == 0 {
        stakes
    } else {
        let before = slash_all(stakes, reported.drop_last(), percent);
        let v = reported.last().0 as int;
        if 0 <= v < before.len() {
            before.update(v, slashed(before[v], percent))
        } else {
            before
        }
    }
}

} // verus!
