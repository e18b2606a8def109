//! The macro-block consensus of one height: round timeouts, the proposer of a round, which
//! aggregation updates are taken in, and the propose / prevote / precommit state machine with
//! its lock, driven by proposals, vote aggregates and timeouts.

use vstd::prelude::*;

use crate::policy::Policy;
use crate::primitives::Blake2bHash;

verus! {

/// The timeout of a round: the initial timeout plus one delta per earlier round.
pub fn round_timeout(policy: &Policy, round: u32) -> (r: u64)
    requires
        policy.tendermint_timeout_init + round * policy.tendermint_timeout_delta <= u64::MAX,
    ensures
        r == policy.tendermint_timeout_init + round * policy.tendermint_timeout_delta,
{
    proof {
        assert(round * policy.tendermint_timeout_delta <= u64::MAX);
    }
    policy.tendermint_timeout_init + round as u64 * policy.tendermint_timeout_delta
}

/// The index of the proposer of round `round` at height `height` among `num_validators`.
pub fn proposer_index(height: u32, round: u32, num_validators: u16) -> (r: u16)
    requires
        num_validators > 0,
    ensures
        r == (height + round) % (num_validators as int),
        r < num_validators,
{
    ((height as u64 + round as u64) % num_validators as u64) as u16
}

/// Whether the consensus at `block_height` takes in an aggregation update for `item_height`
/// whose aggregation names `origin` as sender, received from `validator_id`: only updates for
/// its own height whose stated sender is the one it came from.
pub fn accepts_update(item_height: u32, origin: u16, block_height: u32, validator_id: u16) -> (r:
    bool)
    ensures
        r == (item_height == block_height && origin == validator_id),
{
    if item_height != block_height {
        false
    } else if origin != validator_id {
        false
    } else {
        true
    }
}

/// The steps of a round.
#[derive(Clone, Copy, Debug, PartialEq, Eq, Structural)]
pub enum Step {
    Propose,
    Prevote,
    Precommit,
    Decided,
}

/// The state of the consensus at one height: the round and its step, the value this node is
/// locked on and the latest value it saw a prevote quorum for, each with its round, and the
/// decision once there is one.
#[derive(Clone, Copy, Debug)]
pub struct RoundState {
    pub round: u32,
    pub step: Step,
    pub locked: Option<(u32, Blake2bHash)>,
    pub valid: Option<(u32, Blake2bHash)>,
    pub decision: Option<Blake2bHash>,
}

/// What the consensus hears: a proposal with the outcome of its validity check, an aggregate
/// of prevotes or precommits for a value (or for nil) with the slots that signed it, or a
/// timeout.
#[derive(Clone, Copy, Debug)]
pub enum TendermintInput {
    Proposal { round: u32, hash: Blake2bHash, valid_round: Option<u32>, is_valid: bool },
    Prevotes { round: u32, hash: Option<Blake2bHash>, slots: u16 },
    Precommits { round: u32, hash: Option<Blake2bHash>, slots: u16 },
    Timeout { round: u32, step: Step },
}

/// What the consensus does in answer.
#[derive(Clone, Copy, Debug)]
pub enum TendermintAction {
    Nothing,
    Prevote(u32, Option<Blake2bHash>),
    Precommit(u32, Option<Blake2bHash>),
    Decide(Blake2bHash),
    NewRound(u32),
}

/// A state as plain values: round, step, locked and valid values with their rounds, decision.
pub type StateView = (u32, Step, Option<(u32, Seq<u8>)>, Option<(u32, Seq<u8>)>, Option<Seq<u8>>);

/// An action as plain values: its kind (0 nothing, 1 prevote, 2 precommit, 3 decide,
/// 4 new round), its round and its value.
pub type ActionView = (u8, u32, Option<Seq<u8>>);

impl View for RoundState {
    type V = StateView;

    open spec fn view(&self) -> StateView {
        (
            self.round,
            self.step,
            match self.locked {
                Some((r, h)) => Some((r, h@)),
                None => None,
            },
            match self.valid {
                Some((r, h)) => Some((r, h@)),
                None => None,
            },
            match self.decision {
                Some(h) => Some(h@),
                None => None,
            },
        )
    }
}

impl View for TendermintAction {
    type V = ActionView;

    open spec fn view(&self) -> ActionView {
        match self {
            TendermintAction::Nothing => (0u8, 0u32, None),
            TendermintAction::Prevote(r, h) => (1u8, *r, opt_view(*h)),
            TendermintAction::Precommit(r, h) => (2u8, *r, opt_view(*h)),
            TendermintAction::Decide(h) => (3u8, 0u32, Some(h@)),
            TendermintAction::NewRound(r) => (4u8, *r, None),
        }
    }
}

/// An optional hash as plain values.
pub open spec fn opt_view(h: Option<Blake2bHash>) -> Option<Seq<u8>> {
    match h {
        Some(x) => Some(x@),
        None => None,
    }
}

/// Whether a proposal may be prevoted: it is valid, and the node is not locked, or locked on
/// the same value, or the proposal carries a prevote quorum from the lock's round or later.
pub open spec fn may_prevote(s: StateView, hash: Seq<u8>, valid_round: Option<u32>, is_valid: bool) -> bool {
    is_valid && match s.2 {
        None => true,
        Some((lr, lh)) => lh == hash || match valid_round {
            Some(vr) => vr >= lr,
            None => false,
        },
    }
}

/// The next state and the action for an input, by the rules of the protocol; inputs that no
/// rule takes leave the state as it is and do nothing.
pub open spec fn next(s: StateView, i: TendermintInput) -> (StateView, ActionView) {
    let nothing = (s, (0u8, 0u32, None::<Seq<u8>>));
    if s.1 == Step::Decided {
        nothing
    } else {
        match i {
            TendermintInput::Proposal { round, hash, valid_round, is_valid } => if round == s.0
                && s.1 == Step::Propose {
                let v = if may_prevote(s, hash@, valid_round, is_valid) { Some(hash@) } else { None };
                ((s.0, Step::Prevote, s.2, s.3, s.4), (1u8, round, v))
            } else {
                nothing
            },
            TendermintInput::Prevotes { round, hash, slots } => if round == s.0 && s.1
                == Step::Prevote && slots >= 342 {
                match hash {
                    Some(h) => (
                        (s.0, Step::Precommit, Some((round, h@)), Some((round, h@)), s.4),
                        (2u8, round, Some(h@)),
                    ),
                    None => ((s.0, Step::Precommit, s.2, s.3, s.4), (2u8, round, None)),
                }
            } else {
                nothing
            },
            TendermintInput::Precommits { round, hash, slots } => if slots < 342 {
                nothing
            } else {
                match hash {
                    Some(h) => ((s.0, Step::Decided, s.2, s.3, Some(h@)), (3u8, 0u32, Some(h@))),
                    None => if round == s.0 && s.0 < u32::MAX {
                        (((s.0 + 1) as u32, Step::Propose, s.2, s.3, s.4), (4u8, (s.0 + 1) as u32, None))
                    } else {
                        nothing
                    },
                }
            },
            TendermintInput::Timeout { round, step } => if round != s.0 || step != s.1 {
                nothing
            } else if step == Step::Propose {
                ((s.0, Step::Prevote, s.2, s.3, s.4), (1u8, round, None))
            } else if step == Step::Prevote {
                ((s.0, Step::Precommit, s.2, s.3, s.4), (2u8, round, None))
            } else if step == Step::Precommit && s.0 < u32::MAX {
                (((s.0 + 1) as u32, Step::Propose, s.2, s.3, s.4), (4u8, (s.0 + 1) as u32, None))
            } else {
                nothing
            },
        }
    }
}

impl RoundState {
    /// The state at the start of a height.
    pub fn new() -> (r: RoundState)
        ensures
            r@ == (0u32, Step::Propose, None::<(u32, Seq<u8>)>, None::<(u32, Seq<u8>)>, None::<Seq<u8>>),
    {
        RoundState { round: 0, step: Step::Propose, locked: None, valid: None, decision: None }
    }

    /// Takes in one input and returns the action to perform.
    pub fn handle(&mut self, input: TendermintInput) -> (r: TendermintAction)
        ensures
            (final(self)@, r@) == next(old(self)@, input),
    {
        if self.step == Step::Decided {
            return TendermintAction::Nothing;
        }
        match input {
            TendermintInput::Proposal { round, hash, valid_round, is_valid } => {
                if round != self.round || self.step != Step::Propose {
                    return TendermintAction::Nothing;
                }
                let ok = is_valid && match self.locked {
                    None => true,
                    Some((lr, lh)) => lh == hash || match valid_round {
                        Some(vr) => vr >= lr,
                        None => false,
                    },
                };
                self.step = Step::Prevote;
                if ok {
                    TendermintAction::Prevote(round, Some(hash))
                } else {
                    TendermintAction::Prevote(round, None)
                }
            },
            TendermintInput::Prevotes { round, hash, slots } => {
                if round != self.round || self.step != Step::Prevote || !is_quorum(slots) {
                    return TendermintAction::Nothing;
                }
                self.step = Step::Precommit;
                match hash {
                    Some(h) => {
                        self.locked = Some((round, h));
                        self.valid = Some((round, h));
                        TendermintAction::Precommit(round, Some(h))
                    },
                    None => TendermintAction::Precommit(round, None),
                }
            },
            TendermintInput::Precommits { round, hash, slots } => {
                if !is_quorum(slots) {
                    return TendermintAction::Nothing;
                }
                match hash {
                    Some(h) => {
                        self.step = Step::Decided;
                        self.decision = Some(h);
                        TendermintAction::Decide(h)
                    },
                    None => {
                        if round != self.round || self.round == u32::MAX {
                            return TendermintAction::Nothing;
                        }
                        self.round = self.round + 1;
                        self.step = Step::Propose;
                        TendermintAction::NewRound(self.round)
                    },
                }
            },
            TendermintInput::Timeout { round, step } => {
                if round != self.round || step != self.step {
                    return TendermintAction::Nothing;
                }
                match step {
                    Step::Propose => {
                        self.step = Step::Prevote;
                        TendermintAction::Prevote(round, None)
                    },
                    Step::Prevote => {
                        self.step = Step::Precommit;
                        TendermintAction::Precommit(round, None)
                    },
                    Step::Precommit => {
                        if self.round == u32::MAX {
                            return TendermintAction::Nothing;
                        }
                        self.round = self.round + 1;
                        self.step = Step::Propose;
                        TendermintAction::NewRound(self.round)
                    },
                    Step::Decided => TendermintAction::Nothing,
                }
            },
        }
    }
}

/// A decision is taken only on a quorum of precommits for the decided value, and once taken
/// it never changes.
pub proof fn lemma_decision_needs_quorum(s: StateView, i: TendermintInput)
    ensures
        s.4 is Some && s.1 == Step::Decided ==> next(s, i).0.4 == s.4,
        s.1 != Step::Decided && next(s, i).0.1 == Step::Decided ==> (i matches TendermintInput::Precommits { hash: Some(h), slots, .. } && slots >= 342 && next(s, i).0.4 == Some(h@)),
{
}

/// The lock changes only on a quorum of prevotes for the new locked value in the current
/// round.
pub proof fn lemma_lock_needs_quorum(s: StateView, i: TendermintInput)
    ensures
        next(s, i).0.2 != s.2 ==> (i matches TendermintInput::Prevotes { round, hash: Some(h), slots } && slots >= 342 && round == s.0 && next(s, i).0.2 == Some((round, h@))),
{
}

/// Whether a set of signing slots reaches the `2f + 1` quorum.
pub fn is_quorum(signers: u16) -> (r: bool)
    ensures
        r == (signers >= 342),
{
    signers >= Policy::TWO_F_PLUS_ONE
}

} // verus!
