//! The block pipeline of a full node: a chain store that keeps the main chain from the last
//! macro block to the head, and the blocks of competing branches. Pushing a block extends the
//! main chain, stores a fork, or switches to a longer branch (ties broken by the lower hash),
//! and emits the matching events. Macro blocks are final: they prune every competing branch.

use vstd::prelude::*;

use crate::blockchain::{BlockError, PushError};
use crate::primitives::{bytes_equal, Blake2bHash};
use crate::transaction::{lex_cmp, lex_order};

verus! {

/// What the chain store reads of a block.
#[derive(Clone, Copy, Debug)]
pub struct BlockInfo {
    pub hash: Blake2bHash,
    pub parent: Blake2bHash,
    pub block_number: u32,
    pub is_macro: bool,
    pub is_election: bool,
}

/// A block as plain values: hash, parent hash, number, macro and election marks.
pub type BlockView = (Seq<u8>, Seq<u8>, u32, bool, bool);

impl View for BlockInfo {
    type V = BlockView;

    open spec fn view(&self) -> BlockView {
        (self.hash@, self.parent@, self.block_number, self.is_macro, self.is_election)
    }
}

/// The events of the full pipeline.
#[derive(Clone, Debug)]
pub enum ChainEvent {
    Extended(Blake2bHash),
    /// The blocks taken off the main chain, then the blocks put on it, both in chain order.
    Rebranched(Vec<Blake2bHash>, Vec<Blake2bHash>),
    Finalized(Blake2bHash),
    EpochFinalized(Blake2bHash),
}

/// What a push did.
#[derive(Clone, Copy, Debug, PartialEq, Eq, Structural)]
pub enum ChainPushResult {
    Known,
    Ignored,
    Extended,
    Rebranched,
    Forked,
}

/// A list of blocks as plain values.
pub open spec fn views(blocks: Seq<BlockInfo>) -> Seq<BlockView> {
    blocks.map_values(|b: BlockInfo| b@)
}

/// The hashes of a list of blocks.
pub open spec fn hashes(blocks: Seq<BlockView>) -> Seq<Seq<u8>> {
    blocks.map_values(|b: BlockView| b.0)
}

/// Whether `blocks` is a chain hanging from `from`: each block's parent is the block before it,
/// one number lower.
pub open spec fn links(from: BlockView, blocks: Seq<BlockView>) -> bool {
    forall|k: int|
        0 <= k < blocks.len() ==> {
            let prev = if k == 0 { from } else { blocks[k - 1] };
            &&& (#[trigger] blocks[k]).1 == prev.0
            &&& blocks[k].2 == prev.2 + 1
        }
}

/// The main chain is linked from its first block, blocks stored under one hash are the same
/// block, and every fork block lies after the first main block and hangs from a stored block
/// one number lower.
#[verifier::opaque]
pub open spec fn wf_parts(main: Seq<BlockView>, forks: Seq<BlockView>) -> bool {
    let stored = main + forks;
    &&& main.len() >= 1
    &&& links(main[0], main.drop_first())
    &&& forall|i: int, j: int|
        0 <= i < stored.len() && 0 <= j < stored.len() && (#[trigger] stored[i]).0 == (
        #[trigger] stored[j]).0 ==> stored[i] == stored[j]
    &&& forall|i: int|
        0 <= i < forks.len() ==> (#[trigger] forks[i]).2 > main[0].2 && exists|j: int|
            0 <= j < stored.len() && (#[trigger] stored[j]).0 == forks[i].1 && stored[j].2 + 1
                == forks[i].2
}

/// The chain store.
pub struct Chain {
    main: Vec<BlockInfo>,
    forks: Vec<BlockInfo>,
    pub events: Vec<ChainEvent>,
}

impl Chain {
    /// The main chain, from the last macro block to the head.
    pub closed spec fn main_view(&self) -> Seq<BlockView> {
        views(self.main@)
    }

    /// The stored blocks off the main chain.
    pub closed spec fn forks_view(&self) -> Seq<BlockView> {
        views(self.forks@)
    }

    /// All stored blocks.
    pub open spec fn stored(&self) -> Seq<BlockView> {
        self.main_view() + self.forks_view()
    }

    /// Whether a block of this hash is stored.
    pub open spec fn knows(&self, hash: Seq<u8>) -> bool {
        exists|i: int| 0 <= i < self.stored().len() && (#[trigger] self.stored()[i]).0 == hash
    }

    /// The store is well formed: see `wf_parts`.
    pub open spec fn wf(&self) -> bool {
        wf_parts(self.main_view(), self.forks_view())
    }

    /// The head of the main chain.
    pub open spec fn head(&self) -> BlockView {
        self.main_view().last()
    }

    /// The events as plain values: 0 extended, 1 rebranched, 2 finalized, 3 epoch finalized,
    /// each with the hashes it carries.
    pub closed spec fn events_view(&self) -> Seq<(u8, Seq<Seq<u8>>, Seq<Seq<u8>>)> {
        self.events@.map_values(|e: ChainEvent| event_view(e))
    }

    /// The hash of the head of the main chain.
    pub fn head_hash(&self) -> (r: Blake2bHash)
        requires
            self.wf(),
        ensures
            r@ == self.head().0,
    {
        proof {
            reveal(wf_parts);
        }
        let last = self.main.len() - 1;
        proof {
            assert(self.main_view()[last as int] == self.main@[last as int]@);
        }
        self.main[last].hash
    }

    /// The block number of the head of the main chain.
    pub fn block_number(&self) -> (r: u32)
        requires
            self.wf(),
        ensures
            r == self.head().2,
    {
        proof {
            reveal(wf_parts);
        }
        let last = self.main.len() - 1;
        proof {
            assert(self.main_view()[last as int] == self.main@[last as int]@);
        }
        self.main[last].block_number
    }

    /// A chain store that starts from a macro block.
    pub fn new(genesis: BlockInfo) -> (r: Chain)
        ensures
            r.wf(),
            r.main_view() == seq![genesis@],
            r.forks_view().len() == 0,
            r.events_view().len() == 0,
    {
        let mut main: Vec<BlockInfo> = Vec::new();
        main.push(genesis);
        let r = Chain { main, forks: Vec::new(), events: Vec::new() };
        assert(r.main_view() =~= seq![genesis@]);
        reveal(wf_parts);
        assert(r.forks_view() =~= Seq::<BlockView>::empty());
        assert(r.stored() =~= seq![genesis@]);
        assert(r.events_view() =~= Seq::empty());
        r
    }

    /// Whether a stored block is the parent of `block`, one number lower.
    pub open spec fn parent_ok(&self, block: BlockView) -> bool {
        exists|j: int|
            0 <= j < self.stored().len() && (#[trigger] self.stored()[j]).0 == block.1
                && self.stored()[j].2 + 1 == block.2
    }

    /// The outcome of a push that stops before the fork choice, if it does: a known block, a
    /// block at or before the last macro block, a failed intrinsic check, an unknown parent,
    /// or a number that does not follow the parent's.
    pub open spec fn early_outcome(&self, block: BlockView, verification: Result<(), BlockError>) -> Option<
        Result<ChainPushResult, PushError>,
    > {
        if self.knows(block.0) {
            Some(Ok(ChainPushResult::Known))
        } else if block.2 <= self.main_view()[0].2 {
            Some(Ok(ChainPushResult::Ignored))
        } else if let Err(e) = verification {
            Some(Err(PushError::InvalidBlock(e)))
        } else if !self.knows(block.1) {
            Some(Err(PushError::Orphan))
        } else if !self.parent_ok(block) {
            Some(Err(PushError::InvalidBlock(BlockError::MalformedHeader)))
        } else {
            None
        }
    }

    /// The store after a change to main chain `m`, forks `f` and events `ev`, followed, when
    /// `block` is a macro block, by its finalization: the main chain is then the block alone,
    /// no fork is left, and `Finalized` (or `EpochFinalized` for an election block) follows.
    pub open spec fn settled(
        &self,
        block: BlockView,
        m: Seq<BlockView>,
        f: Seq<BlockView>,
        ev: Seq<(u8, Seq<Seq<u8>>, Seq<Seq<u8>>)>,
    ) -> bool {
        if block.3 {
            &&& self.main_view() == seq![block]
            &&& self.forks_view().len() == 0
            &&& self.events_view() == ev.push(
                (if block.4 { 3u8 } else { 2u8 }, seq![block.0], Seq::<Seq<u8>>::empty()),
            )
        } else {
            &&& self.main_view() == m
            &&& self.forks_view() == f
            &&& self.events_view() == ev
        }
    }

    fn finalize(&mut self, block: BlockInfo)
        ensures
            final(self).wf(),
            final(self).main_view() == seq![block@],
            final(self).forks_view().len() == 0,
            final(self).events_view() == old(self).events_view().push(
                (if block.is_election { 3u8 } else { 2u8 }, seq![block.hash@], Seq::<Seq<u8>>::empty()),
            ),
    {
        let ghost ev = self.events_view();
        let mut main: Vec<BlockInfo> = Vec::new();
        main.push(block);
        self.main = main;
        self.forks = Vec::new();
        if block.is_election {
            self.events.push(ChainEvent::EpochFinalized(block.hash));
        } else {
            self.events.push(ChainEvent::Finalized(block.hash));
        }
        proof {
            reveal(wf_parts);
            assert(self.main_view() =~= seq![block@]);
            assert(self.forks_view() =~= Seq::<BlockView>::empty());
            assert(self.stored() =~= seq![block@]);
            assert(self.events_view() =~= ev.push(
                (if block.is_election { 3u8 } else { 2u8 }, seq![block.hash@], Seq::<Seq<u8>>::empty()),
            ));
        }
    }

    /// Pushes a block whose intrinsic checks gave `verification`. A known block, one at or
    /// before the last macro block, one that fails its checks, one with an unknown parent or a
    /// number that does not follow its parent's changes nothing. A block on the head extends
    /// the main chain (`Extended`). Any other block forms a branch with the stored blocks it
    /// hangs from: when the branch is longer than the main chain, or as long with a lower head
    /// hash, the main chain switches to it (`Rebranched`, with the blocks taken off and put on);
    /// otherwise it is stored as a fork. A macro block that ends on the main chain is then
    /// final: it alone remains, and `Finalized` or `EpochFinalized` follows.
    pub fn push(&mut self, block: BlockInfo, verification: Result<(), BlockError>) -> (r: Result<
        ChainPushResult,
        PushError,
    >)
        requires
            old(self).wf(),
        ensures
            final(self).wf(),
            ({
                let o = *old(self);
                match o.early_outcome(block@, verification) {
                    Some(early) => {
                        &&& r == early
                        &&& final(self).main_view() == o.main_view()
                        &&& final(self).forks_view() == o.forks_view()
                        &&& final(self).events_view() == o.events_view()
                    },
                    None => if block.parent@ == o.head().0 {
                        &&& r == Ok::<ChainPushResult, PushError>(ChainPushResult::Extended)
                        &&& final(self).settled(
                            block@,
                            o.main_view().push(block@),
                            o.forks_view(),
                            o.events_view().push(
                                (0u8, seq![block.hash@], Seq::<Seq<u8>>::empty()),
                            ),
                        )
                    } else {
                        exists|a: int, br: Seq<BlockView>|
                            #![trigger o.is_branch(a, br, block@)]
                            o.is_branch(a, br, block@) && if o.wins(
                                a + 1 + br.len(),
                                block.hash@,
                            ) {
                                &&& r == Ok::<ChainPushResult, PushError>(
                                    ChainPushResult::Rebranched,
                                )
                                &&& final(self).settled(
                                    block@,
                                    o.main_view().subrange(0, a + 1) + br,
                                    o.forks_view() + o.main_view().subrange(
                                        a + 1,
                                        o.main_view().len() as int,
                                    ),
                                    o.events_view().push(
                                        (
                                            1u8,
                                            hashes(
                                                o.main_view().subrange(
                                                    a + 1,
                                                    o.main_view().len() as int,
                                                ),
                                            ),
                                            hashes(br),
                                        ),
                                    ),
                                )
                            } else {
                                &&& r == Ok::<ChainPushResult, PushError>(ChainPushResult::Forked)
                                &&& final(self).main_view() == o.main_view()
                                &&& final(self).forks_view() == o.forks_view().push(block@)
                                &&& final(self).events_view() == o.events_view()
                            }
                    },
                }
            }),
    {
        match self.early_check(&block, verification) {
            Some(early) => early,
            None => {
                if self.is_head(&block.parent) {
                    self.extend(block)
                } else {
                    self.attach(block)
                }
            },
        }
    }

    fn is_head(&self, hash: &Blake2bHash) -> (r: bool)
        requires
            self.wf(),
        ensures
            r == (hash@ == self.head().0),
    {
        proof {
            reveal(wf_parts);
        }
        let last = self.main.len() - 1;
        proof {
            assert(self.main_view()[last as int] == self.main@[last as int]@);
        }
        bytes_equal(&self.main[last].hash.0, &hash.0)
    }

    /// The checks before the fork choice.
    fn early_check(&self, block: &BlockInfo, verification: Result<(), BlockError>) -> (r: Option<
        Result<ChainPushResult, PushError>,
    >)
        requires
            self.wf(),
        ensures
            r == self.early_outcome(block@, verification),
    {
        proof {
            reveal(wf_parts);
        }
        let known_main = self.find_main(&block.hash);
        let known_fork = self.find_fork(&block.hash);
        if known_main.is_some() || known_fork.is_some() {
            proof {
                match known_main {
                    Some(i) => {
                        assert(self.stored()[i as int].0 == block.hash@);
                    },
                    None => {
                        let k = known_fork.unwrap();
                        assert(self.stored()[self.main_view().len() + k].0 == block.hash@);
                    },
                }
            }
            return Some(Ok(ChainPushResult::Known));
        }
        proof {
            assert forall|i: int| 0 <= i < self.stored().len() implies (#[trigger] self.stored()[i]).0
                != block.hash@ by {
                if i < self.main_view().len() {
                    assert(self.stored()[i] == self.main_view()[i]);
                } else {
                    assert(self.stored()[i] == self.forks_view()[i - self.main_view().len()]);
                }
            }
        }
        if block.block_number <= self.main[0].block_number {
            return Some(Ok(ChainPushResult::Ignored));
        }
        match verification {
            Err(e) => {
                return Some(Err(PushError::InvalidBlock(e)));
            },
            Ok(()) => {},
        }
        let parent_main = self.find_main(&block.parent);
        let parent_fork = self.find_fork(&block.parent);
        let parent_number: u32 = match parent_main {
            Some(a) => self.main[a].block_number,
            None => match parent_fork {
                Some(k) => self.forks[k].block_number,
                None => {
                    proof {
                        assert forall|i: int| 0 <= i < self.stored().len() implies (
                        #[trigger] self.stored()[i]).0 != block.parent@ by {
                            if i < self.main_view().len() {
                                assert(self.stored()[i] == self.main_view()[i]);
                            } else {
                                assert(self.stored()[i] == self.forks_view()[i
                                    - self.main_view().len()]);
                            }
                        }
                    }
                    return Some(Err(PushError::Orphan));
                },
            },
        };
        let ghost q: int = match parent_main {
            Some(a) => a as int,
            None => self.main_view().len() + parent_fork.unwrap(),
        };
        proof {
            assert(self.stored()[q].0 == block.parent@);
            assert(self.stored()[q].2 == parent_number);
            assert(self.knows(block.parent@));
        }
        if parent_number as u64 + 1 != block.block_number as u64 {
            proof {
                assert forall|j: int|
                    0 <= j < self.stored().len() && (#[trigger] self.stored()[j]).0
                        == block.parent@ implies self.stored()[j].2 + 1 != block.block_number by {
                    assert(self.stored()[j] == self.stored()[q]);
                }
            }
            return Some(Err(PushError::InvalidBlock(BlockError::MalformedHeader)));
        }
        proof {
            assert(self.parent_ok(block@));
        }
        None
    }

    /// Appends a block whose parent is the head.
    fn extend(&mut self, block: BlockInfo) -> (r: Result<ChainPushResult, PushError>)
        requires
            old(self).wf(),
            old(self).early_outcome(block@, Ok(())) is None,
            block.parent@ == old(self).head().0,
        ensures
            final(self).wf(),
            r == Ok::<ChainPushResult, PushError>(ChainPushResult::Extended),
            final(self).settled(
                block@,
                old(self).main_view().push(block@),
                old(self).forks_view(),
                old(self).events_view().push((0u8, seq![block.hash@], Seq::<Seq<u8>>::empty())),
            ),
    {
        let ghost o_main = self.main_view();
        let ghost o_forks = self.forks_view();
        let ghost ev = self.events_view();
        proof {
            reveal(wf_parts);
            let q = choose|j: int|
                0 <= j < self.stored().len() && (#[trigger] self.stored()[j]).0 == block@.1
                    && self.stored()[j].2 + 1 == block@.2;
            let last = o_main.len() - 1;
            assert(self.stored()[last] == o_main[last]);
            assert(self.stored()[q] == self.stored()[last]);
            assert forall|i: int| 0 <= i < (o_main + o_forks).len() implies (#[trigger] (o_main
                + o_forks)[i]).0 != block@.0 by {
                assert(self.stored()[i] == (o_main + o_forks)[i]);
            }
        }
        self.main.push(block);
        self.events.push(ChainEvent::Extended(block.hash));
        proof {
            let nm = self.main_view();
            assert(nm =~= o_main.push(block@));
            assert(self.forks_view() == o_forks);
            assert(self.events_view() =~= ev.push((0u8, seq![block.hash@], Seq::<Seq<u8>>::empty())));
            assert(links(o_main[0], o_main.drop_first()));
            assert(o_main.drop_first().len() > 0 ==> o_main.drop_first().last() == o_main.last());
            lemma_links_append(o_main[0], o_main.drop_first(), seq![block@]);
            assert(nm.drop_first() =~= o_main.drop_first() + seq![block@]);
            lemma_extend_contents(o_main, o_forks, block@);
            lemma_wf_rebuilt(o_main, o_forks, nm, o_forks, block@);
        }
        if block.is_macro {
            self.finalize(block);
        }
        Ok(ChainPushResult::Extended)
    }

    /// Stores a block whose parent is stored but is not the head, and runs the fork choice.
    #[verifier::rlimit(60)]
    fn attach(&mut self, block: BlockInfo) -> (r: Result<ChainPushResult, PushError>)
        requires
            old(self).wf(),
            old(self).early_outcome(block@, Ok(())) is None,
            block.parent@ != old(self).head().0,
        ensures
            final(self).wf(),
            ({
                let o = *old(self);
                exists|a: int, br: Seq<BlockView>|
                    #![trigger o.is_branch(a, br, block@)]
                    o.is_branch(a, br, block@) && if o.wins(a + 1 + br.len(), block.hash@) {
                        &&& r == Ok::<ChainPushResult, PushError>(ChainPushResult::Rebranched)
                        &&& final(self).settled(
                            block@,
                            o.main_view().subrange(0, a + 1) + br,
                            o.forks_view() + o.main_view().subrange(a + 1, o.main_view().len() as int),
                            o.events_view().push(
                                (
                                    1u8,
                                    hashes(o.main_view().subrange(a + 1, o.main_view().len() as int)),
                                    hashes(br),
                                ),
                            ),
                        )
                    } else {
                        &&& r == Ok::<ChainPushResult, PushError>(ChainPushResult::Forked)
                        &&& final(self).main_view() == o.main_view()
                        &&& final(self).forks_view() == o.forks_view().push(block@)
                        &&& final(self).events_view() == o.events_view()
                    }
            }),
    {
        let ghost o = *self;
        proof {
            reveal(wf_parts);
        }
        let parent_main = self.find_main(&block.parent);
        match parent_main {
            Some(a) => {
                let mut branch: Vec<BlockInfo> = Vec::new();
                branch.push(block);
                let ghost br = views(branch@);
                proof {
                    let q = choose|j: int|
                        0 <= j < self.stored().len() && (#[trigger] self.stored()[j]).0 == block@.1
                            && self.stored()[j].2 + 1 == block@.2;
                    assert(self.stored()[a as int] == self.main_view()[a as int]);
                    assert(self.stored()[q] == self.stored()[a as int]);
                    assert(br =~= seq![block@]);
                    assert(links(self.main_view()[a as int], br));
                    assert(o.is_branch(a as int, br, block@));
                }
                self.resolve(a, branch, block)
            },
            None => {
                let parent_fork = self.find_fork(&block.parent);
                let k = match parent_fork {
                    Some(k) => k,
                    None => {
                        proof {
                            let q = choose|j: int|
                                0 <= j < self.stored().len() && (#[trigger] self.stored()[j]).0
                                    == block@.1 && self.stored()[j].2 + 1 == block@.2;
                            if q < self.main_view().len() {
                                assert(self.stored()[q] == self.main_view()[q]);
                            } else {
                                assert(self.stored()[q] == self.forks_view()[q
                                    - self.main_view().len()]);
                            }
                        }
                        // The parent is stored, so this arm is never taken.
                        return Err(PushError::Orphan);
                    },
                };
                proof {
                    let q = choose|j: int|
                        0 <= j < self.stored().len() && (#[trigger] self.stored()[j]).0 == block@.1
                            && self.stored()[j].2 + 1 == block@.2;
                    let mk = self.main_view().len() + k;
                    assert(self.stored()[mk] == self.forks_view()[k as int]);
                    assert(self.stored()[q] == self.stored()[mk]);
                }
                let (a, branch) = self.branch_to_main(k, block);
                let ghost br = views(branch@);
                proof {
                    assert(o.is_branch(a as int, br, block@));
                }
                self.resolve(a, branch, block)
            },
        }
    }

    /// Switches the main chain to the branch that hangs from the main block at `a`; the
    /// blocks taken off the main chain become forks.
    #[verifier::rlimit(60)]
    fn rebranch(&mut self, a: usize, branch: Vec<BlockInfo>, block: BlockInfo)
        requires
            old(self).wf(),
            old(self).is_branch(a as int, views(branch@), block@),
            forall|i: int| 0 <= i < old(self).stored().len() ==> (#[trigger] old(self).stored()[i]).0
                != block@.0,
            old(self).parent_ok(block@),
            block.block_number > old(self).main_view()[0].2,
        ensures
            final(self).wf(),
            ({
                let o = *old(self);
                let br = views(branch@);
                let tail = o.main_view().subrange(a + 1, o.main_view().len() as int);
                &&& final(self).main_view() == o.main_view().subrange(0, a + 1) + br
                &&& final(self).forks_view() == o.forks_view() + tail
                &&& final(self).events_view() == o.events_view().push((1u8, hashes(tail), hashes(br)))
            }),
    {
        let old_len = self.main.len();
        let ghost om = self.main_view();
        let ghost of = self.forks_view();
        let ghost ev = self.events_view();
        let reverted = copy_range(&self.main, a + 1, old_len);
        let mut new_main = copy_range(&self.main, 0, a + 1);
        let reverted_hashes = hashes_of(&reverted);
        let adopted_hashes = hashes_of(&branch);
        let mut i: usize = 0;
        let ghost prefix = views(new_main@);
        while i < branch.len()
            invariant
                0 <= i <= branch@.len(),
                views(new_main@) == prefix + views(branch@).subrange(0, i as int),
            decreases branch@.len() - i,
        {
            let ghost before = new_main@;
            new_main.push(branch[i]);
            proof {
                assert(views(new_main@) =~= views(before).push(branch@[i as int]@));
                assert(views(branch@).subrange(0, i + 1) =~= views(branch@).subrange(0, i as int).push(
                    views(branch@)[i as int],
                ));
            }
            i += 1;
        }
        assert(views(branch@).subrange(0, branch@.len() as int) =~= views(branch@));
        self.main = new_main;
        let mut j: usize = 0;
        while j < reverted.len()
            invariant
                0 <= j <= reverted@.len(),
                views(self.forks@) == of + views(reverted@).subrange(0, j as int),
                views(self.main@) == om.subrange(0, a + 1) + views(branch@),
                self.events_view() == ev,
            decreases reverted@.len() - j,
        {
            let ghost before = self.forks@;
            self.forks.push(reverted[j]);
            proof {
                assert(views(self.forks@) =~= views(before).push(reverted@[j as int]@));
                assert(views(reverted@).subrange(0, j + 1) =~= views(reverted@).subrange(0, j as int).push(
                    views(reverted@)[j as int],
                ));
            }
            j += 1;
        }
        assert(views(reverted@).subrange(0, reverted@.len() as int) =~= views(reverted@));
        self.events.push(ChainEvent::Rebranched(reverted_hashes, adopted_hashes));
        proof {
            let br = views(branch@);
            let tail = om.subrange(a + 1, om.len() as int);
            assert(self.main_view() == om.subrange(0, a + 1) + br);
            assert(self.forks_view() == of + tail);
            assert(self.events_view() =~= ev.push((1u8, hashes(tail), hashes(br))));
            lemma_rebranch_wf(om, of, a as int, br, block@);
        }
    }

    /// Decides between a stored fork and a rebranch, for a block whose branch hangs from the
    /// main block at `a`.
    fn resolve(&mut self, a: usize, branch: Vec<BlockInfo>, block: BlockInfo) -> (r: Result<
        ChainPushResult,
        PushError,
    >)
        requires
            old(self).wf(),
            old(self).is_branch(a as int, views(branch@), block@),
            old(self).early_outcome(block@, Ok(())) is None,
        ensures
            final(self).wf(),
            ({
                let o = *old(self);
                let br = views(branch@);
                let n = a + 1 + br.len();
                if o.wins(n, block.hash@) {
                    &&& r == Ok::<ChainPushResult, PushError>(ChainPushResult::Rebranched)
                    &&& final(self).settled(
                        block@,
                        o.main_view().subrange(0, a + 1) + br,
                        o.forks_view() + o.main_view().subrange(a + 1, o.main_view().len() as int),
                        o.events_view().push(
                            (
                                1u8,
                                hashes(o.main_view().subrange(a + 1, o.main_view().len() as int)),
                                hashes(br),
                            ),
                        ),
                    )
                } else {
                    &&& r == Ok::<ChainPushResult, PushError>(ChainPushResult::Forked)
                    &&& final(self).main_view() == o.main_view()
                    &&& final(self).forks_view() == o.forks_view().push(block@)
                    &&& final(self).events_view() == o.events_view()
                }
            }),
    {
        let old_len = self.main.len();
        let new_len = a as u128 + 1 + branch.len() as u128;
        let head_hash = self.main[old_len - 1].hash;
        let wins = new_len > old_len as u128 || (new_len == old_len as u128 && match lex_cmp(
            &block.hash.0,
            &head_hash.0,
        ) {
            std::cmp::Ordering::Less => true,
            _ => false,
        });
        proof {
            assert(self.main_view()[old_len - 1] == self.main@[old_len - 1]@);
        }
        let ghost om = self.main_view();
        let ghost of = self.forks_view();
        let ghost ev = self.events_view();
        proof {
            reveal(wf_parts);
            assert(!self.knows(block.hash@));
            assert forall|i: int| 0 <= i < (om + of).len() implies (#[trigger] (om + of)[i]).0
                != block@.0 by {
                assert(self.stored()[i] == (om + of)[i]);
            }
        }
        if !wins {
            self.forks.push(block);
            proof {
                assert(self.forks_view() =~= of.push(block@));
                lemma_fork_wf(om, of, block@);
            }
            return Ok(ChainPushResult::Forked);
        }
        self.rebranch(a, branch, block);
        if block.is_macro {
            self.finalize(block);
        }
        Ok(ChainPushResult::Rebranched)
    }

    fn find_main(&self, hash: &Blake2bHash) -> (r: Option<usize>)
        ensures
            match r {
                Some(i) => i < self.main_view().len() && self.main_view()[i as int].0 == hash@,
                None => forall|i: int|
                    0 <= i < self.main_view().len() ==> (#[trigger] self.main_view()[i]).0 != hash@,
            },
    {
        let mut i: usize = 0;
        while i < self.main.len()
            invariant
                0 <= i <= self.main@.len(),
                self.main_view().len() == self.main@.len(),
                forall|j: int| 0 <= j < i ==> (#[trigger] self.main_view()[j]).0 != hash@,
            decreases self.main@.len() - i,
        {
            if bytes_equal(&self.main[i].hash.0, &hash.0) {
                return Some(i);
            }
            i += 1;
        }
        None
    }

    /// Whether a branch of `len` blocks ending at `tip_hash` wins over the main chain.
    pub open spec fn wins(&self, len: int, tip_hash: Seq<u8>) -> bool {
        len > self.main_view().len() || (len == self.main_view().len() && lex_order(
            tip_hash,
            self.head().0,
        ) == std::cmp::Ordering::Less)
    }

    /// Whether `branch` hangs from the main block at `a`, ends at `tip`, and all its other
    /// blocks are stored off the main chain.
    pub open spec fn is_branch(&self, a: int, branch: Seq<BlockView>, tip: BlockView) -> bool {
        &&& 0 <= a < self.main_view().len()
        &&& branch.len() >= 1
        &&& links(self.main_view()[a], branch)
        &&& branch.last() == tip
        &&& forall|k: int| 0 <= k < branch.len() - 1 ==> self.forks_view().contains(#[trigger] branch[k])
    }

    /// Walks back from the stored fork block at `f`, the parent of `tip`, to the main chain.
    #[verifier::rlimit(60)]
    fn branch_to_main(&self, f: usize, tip: BlockInfo) -> (r: (usize, Vec<BlockInfo>))
        requires
            self.wf(),
            f < self.forks_view().len(),
            tip.parent@ == self.forks_view()[f as int].0,
            tip.block_number == self.forks_view()[f as int].2 + 1,
        ensures
            self.is_branch(r.0 as int, views(r.1@), tip@),
    {
        let mut branch: Vec<BlockInfo> = Vec::new();
        branch.push(tip);
        let mut cur = self.forks[f];
        proof {
            assert(self.forks_view()[f as int] == cur@);
            assert(views(branch@) =~= seq![tip@]);
        }
        loop
            invariant
                self.wf(),
                self.forks_view().contains(cur@),
                branch@.len() >= 1,
                views(branch@).last() == tip@,
                links(cur@, views(branch@)),
                forall|k: int|
                    0 <= k < branch@.len() - 1 ==> self.forks_view().contains(
                        #[trigger] views(branch@)[k],
                    ),
            decreases cur.block_number,
        {
            let ghost old_views = views(branch@);
            match self.find_main(&cur.parent) {
                Some(a) => {
                    proof {
                        lemma_parent_of_fork(self, cur@, a as int);
                    }
                    branch.insert(0, cur);
                    proof {
                        assert(views(branch@) =~= seq![cur@] + old_views);
                        lemma_links_cons(self.main_view()[a as int], cur@, old_views);
                        assert forall|k: int| 0 <= k < branch@.len() - 1 implies self.forks_view().contains(
                            #[trigger] views(branch@)[k],
                        ) by {
                            if k > 0 {
                                assert(views(branch@)[k] == old_views[k - 1]);
                            }
                        }
                    }
                    return (a, branch);
                },
                None => {},
            }
            match self.find_fork(&cur.parent) {
                Some(k) => {
                    let next = self.forks[k];
                    proof {
                        assert(self.stored()[self.main_view().len() + k] == self.forks_view()[k as int]);
                        lemma_parent_of_fork(self, cur@, self.main_view().len() + k);
                        assert(self.forks_view()[k as int] == next@);
                    }
                    branch.insert(0, cur);
                    proof {
                        assert(views(branch@) =~= seq![cur@] + old_views);
                        lemma_links_cons(next@, cur@, old_views);
                        assert forall|i: int| 0 <= i < branch@.len() - 1 implies self.forks_view().contains(
                            #[trigger] views(branch@)[i],
                        ) by {
                            if i > 0 {
                                assert(views(branch@)[i] == old_views[i - 1]);
                            }
                        }
                        assert(self.forks_view().contains(next@)) by {
                            assert(self.forks_view()[k as int] == next@);
                        }
                    }
                    cur = next;
                },
                None => {
                    // A fork block's parent is always stored, so this arm is never taken.
                    proof {
                        lemma_fork_parent_stored(self, cur@);
                        assert(false);
                    }
                    return (0, branch);
                },
            }
        }
    }

    fn find_fork(&self, hash: &Blake2bHash) -> (r: Option<usize>)
        ensures
            match r {
                Some(i) => i < self.forks_view().len() && self.forks_view()[i as int].0 == hash@,
                None => forall|i: int|
                    0 <= i < self.forks_view().len() ==> (#[trigger] self.forks_view()[i]).0 != hash@,
            },
    {
        let mut i: usize = 0;
        while i < self.forks.len()
            invariant
                0 <= i <= self.forks@.len(),
                self.forks_view().len() == self.forks@.len(),
                forall|j: int| 0 <= j < i ==> (#[trigger] self.forks_view()[j]).0 != hash@,
            decreases self.forks@.len() - i,
        {
            if bytes_equal(&self.forks[i].hash.0, &hash.0) {
                return Some(i);
            }
            i += 1;
        }
        None
    }
}

/// Prepending the block a chain hangs from keeps it a chain.
proof fn lemma_links_cons(from: BlockView, x: BlockView, rest: Seq<BlockView>)
    requires
        x.1 == from.0,
        x.2 == from.2 + 1,
        links(x, rest),
    ensures
        links(from, seq![x] + rest),
{
    let s = seq![x] + rest;
    assert forall|k: int| 0 <= k < s.len() implies {
        let prev = if k == 0 { from } else { s[k - 1] };
        &&& (#[trigger] s[k]).1 == prev.0
        &&& s[k].2 == prev.2 + 1
    } by {
        if k > 0 {
            assert(s[k] == rest[k - 1]);
            if k > 1 {
                assert(s[k - 1] == rest[k - 2]);
            }
        }
    }
}

/// A stored block whose hash is a fork block's parent is that parent, one number lower.
proof fn lemma_parent_of_fork(c: &Chain, x: BlockView, q: int)
    requires
        c.wf(),
        c.forks_view().contains(x),
        0 <= q < c.stored().len(),
        c.stored()[q].0 == x.1,
    ensures
        c.stored()[q].2 + 1 == x.2,
{
    reveal(wf_parts);
    let i = choose|i: int| 0 <= i < c.forks_view().len() && c.forks_view()[i] == x;
    assert(c.forks_view()[i] == x);
    let j = choose|j: int|
        0 <= j < c.stored().len() && (#[trigger] c.stored()[j]).0 == c.forks_view()[i].1 && c.stored()[j].2 + 1 == c.forks_view()[i].2;
    assert(c.stored()[j] == c.stored()[q]);
}

/// A fork block's parent is stored on the main chain or off it.
proof fn lemma_fork_parent_stored(c: &Chain, x: BlockView)
    requires
        c.wf(),
        c.forks_view().contains(x),
    ensures
        (exists|i: int| 0 <= i < c.main_view().len() && (#[trigger] c.main_view()[i]).0 == x.1)
            || (exists|i: int| 0 <= i < c.forks_view().len() && (#[trigger] c.forks_view()[i]).0 == x.1),
{
    reveal(wf_parts);
    let i = choose|i: int| 0 <= i < c.forks_view().len() && c.forks_view()[i] == x;
    assert(c.forks_view()[i] == x);
    let j = choose|j: int|
        0 <= j < c.stored().len() && (#[trigger] c.stored()[j]).0 == c.forks_view()[i].1 && c.stored()[j].2 + 1 == c.forks_view()[i].2;
    if j < c.main_view().len() {
        assert(c.main_view()[j] == c.stored()[j]);
    } else {
        assert(c.forks_view()[j - c.main_view().len()] == c.stored()[j]);
    }
}

/// Along a chain, numbers grow by one per block.
proof fn lemma_links_numbers(from: BlockView, blocks: Seq<BlockView>, k: int)
    requires
        links(from, blocks),
        0 <= k < blocks.len(),
    ensures
        blocks[k].2 == from.2 + k + 1,
    decreases k,
{
    if k > 0 {
        lemma_links_numbers(from, blocks, k - 1);
    }
}

/// A store rebuilt from the blocks of a well-formed store and one fresh block, which keeps
/// the first main block, a linked main chain and every stored block, and whose fork blocks are
/// old fork blocks, old main blocks after the first, or the fresh block, is well formed.
proof fn lemma_wf_rebuilt(
    om: Seq<BlockView>,
    of: Seq<BlockView>,
    nm: Seq<BlockView>,
    nf: Seq<BlockView>,
    block: BlockView,
)
    requires
        wf_parts(om, of),
        nm.len() >= 1,
        nm[0] == om[0],
        links(nm[0], nm.drop_first()),
        forall|x: BlockView| #[trigger] (nm + nf).contains(x) ==> (om + of).contains(x) || x == block,
        forall|x: BlockView| #[trigger] (om + of).contains(x) ==> (nm + nf).contains(x),
        forall|i: int| 0 <= i < (om + of).len() ==> (#[trigger] (om + of)[i]).0 != block.0,
        exists|j: int|
            0 <= j < (om + of).len() && (#[trigger] (om + of)[j]).0 == block.1 && (om + of)[j].2
                + 1 == block.2,
        block.2 > om[0].2,
        forall|i: int|
            0 <= i < nf.len() ==> of.contains(#[trigger] nf[i]) || nf[i] == block || exists|k: int|
                1 <= k < om.len() && om[k] == nf[i],
    ensures
        wf_parts(nm, nf),
{
    reveal(wf_parts);
    let os = om + of;
    let ns = nm + nf;
    assert forall|i: int, j: int|
        0 <= i < ns.len() && 0 <= j < ns.len() && (#[trigger] ns[i]).0 == (#[trigger] ns[j]).0 implies ns[i]
        == ns[j] by {
        assert(ns.contains(ns[i]));
        assert(ns.contains(ns[j]));
        if ns[i] != block && ns[j] != block {
            let a = choose|a: int| 0 <= a < os.len() && os[a] == ns[i];
            let b = choose|b: int| 0 <= b < os.len() && os[b] == ns[j];
            assert(os[a].0 == os[b].0);
        } else if ns[i] == block && ns[j] != block {
            let b = choose|b: int| 0 <= b < os.len() && os[b] == ns[j];
            assert(os[b].0 != block.0);
        } else if ns[j] == block && ns[i] != block {
            let a = choose|a: int| 0 <= a < os.len() && os[a] == ns[i];
            assert(os[a].0 != block.0);
        }
    }
    assert forall|i: int| 0 <= i < nf.len() implies (#[trigger] nf[i]).2 > nm[0].2 && exists|j: int|
        0 <= j < ns.len() && (#[trigger] ns[j]).0 == nf[i].1 && ns[j].2 + 1 == nf[i].2 by {
        let x = nf[i];
        if of.contains(x) {
            let fi = choose|fi: int| 0 <= fi < of.len() && of[fi] == x;
            assert(of[fi] == x);
            let j = choose|j: int|
                0 <= j < os.len() && (#[trigger] os[j]).0 == of[fi].1 && os[j].2 + 1 == of[fi].2;
            assert(os.contains(os[j]));
            assert(ns.contains(os[j]));
            let j2 = choose|j2: int| 0 <= j2 < ns.len() && ns[j2] == os[j];
            assert(ns[j2].0 == x.1);
        } else if x == block {
            let j = choose|j: int|
                0 <= j < os.len() && (#[trigger] os[j]).0 == block.1 && os[j].2 + 1 == block.2;
            assert(os.contains(os[j]));
            assert(ns.contains(os[j]));
            let j2 = choose|j2: int| 0 <= j2 < ns.len() && ns[j2] == os[j];
            assert(ns[j2].0 == x.1);
        } else {
            let k = choose|k: int| 1 <= k < om.len() && om[k] == x;
            lemma_links_numbers(om[0], om.drop_first(), k - 1);
            assert(om.drop_first()[k - 1] == om[k]);
            assert(os[k - 1] == om[k - 1]);
            if k == 1 {
                assert(om[k].1 == om[0].0);
            } else {
                assert(om.drop_first()[k - 2] == om[k - 1]);
                lemma_links_numbers(om[0], om.drop_first(), k - 2);
            }
            assert(os.contains(os[k - 1]));
            assert(ns.contains(os[k - 1]));
            let j2 = choose|j2: int| 0 <= j2 < ns.len() && ns[j2] == os[k - 1];
            assert(ns[j2].0 == x.1);
        }
    }
}

/// Copies the blocks of `v` in `[from, to)`.
fn copy_range(v: &Vec<BlockInfo>, from: usize, to: usize) -> (r: Vec<BlockInfo>)
    requires
        from <= to <= v@.len(),
    ensures
        views(r@) == views(v@).subrange(from as int, to as int),
{
    let mut out: Vec<BlockInfo> = Vec::new();
    let mut i: usize = from;
    while i < to
        invariant
            from <= i <= to,
            to <= v@.len(),
            views(out@) == views(v@).subrange(from as int, i as int),
        decreases to - i,
    {
        let ghost prev = out@;
        out.push(v[i]);
        proof {
            assert(views(out@) =~= views(prev).push(v@[i as int]@));
            assert(views(v@).subrange(from as int, i + 1) =~= views(v@).subrange(from as int, i as int).push(
                views(v@)[i as int],
            ));
        }
        i += 1;
    }
    out
}

/// The hashes of the blocks of `v`.
fn hashes_of(v: &Vec<BlockInfo>) -> (r: Vec<Blake2bHash>)
    ensures
        r@.map_values(|h: Blake2bHash| h@) == hashes(views(v@)),
{
    let mut out: Vec<Blake2bHash> = Vec::new();
    let mut i: usize = 0;
    while i < v.len()
        invariant
            0 <= i <= v@.len(),
            out@.map_values(|h: Blake2bHash| h@) == hashes(views(v@)).subrange(0, i as int),
        decreases v@.len() - i,
    {
        let ghost prev = out@;
        out.push(v[i].hash);
        proof {
            assert(out@.map_values(|h: Blake2bHash| h@) =~= prev.map_values(|h: Blake2bHash| h@).push(
                v@[i as int].hash@,
            ));
            assert(hashes(views(v@)).subrange(0, i + 1) =~= hashes(views(v@)).subrange(0, i as int).push(
                hashes(views(v@))[i as int],
            ));
        }
        i += 1;
    }
    assert(hashes(views(v@)).subrange(0, v@.len() as int) =~= hashes(views(v@)));
    out
}

/// A chain followed by a chain that hangs from its last block is a chain.
#[verifier::rlimit(50)]
proof fn lemma_links_append(from: BlockView, prefix: Seq<BlockView>, rest: Seq<BlockView>)
    requires
        links(from, prefix),
        links(if prefix.len() == 0 { from } else { prefix.last() }, rest),
    ensures
        links(from, prefix + rest),
{
    let s = prefix + rest;
    let last = if prefix.len() == 0 { from } else { prefix.last() };
    assert forall|k: int| 0 <= k < s.len() implies {
        let prev = if k == 0 { from } else { s[k - 1] };
        &&& (#[trigger] s[k]).1 == prev.0
        &&& s[k].2 == prev.2 + 1
    } by {
        if k < prefix.len() {
            assert(s[k] == prefix[k]);
            let p = prefix[k];
            assert(p.1 == (if k == 0 { from } else { prefix[k - 1] }).0);
            if k > 0 {
                assert(s[k - 1] == prefix[k - 1]);
            }
        } else {
            let j = k - prefix.len();
            assert(s[k] == rest[j]);
            let q = rest[j];
            assert(q.1 == (if j == 0 { last } else { rest[j - 1] }).0);
            if j > 0 {
                assert(s[k - 1] == rest[j - 1]);
            } else if k > 0 {
                assert(s[k - 1] == prefix.last());
            }
        }
    }
}

/// Appending a block to the main chain keeps every stored block and adds only that block.
proof fn lemma_extend_contents(om: Seq<BlockView>, of: Seq<BlockView>, block: BlockView)
    ensures
        forall|x: BlockView| #[trigger] (om.push(block) + of).contains(x) ==> (om + of).contains(x)
            || x == block,
        forall|x: BlockView| #[trigger] (om + of).contains(x) ==> (om.push(block) + of).contains(x),
        forall|i: int| 0 <= i < of.len() ==> of.contains(#[trigger] of[i]) || of[i] == block
            || exists|k: int| 1 <= k < om.len() && om[k] == of[i],
{
    let nm = om.push(block);
    assert forall|x: BlockView| #[trigger] (nm + of).contains(x) implies (om + of).contains(x)
        || x == block by {
        let i = choose|i: int| 0 <= i < (nm + of).len() && (nm + of)[i] == x;
        if i < om.len() {
            assert((om + of)[i] == x);
        } else if i > om.len() {
            assert((om + of)[i - 1] == x);
        }
    }
    assert forall|x: BlockView| #[trigger] (om + of).contains(x) implies (nm + of).contains(x) by {
        let i = choose|i: int| 0 <= i < (om + of).len() && (om + of)[i] == x;
        if i < om.len() {
            assert((nm + of)[i] == x);
        } else {
            assert((nm + of)[i + 1] == x);
        }
    }
    assert forall|i: int| 0 <= i < of.len() implies of.contains(#[trigger] of[i]) || of[i] == block
        || exists|k: int| 1 <= k < om.len() && om[k] == of[i] by {
        assert(of[i] == of[i]);
    }
}

/// Storing a fresh block, whose parent is stored one number lower, as a fork keeps the store
/// well formed.
proof fn lemma_fork_wf(om: Seq<BlockView>, of: Seq<BlockView>, block: BlockView)
    requires
        wf_parts(om, of),
        forall|i: int| 0 <= i < (om + of).len() ==> (#[trigger] (om + of)[i]).0 != block.0,
        exists|j: int|
            0 <= j < (om + of).len() && (#[trigger] (om + of)[j]).0 == block.1 && (om + of)[j].2
                + 1 == block.2,
        block.2 > om[0].2,
    ensures
        wf_parts(om, of.push(block)),
{
    reveal(wf_parts);
    let nf = of.push(block);
    assert forall|x: BlockView| #[trigger] (om + nf).contains(x) implies (om + of).contains(x)
        || x == block by {
        let i = choose|i: int| 0 <= i < (om + nf).len() && (om + nf)[i] == x;
        if i < (om + of).len() {
            assert((om + of)[i] == x);
        }
    }
    assert forall|x: BlockView| #[trigger] (om + of).contains(x) implies (om + nf).contains(x) by {
        let i = choose|i: int| 0 <= i < (om + of).len() && (om + of)[i] == x;
        assert((om + nf)[i] == x);
    }
    assert forall|i: int| 0 <= i < nf.len() implies of.contains(#[trigger] nf[i]) || nf[i] == block
        || exists|k: int| 1 <= k < om.len() && om[k] == nf[i] by {
        if i < of.len() {
            assert(of[i] == nf[i]);
        }
    }
    lemma_wf_rebuilt(om, of, om, nf, block);
}

/// Switching the main chain to a winning branch that hangs from the main block at `a` and
/// ends at a fresh block, and keeping the blocks taken off the main chain as forks, keeps the
/// store well formed.
#[verifier::rlimit(80)]
proof fn lemma_rebranch_wf(om: Seq<BlockView>, of: Seq<BlockView>, a: int, br: Seq<BlockView>, block: BlockView)
    requires
        wf_parts(om, of),
        0 <= a < om.len(),
        br.len() >= 1,
        links(om[a], br),
        br.last() == block,
        forall|k: int| 0 <= k < br.len() - 1 ==> of.contains(#[trigger] br[k]),
        forall|i: int| 0 <= i < (om + of).len() ==> (#[trigger] (om + of)[i]).0 != block.0,
        exists|j: int|
            0 <= j < (om + of).len() && (#[trigger] (om + of)[j]).0 == block.1 && (om + of)[j].2
                + 1 == block.2,
        block.2 > om[0].2,
    ensures
        wf_parts(om.subrange(0, a + 1) + br, of + om.subrange(a + 1, om.len() as int)),
{
    let nm = om.subrange(0, a + 1) + br;
    let tail = om.subrange(a + 1, om.len() as int);
    let nf = of + tail;
    lemma_rebranch_links(om, of, a, br);
    lemma_rebranch_contents(om, of, a, br, block);
    lemma_wf_rebuilt(om, of, nm, nf, block);
}

/// The main chain after a rebranch is linked from the first main block.
proof fn lemma_rebranch_links(om: Seq<BlockView>, of: Seq<BlockView>, a: int, br: Seq<BlockView>)
    requires
        wf_parts(om, of),
        0 <= a < om.len(),
        links(om[a], br),
    ensures
        ({
            let nm = om.subrange(0, a + 1) + br;
            nm.len() >= 1 && nm[0] == om[0] && links(nm[0], nm.drop_first())
        }),
{
    let nm = om.subrange(0, a + 1) + br;
    assert(links(om[0], om.drop_first())) by {
        reveal(wf_parts);
    }
    let pre = om.subrange(0, a + 1);
    assert(links(om[0], pre.drop_first())) by {
        assert forall|k: int| 0 <= k < pre.drop_first().len() implies {
            let prev = if k == 0 { om[0] } else { pre.drop_first()[k - 1] };
            &&& (#[trigger] pre.drop_first()[k]).1 == prev.0
            &&& pre.drop_first()[k].2 == prev.2 + 1
        } by {
            assert(pre.drop_first()[k] == om.drop_first()[k]);
            if k > 0 {
                assert(pre.drop_first()[k - 1] == om.drop_first()[k - 1]);
            }
        }
    }
    assert(pre.drop_first().len() == 0 ==> om[a] == om[0]);
    assert(pre.drop_first().len() > 0 ==> pre.drop_first().last() == om[a]);
    lemma_links_append(om[0], pre.drop_first(), br);
    assert(nm.drop_first() =~= pre.drop_first() + br);
    assert(nm[0] == om[0]);
}

/// The blocks stored after a rebranch are the blocks stored before and the fresh block.
#[verifier::rlimit(60)]
proof fn lemma_rebranch_contents(om: Seq<BlockView>, of: Seq<BlockView>, a: int, br: Seq<BlockView>, block: BlockView)
    requires
        0 <= a < om.len(),
        br.len() >= 1,
        br.last() == block,
        forall|k: int| 0 <= k < br.len() - 1 ==> of.contains(#[trigger] br[k]),
    ensures
        ({
            let nm = om.subrange(0, a + 1) + br;
            let nf = of + om.subrange(a + 1, om.len() as int);
            &&& forall|x: BlockView| #[trigger] (nm + nf).contains(x) ==> (om + of).contains(x) || x == block
            &&& forall|x: BlockView| #[trigger] (om + of).contains(x) ==> (nm + nf).contains(x)
            &&& forall|i: int| 0 <= i < nf.len() ==> of.contains(#[trigger] nf[i]) || nf[i] == block
                || exists|k: int| 1 <= k < om.len() && om[k] == nf[i]
        }),
{
    let nm = om.subrange(0, a + 1) + br;
    let nf = of + om.subrange(a + 1, om.len() as int);
    assert forall|x: BlockView| #[trigger] (nm + nf).contains(x) implies (om + of).contains(x)
        || x == block by {
        let i = choose|i: int| 0 <= i < (nm + nf).len() && (nm + nf)[i] == x;
        if i <= a {
            assert((om + of)[i] == x);
        } else if i < nm.len() {
            let k = i - (a + 1);
            assert(br[k] == x);
            if k < br.len() - 1 {
                assert(of.contains(br[k]));
                let q = choose|q: int| 0 <= q < of.len() && of[q] == br[k];
                assert((om + of)[om.len() + q] == x);
            }
        } else if i < nm.len() + of.len() {
            assert((om + of)[om.len() + (i - nm.len())] == x);
        } else {
            let k = i - nm.len() - of.len();
            assert((om + of)[a + 1 + k] == x);
        }
    }
    assert forall|x: BlockView| #[trigger] (om + of).contains(x) implies (nm + nf).contains(x) by {
        let i = choose|i: int| 0 <= i < (om + of).len() && (om + of)[i] == x;
        if i <= a {
            assert((nm + nf)[i] == x);
        } else if i < om.len() {
            assert((nm + nf)[nm.len() + of.len() + (i - (a + 1))] == x);
        } else {
            assert((nm + nf)[nm.len() + (i - om.len())] == x);
        }
    }
    assert forall|i: int| 0 <= i < nf.len() implies of.contains(#[trigger] nf[i]) || nf[i] == block
        || exists|k: int| 1 <= k < om.len() && om[k] == nf[i] by {
        if i < of.len() {
            assert(of[i] == nf[i]);
        } else {
            assert(om[a + 1 + (i - of.len())] == nf[i]);
        }
    }
}

/// An event as plain values.
pub open spec fn event_view(e: ChainEvent) -> (u8, Seq<Seq<u8>>, Seq<Seq<u8>>) {
    match e {
        ChainEvent::Extended(h) => (0u8, seq![h@], Seq::empty()),
        ChainEvent::Rebranched(reverted, adopted) => (
            1u8,
            reverted@.map_values(|h: Blake2bHash| h@),
            adopted@.map_values(|h: Blake2bHash| h@),
        ),
        ChainEvent::Finalized(h) => (2u8, seq![h@], Seq::empty()),
        ChainEvent::EpochFinalized(h) => (3u8, seq![h@], Seq::empty()),
    }
}

} // verus!
