//! The light history store: one peaks-only range per epoch over the digests of the epoch's
//! historic transactions, with what is needed to take the last block of an epoch out again,
//! and the validity set of the transactions included within the validity window.

use vstd::prelude::*;

use crate::mmr::{peaks_of, root_of, PeaksMerkleMountainRange};
use crate::blockchain::BlockError;
use crate::policy::Policy;
use crate::primitives::{Blake2bHash, NetworkId};
use crate::validity::{lemma_add_then_remove_block, without_block, EntryView, ValidityStore};

verus! {

/// The range of an epoch as it stood before a block was added.
struct UndoRecord {
    block_number: u32,
    tree: PeaksMerkleMountainRange,
}

/// The history of one epoch.
struct EpochHistory {
    epoch_number: u32,
    tree: PeaksMerkleMountainRange,
    undo: Vec<UndoRecord>,
}

/// What the store keeps of an epoch, as plain values: its leaves, and for each block added,
/// in order, the block number and the leaves before it.
pub type EpochView = (Seq<Seq<u8>>, Seq<(u32, Seq<Seq<u8>>)>);

/// An epoch the store never saw.
pub open spec fn empty_epoch() -> EpochView {
    (Seq::empty(), Seq::empty())
}

impl EpochHistory {
    spec fn view(&self) -> EpochView {
        (self.tree@, self.undo@.map_values(|u: UndoRecord| (u.block_number, u.tree@)))
    }

    spec fn wf(&self) -> bool {
        &&& self.tree.wf()
        &&& forall|i: int| 0 <= i < self.undo@.len() ==> (#[trigger] self.undo@[i]).tree.wf()
    }
}

fn append_hashes(out: &mut Vec<Blake2bHash>, hashes: &[Blake2bHash])
    ensures
        final(out)@ == old(out)@ + hashes@,
{
    let ghost start = out@;
    let mut i: usize = 0;
    while i < hashes.len()
        invariant
            0 <= i <= hashes@.len(),
            out@ == start + hashes@.subrange(0, i as int),
        decreases hashes@.len() - i,
    {
        out.push(hashes[i]);
        i += 1;
        assert(out@ =~= start + hashes@.subrange(0, i as int));
    }
    assert(hashes@.subrange(0, hashes@.len() as int) =~= hashes@);
}

/// The leaves of a sequence of chunks, in order.
pub open spec fn flatten_chunks(chunks: Seq<Seq<Seq<u8>>>) -> Seq<Seq<u8>>
    decreases chunks.len(),
{
    if chunks.len() == 0 {
        Seq::empty()
    } else {
        flatten_chunks(chunks.drop_last()) + chunks.last()
    }
}

/// The digests of each chunk as plain values.
pub open spec fn chunks_view(chunks: Seq<Vec<Blake2bHash>>) -> Seq<Seq<Seq<u8>>> {
    chunks.map_values(|c: Vec<Blake2bHash>| c@.map_values(|h: Blake2bHash| h@))
}

/// A range of the digests of the chunks, in order.
fn build_from_chunks(chunks: &[Vec<Blake2bHash>]) -> (r: PeaksMerkleMountainRange)
    requires
        flatten_chunks(chunks_view(chunks@)).len() < u64::MAX,
    ensures
        r.wf(),
        r@ == flatten_chunks(chunks_view(chunks@)),
{
    let mut tree = PeaksMerkleMountainRange::new();
    let mut k: usize = 0;
    while k < chunks.len()
        invariant
            0 <= k <= chunks@.len(),
            tree.wf(),
            tree@ == flatten_chunks(chunks_view(chunks@.subrange(0, k as int))),
            flatten_chunks(chunks_view(chunks@)).len() < u64::MAX,
        decreases chunks@.len() - k,
    {
        let chunk = &chunks[k];
        let ghost before = tree@;
        proof {
            lemma_flatten_prefix(chunks_view(chunks@), k as int + 1);
            assert(chunks_view(chunks@.subrange(0, k + 1)) =~= chunks_view(chunks@).subrange(0, k + 1));
            assert(chunks_view(chunks@.subrange(0, k as int)) =~= chunks_view(chunks@).subrange(0, k as int));
            assert(chunks_view(chunks@).subrange(0, k + 1).drop_last() =~= chunks_view(chunks@).subrange(0, k as int));
        }
        let mut i: usize = 0;
        while i < chunk.len()
            invariant
                0 <= i <= chunk@.len(),
                tree.wf(),
                tree@ == before + chunk@.subrange(0, i as int).map_values(|h: Blake2bHash| h@),
                before.len() + chunk@.len() < u64::MAX,
            decreases chunk@.len() - i,
        {
            tree.push(&chunk[i].0);
            i += 1;
            assert(tree@ =~= before + chunk@.subrange(0, i as int).map_values(|h: Blake2bHash| h@));
        }
        assert(chunk@.subrange(0, chunk@.len() as int) =~= chunk@);
        k += 1;
    }
    assert(chunks@.subrange(0, chunks@.len() as int) =~= chunks@);
    tree
}

/// The leaves of the first `k` chunks are a prefix of the leaves of all chunks.
proof fn lemma_flatten_prefix(chunks: Seq<Seq<Seq<u8>>>, k: int)
    requires
        0 <= k <= chunks.len(),
    ensures
        flatten_chunks(chunks.subrange(0, k)).len() <= flatten_chunks(chunks).len(),
        k > 0 ==> flatten_chunks(chunks.subrange(0, k)) == flatten_chunks(chunks.subrange(0, k - 1))
            + chunks[k - 1],
    decreases chunks.len(),
{
    if k > 0 {
        assert(chunks.subrange(0, k).drop_last() =~= chunks.subrange(0, k - 1));
    }
    if k < chunks.len() {
        lemma_flatten_prefix(chunks.drop_last(), k);
        assert(chunks.drop_last().subrange(0, k) =~= chunks.subrange(0, k));
    } else {
        assert(chunks.subrange(0, k) =~= chunks);
    }
}

/// The validity entries of a block's transactions.
pub open spec fn added_transactions(transactions: Seq<Blake2bHash>, block_number: u32) -> Seq<EntryView> {
    transactions.map_values(|h: Blake2bHash| (h@, block_number))
}

/// An epoch after a block appended `leaves` to it.
pub open spec fn after_add(v: EpochView, block_number: u32, leaves: Seq<Seq<u8>>) -> EpochView {
    (v.0 + leaves, v.1.push((block_number, v.0)))
}

/// An epoch after its last block is taken out, when that block is `block_number`; otherwise
/// unchanged.
pub open spec fn after_remove(v: EpochView, block_number: u32) -> EpochView {
    if v.1.len() > 0 && v.1.last().0 == block_number {
        (v.1.last().1, v.1.drop_last())
    } else {
        v
    }
}

/// Adding a block to an epoch and then removing it leaves the epoch as it was.
pub proof fn lemma_add_then_remove(v: EpochView, block_number: u32, leaves: Seq<Seq<u8>>)
    ensures
        after_remove(after_add(v, block_number, leaves), block_number) == v,
{
    let w = after_add(v, block_number, leaves);
    assert(w.1.drop_last() =~= v.1);
}

/// Adding a block to the store and then removing it again leaves its epoch and the validity
/// set as they were, when the validity set held nothing of that block.
pub proof fn lemma_add_block_then_remove(
    v: EpochView,
    validity: Seq<EntryView>,
    block_number: u32,
    leaves: Seq<Seq<u8>>,
    transactions: Seq<Blake2bHash>,
)
    requires
        forall|i: int| 0 <= i < validity.len() ==> (#[trigger] validity[i]).1 != block_number,
    ensures
        after_remove(after_add(v, block_number, leaves), block_number) == v,
        without_block(validity + added_transactions(transactions, block_number), block_number)
            == validity,
{
    lemma_add_then_remove(v, block_number, leaves);
    let hs = transactions.map_values(|h: Blake2bHash| h@);
    lemma_add_then_remove_block(validity, block_number, hs);
    assert(added_transactions(transactions, block_number) =~= hs.map_values(
        |h: Seq<u8>| (h, block_number),
    ));
}

/// Why the history store refuses a request.
#[derive(Clone, Copy, Debug, PartialEq, Eq, Structural)]
pub enum HistoryError {
    /// The chunks do not rebuild the expected root.
    RootMismatch,
}

/// A simplified history store for light nodes, which keeps only the peaks of each epoch's range.
pub struct LightHistoryStore {
    network_id: NetworkId,
    epochs: Vec<EpochHistory>,
    validity: ValidityStore,
}

spec fn has_epoch(epochs: Seq<EpochHistory>, e: u32) -> bool {
    exists|i: int| 0 <= i < epochs.len() && (#[trigger] epochs[i]).epoch_number == e
}

spec fn unique(epochs: Seq<EpochHistory>) -> bool {
    forall|i: int, j: int|
        0 <= i < epochs.len() && 0 <= j < epochs.len() && i != j ==> (#[trigger] epochs[i]).epoch_number
            != (#[trigger] epochs[j]).epoch_number
}

spec fn epoch_in(epochs: Seq<EpochHistory>, e: u32) -> EpochView {
    if has_epoch(epochs, e) {
        let i = choose|i: int| 0 <= i < epochs.len() && (#[trigger] epochs[i]).epoch_number == e;
        epochs[i].view()
    } else {
        empty_epoch()
    }
}

proof fn lemma_epoch_in(epochs: Seq<EpochHistory>, k: int, e: u32)
    requires
        unique(epochs),
        0 <= k < epochs.len(),
        epochs[k].epoch_number == e,
    ensures
        epoch_in(epochs, e) == epochs[k].view(),
{
    assert(has_epoch(epochs, e));
    let i = choose|i: int| 0 <= i < epochs.len() && (#[trigger] epochs[i]).epoch_number == e;
    if i != k {
        assert(epochs[i].epoch_number != epochs[k].epoch_number);
    }
}

/// Replacing or appending the entry of epoch `e` changes no other epoch.
proof fn lemma_other_epochs(a: Seq<EpochHistory>, b: Seq<EpochHistory>, e: u32, x: u32)
    requires
        unique(a),
        unique(b),
        x != e,
        a.len() <= b.len(),
        forall|i: int| 0 <= i < a.len() && a[i].epoch_number != e ==> #[trigger] b[i] == a[i],
        forall|i: int| 0 <= i < a.len() && a[i].epoch_number == e ==> #[trigger] b[i].epoch_number == e,
        forall|i: int| a.len() <= i < b.len() ==> #[trigger] b[i].epoch_number == e,
    ensures
        epoch_in(b, x) == epoch_in(a, x),
{
    if has_epoch(a, x) {
        let k = choose|k: int| 0 <= k < a.len() && (#[trigger] a[k]).epoch_number == x;
        lemma_epoch_in(a, k, x);
        assert(b[k] == a[k]);
        lemma_epoch_in(b, k, x);
    } else if has_epoch(b, x) {
        let k = choose|k: int| 0 <= k < b.len() && (#[trigger] b[k]).epoch_number == x;
        if k < a.len() {
            if a[k].epoch_number == e {
                assert(b[k].epoch_number == e);
            } else {
                assert(b[k] == a[k]);
                assert(has_epoch(a, x));
            }
        } else {
            assert(b[k].epoch_number == e);
        }
    }
}

/// Inserting the entry of a new epoch `e` changes no other epoch.
proof fn lemma_shifted_epochs(a: Seq<EpochHistory>, b: Seq<EpochHistory>, k: int, e: u32, x: u32)
    requires
        unique(a),
        unique(b),
        x != e,
        0 <= k <= a.len(),
        b == a.insert(k, b[k]),
        b[k].epoch_number == e,
    ensures
        epoch_in(b, x) == epoch_in(a, x),
{
    if has_epoch(a, x) {
        let j = choose|j: int| 0 <= j < a.len() && (#[trigger] a[j]).epoch_number == x;
        lemma_epoch_in(a, j, x);
        let bj = if j < k { j } else { j + 1 };
        assert(b[bj] == a[j]);
        lemma_epoch_in(b, bj, x);
    } else if has_epoch(b, x) {
        let j = choose|j: int| 0 <= j < b.len() && (#[trigger] b[j]).epoch_number == x;
        if j < k {
            assert(b[j] == a[j]);
        } else if j > k {
            assert(b[j] == a[j - 1]);
        }
    }
}

impl LightHistoryStore {
    /// The network the store belongs to.
    pub closed spec fn network(&self) -> NetworkId {
        self.network_id
    }

    /// The transactions of the validity window, with the blocks that included them.
    pub closed spec fn validity(&self) -> Seq<EntryView> {
        self.validity@
    }

    /// What the store keeps of an epoch; an epoch it never saw is empty.
    pub closed spec fn epoch(&self, epoch_number: u32) -> EpochView {
        epoch_in(self.epochs@, epoch_number)
    }

    /// Epoch numbers are unique and every range is well formed.
    pub closed spec fn wf(&self) -> bool {
        &&& unique(self.epochs@)
        &&& forall|i: int| 0 <= i < self.epochs@.len() ==> (#[trigger] self.epochs@[i]).wf()
    }

    /// An empty store.
    pub fn new(network_id: NetworkId) -> (r: LightHistoryStore)
        ensures
            r.wf(),
            r.network() == network_id,
            forall|e: u32| #[trigger] r.epoch(e) == empty_epoch(),
            r.validity().len() == 0,
    {
        LightHistoryStore { network_id, epochs: Vec::new(), validity: ValidityStore::new() }
    }

    fn find(&self, epoch_number: u32) -> (r: Option<usize>)
        requires
            self.wf(),
        ensures
            match r {
                Some(i) => i < self.epochs@.len() && self.epochs@[i as int].epoch_number
                    == epoch_number && self.epoch(epoch_number) == self.epochs@[i as int].view(),
                None => !has_epoch(self.epochs@, epoch_number) && self.epoch(epoch_number)
                    == empty_epoch(),
            },
    {
        let mut i: usize = 0;
        while i < self.epochs.len()
            invariant
                self.wf(),
                0 <= i <= self.epochs@.len(),
                forall|j: int| 0 <= j < i ==> (#[trigger] self.epochs@[j]).epoch_number != epoch_number,
            decreases self.epochs@.len() - i,
        {
            if self.epochs[i].epoch_number == epoch_number {
                proof {
                    lemma_epoch_in(self.epochs@, i as int, epoch_number);
                }
                return Some(i);
            }
            i += 1;
        }
        None
    }

    /// Appends the digests of a block's historic transactions to the range of an epoch, and
    /// returns the epoch's new root and its number of leaves.
    pub fn add_to_history(
        &mut self,
        epoch_number: u32,
        block_number: u32,
        hist_tx_hashes: &[Blake2bHash],
    ) -> (r: (Blake2bHash, u64))
        requires
            old(self).wf(),
            old(self).epoch(epoch_number).0.len() + hist_tx_hashes@.len() < u64::MAX,
        ensures
            final(self).wf(),
            final(self).network() == old(self).network(),
            final(self).epoch(epoch_number) == after_add(
                old(self).epoch(epoch_number),
                block_number,
                hist_tx_hashes@.map_values(|h: Blake2bHash| h@),
            ),
            forall|e: u32| e != epoch_number ==> #[trigger] final(self).epoch(e) == old(self).epoch(e),
            r.0@ == root_of(final(self).epoch(epoch_number).0),
            r.1 == final(self).epoch(epoch_number).0.len(),
            final(self).validity() == old(self).validity(),
    {
        let (found, mut entry) = self.take(epoch_number);
        let ghost before = entry.view();
        let snapshot = entry.tree.snapshot();
        entry.undo.push(UndoRecord { block_number, tree: snapshot });
        let ghost undo = entry.undo@;
        proof {
            assert forall|k: int| 0 <= k < undo.len() implies (#[trigger] undo[k]).tree.wf() by {}
        }
        let ghost start = entry.tree@;
        let mut i: usize = 0;
        while i < hist_tx_hashes.len()
            invariant
                0 <= i <= hist_tx_hashes@.len(),
                entry.epoch_number == epoch_number,
                entry.undo@ == undo,
                forall|k: int| 0 <= k < undo.len() ==> (#[trigger] undo[k]).tree.wf(),
                entry.tree.wf(),
                entry.tree@ == start + hist_tx_hashes@.subrange(0, i as int).map_values(
                    |h: Blake2bHash| h@,
                ),
                start.len() + hist_tx_hashes@.len() < u64::MAX,
            decreases hist_tx_hashes@.len() - i,
        {
            entry.tree.push(&hist_tx_hashes[i].0);
            i += 1;
            assert(entry.tree@ =~= start + hist_tx_hashes@.subrange(0, i as int).map_values(
                |h: Blake2bHash| h@,
            ));
        }
        assert(hist_tx_hashes@.subrange(0, hist_tx_hashes@.len() as int) =~= hist_tx_hashes@);
        let root = entry.tree.get_root();
        let leaves = entry.tree.num_leaves();
        proof {
            assert(entry.view().1 =~= before.1.push((block_number, before.0)));
        }
        self.put_back(found, entry);
        (root, leaves)
    }

    /// Adds a block's history to the range of its epoch, in order: the digests of its
    /// executed transactions, of its inherents, then of its equivocation locators; the
    /// transactions also enter the validity set. Returns the epoch's new root and its number of
    /// leaves.
    pub fn add_block(
        &mut self,
        policy: &Policy,
        block_number: u32,
        transactions: &[Blake2bHash],
        inherents: &[Blake2bHash],
        equivocations: &[Blake2bHash],
    ) -> (r: (Blake2bHash, u64))
        requires
            old(self).wf(),
            policy.wf(),
            old(self).epoch(policy.epoch_of(block_number as int) as u32).0.len()
                + transactions@.len() + inherents@.len() + equivocations@.len() < u64::MAX,
        ensures
            ({
                let e = policy.epoch_of(block_number as int) as u32;
                let leaves = (transactions@ + inherents@ + equivocations@).map_values(
                    |h: Blake2bHash| h@,
                );
                &&& final(self).wf()
                &&& final(self).network() == old(self).network()
                &&& final(self).epoch(e) == after_add(old(self).epoch(e), block_number, leaves)
                &&& forall|x: u32| x != e ==> #[trigger] final(self).epoch(x) == old(self).epoch(x)
                &&& r.0@ == root_of(final(self).epoch(e).0)
                &&& r.1 == final(self).epoch(e).0.len()
                &&& final(self).validity() == old(self).validity() + added_transactions(
                    transactions@,
                    block_number,
                )
            }),
    {
        let epoch_number = policy.epoch_at(block_number);
        let mut hist: Vec<Blake2bHash> = Vec::new();
        append_hashes(&mut hist, transactions);
        append_hashes(&mut hist, inherents);
        append_hashes(&mut hist, equivocations);
        let ghost before = self.validity();
        self.validity.add_block(block_number, transactions);
        assert(self.validity() =~= before + added_transactions(transactions@, block_number));
        assert forall|x: u32| #[trigger] self.epoch(x) == old(self).epoch(x) by {}
        self.add_to_history(epoch_number, block_number, hist.as_slice())
    }

    /// Applies a block's history and checks the history root that its header claims. On a
    /// mismatch the block's history is taken out again and the block is rejected.
    pub fn apply_block_history(
        &mut self,
        policy: &Policy,
        block_number: u32,
        transactions: &[Blake2bHash],
        inherents: &[Blake2bHash],
        equivocations: &[Blake2bHash],
        history_root: &Blake2bHash,
    ) -> (r: Result<(), BlockError>)
        requires
            old(self).wf(),
            policy.wf(),
            old(self).epoch(policy.epoch_of(block_number as int) as u32).0.len()
                + transactions@.len() + inherents@.len() + equivocations@.len() < u64::MAX,
        ensures
            ({
                let e = policy.epoch_of(block_number as int) as u32;
                let leaves = (transactions@ + inherents@ + equivocations@).map_values(
                    |h: Blake2bHash| h@,
                );
                let applied = after_add(old(self).epoch(e), block_number, leaves);
                &&& final(self).wf()
                &&& final(self).network() == old(self).network()
                &&& (r is Ok) == (history_root@ == root_of(applied.0))
                &&& r is Ok ==> final(self).epoch(e) == applied
                &&& r is Ok ==> final(self).validity() == old(self).validity() + added_transactions(
                    transactions@,
                    block_number,
                )
                &&& r is Err ==> r == Err::<(), BlockError>(BlockError::BadHistoryRoot)
                    && final(self).epoch(e) == old(self).epoch(e)
                &&& r is Err ==> final(self).validity() == without_block(
                    old(self).validity() + added_transactions(transactions@, block_number),
                    block_number,
                )
                &&& forall|x: u32| x != e ==> #[trigger] final(self).epoch(x) == old(self).epoch(x)
            }),
    {
        let (root, _) = self.add_block(policy, block_number, transactions, inherents, equivocations);
        if root == *history_root {
            Ok(())
        } else {
            let ghost e = policy.epoch_of(block_number as int) as u32;
            let ghost before = old(self).epoch(e);
            let ghost leaves = (transactions@ + inherents@ + equivocations@).map_values(
                |h: Blake2bHash| h@,
            );
            self.remove_block_at(policy, block_number);
            proof {
                lemma_add_then_remove(before, block_number, leaves);
            }
            Err(BlockError::BadHistoryRoot)
        }
    }

    /// Takes a block out of the range of its epoch, when it is the epoch's last block.
    pub fn remove_block_at(&mut self, policy: &Policy, block_number: u32)
        requires
            old(self).wf(),
            policy.wf(),
        ensures
            ({
                let e = policy.epoch_of(block_number as int) as u32;
                &&& final(self).wf()
                &&& final(self).network() == old(self).network()
                &&& final(self).epoch(e) == after_remove(old(self).epoch(e), block_number)
                &&& forall|x: u32| x != e ==> #[trigger] final(self).epoch(x) == old(self).epoch(x)
                &&& final(self).validity() == without_block(old(self).validity(), block_number)
            }),
    {
        let epoch_number = policy.epoch_at(block_number);
        self.remove_block(epoch_number, block_number);
    }

    /// Takes the last block of an epoch out of its range, when that block is `block_number`:
    /// the range goes back to what it was before the block was added. The block's
    /// transactions leave the validity set.
    pub fn remove_block(&mut self, epoch_number: u32, block_number: u32)
        requires
            old(self).wf(),
        ensures
            final(self).wf(),
            final(self).network() == old(self).network(),
            final(self).epoch(epoch_number) == after_remove(old(self).epoch(epoch_number), block_number),
            forall|e: u32| e != epoch_number ==> #[trigger] final(self).epoch(e) == old(self).epoch(e),
            final(self).validity() == without_block(old(self).validity(), block_number),
    {
        self.validity.remove_block(block_number);
        let (found, mut entry) = self.take(epoch_number);
        let ghost before = entry.view();
        let n = entry.undo.len();
        if n > 0 && entry.undo[n - 1].block_number == block_number {
            let record = entry.undo.pop().unwrap();
            entry.tree = record.tree;
            proof {
                assert(entry.view().1 =~= before.1.drop_last());
                assert forall|k: int| 0 <= k < entry.undo@.len() implies (#[trigger] entry.undo@[k]).tree.wf() by {}
            }
        }
        self.put_back(found, entry);
    }

    /// The root of an epoch's range.
    pub fn get_history_tree_root(&self, epoch_number: u32) -> (r: Option<Blake2bHash>)
        requires
            self.wf(),
        ensures
            r matches Some(h) && h@ == root_of(self.epoch(epoch_number).0),
    {
        match self.find(epoch_number) {
            Some(i) => {
                proof {
                    assert(self.epochs@[i as int].wf());
                }
                Some(self.epochs[i].tree.get_root())
            },
            None => {
                let empty = PeaksMerkleMountainRange::new();
                Some(empty.get_root())
            },
        }
    }

    /// The number of nodes of an epoch's range: twice the leaves minus the peaks.
    pub fn total_len_at_epoch(&self, epoch_number: u32) -> (r: u64)
        requires
            self.wf(),
            self.epoch(epoch_number).0.len() <= u64::MAX / 2,
        ensures
            r == 2 * self.epoch(epoch_number).0.len() - peaks_of(self.epoch(epoch_number).0).len(),
    {
        match self.find(epoch_number) {
            Some(i) => {
                proof {
                    assert(self.epochs@[i as int].wf());
                }
                self.epochs[i].tree.len()
            },
            None => 0,
        }
    }

    /// The number of historic transactions of an epoch.
    pub fn num_epoch_transactions(&self, epoch_number: u32) -> (r: u64)
        requires
            self.wf(),
        ensures
            r == self.epoch(epoch_number).0.len(),
    {
        match self.find(epoch_number) {
            Some(i) => {
                proof {
                    assert(self.epochs@[i as int].wf());
                }
                self.epochs[i].tree.num_leaves()
            },
            None => 0,
        }
    }

    /// Rebuilds an epoch from its chunks of historic transaction digests, taken in order, and
    /// checks them against the epoch root that the node already trusts. When the root matches,
    /// the epoch holds exactly these leaves, with no block to take out; otherwise nothing
    /// changes.
    pub fn tree_from_chunks(
        &mut self,
        epoch_number: u32,
        chunks: &[Vec<Blake2bHash>],
        expected_root: &Blake2bHash,
    ) -> (r: Result<Blake2bHash, HistoryError>)
        requires
            old(self).wf(),
            flatten_chunks(chunks_view(chunks@)).len() < u64::MAX,
        ensures
            ({
                let leaves = flatten_chunks(chunks_view(chunks@));
                &&& final(self).wf()
                &&& final(self).network() == old(self).network()
                &&& final(self).validity() == old(self).validity()
                &&& forall|x: u32| x != epoch_number ==> #[trigger] final(self).epoch(x) == old(self).epoch(x)
                &&& (r is Ok) == (root_of(leaves) == expected_root@)
                &&& r is Ok ==> r == Ok::<Blake2bHash, HistoryError>(*expected_root)
                    && final(self).epoch(epoch_number) == (leaves, Seq::<(u32, Seq<Seq<u8>>)>::empty())
                &&& r is Err ==> r == Err::<Blake2bHash, HistoryError>(HistoryError::RootMismatch)
                    && final(self).epoch(epoch_number) == old(self).epoch(epoch_number)
            }),
    {
        let tree = build_from_chunks(chunks);
        let root = tree.get_root();
        if root != *expected_root {
            return Err(HistoryError::RootMismatch);
        }
        let (found, _old_entry) = self.take(epoch_number);
        let entry = EpochHistory { epoch_number, tree, undo: Vec::new() };
        assert(entry.view().1 =~= Seq::<(u32, Seq<Seq<u8>>)>::empty());
        self.put_back(found, entry);
        Ok(*expected_root)
    }

    /// Whether a transaction is in the validity set: including it again would be a replay.
    pub fn contains_transaction(&self, hash: &Blake2bHash) -> (r: bool)
        ensures
            r == exists|i: int| 0 <= i < self.validity().len() && (#[trigger] self.validity()[i]).0 == hash@,
    {
        let r = self.validity.contains(hash);
        proof {
            if r {
                let i = choose|i: int|
                    0 <= i < self.validity@.len() && (#[trigger] self.validity@[i]).0 == hash@;
                assert(self.validity()[i].0 == hash@);
            }
        }
        r
    }

    /// Forgets the validity entries of blocks before `oldest`: they left the validity window.
    pub fn prune_validity(&mut self, oldest: u32)
        requires
            old(self).wf(),
        ensures
            final(self).wf(),
            final(self).network() == old(self).network(),
            forall|e: u32| #[trigger] final(self).epoch(e) == old(self).epoch(e),
            final(self).validity() == crate::validity::from_block(old(self).validity(), oldest),
    {
        self.validity.prune(oldest);
    }

    /// Forgets every epoch.
    pub fn clear(&mut self)
        ensures
            final(self).wf(),
            final(self).network() == old(self).network(),
            forall|e: u32| #[trigger] final(self).epoch(e) == empty_epoch(),
            final(self).validity() == old(self).validity(),
    {
        self.epochs = Vec::new();
    }

    /// Takes the entry of an epoch out of the list, or makes an empty one.
    fn take(&mut self, epoch_number: u32) -> (r: (Option<usize>, EpochHistory))
        requires
            old(self).wf(),
        ensures
            r.1.wf(),
            r.1.epoch_number == epoch_number,
            r.1.view() == old(self).epoch(epoch_number),
            final(self).network_id == old(self).network_id,
            match r.0 {
                Some(i) => i < old(self).epochs@.len() && old(self).epochs@[i as int].epoch_number
                    == epoch_number && final(self).epochs@ == old(self).epochs@.remove(i as int),
                None => !has_epoch(old(self).epochs@, epoch_number) && final(self).epochs@ == old(
                    self,
                ).epochs@,
            },
            !has_epoch(final(self).epochs@, epoch_number),
            forall|x: u32|
                x != epoch_number ==> #[trigger] final(self).epoch(x) == old(self).epoch(x),
            unique(final(self).epochs@),
            forall|i: int|
                0 <= i < final(self).epochs@.len() ==> (#[trigger] final(self).epochs@[i]).wf(),
            final(self).validity() == old(self).validity(),
    {
        match self.find(epoch_number) {
            Some(i) => {
                proof {
                    assert(self.epochs@[i as int].wf());
                }
                let ghost o = self.epochs@;
                let entry = self.epochs.remove(i);
                proof {
                    let s = self.epochs@;
                    assert forall|a: int| 0 <= a < s.len() implies (#[trigger] s[a]).epoch_number
                        != epoch_number && s[a].wf() by {
                        let oa = if a < i { a } else { a + 1 };
                        assert(s[a] == o[oa]);
                        assert(oa != i as int);
                    }
                    assert forall|a: int, b: int|
                        0 <= a < s.len() && 0 <= b < s.len() && a != b implies (#[trigger] s[a]).epoch_number
                        != (#[trigger] s[b]).epoch_number by {
                        let oa = if a < i { a } else { a + 1 };
                        let ob = if b < i { b } else { b + 1 };
                        assert(s[a] == o[oa]);
                        assert(s[b] == o[ob]);
                    }
                    assert(o =~= s.insert(i as int, o[i as int]));
                    assert forall|x: u32| x != epoch_number implies #[trigger] epoch_in(s, x) == epoch_in(o, x) by {
                        lemma_shifted_epochs(s, o, i as int, epoch_number, x);
                    }
                }
                (Some(i), entry)
            },
            None => {
                let entry = EpochHistory {
                    epoch_number,
                    tree: PeaksMerkleMountainRange::new(),
                    undo: Vec::new(),
                };
                assert(entry.view() =~= empty_epoch());
                (None, entry)
            },
        }
    }

    /// Puts an entry back where `take` found it, or appends it.
    fn put_back(&mut self, found: Option<usize>, entry: EpochHistory)
        requires
            unique(old(self).epochs@),
            forall|i: int|
                0 <= i < old(self).epochs@.len() ==> (#[trigger] old(self).epochs@[i]).wf(),
            entry.wf(),
            !has_epoch(old(self).epochs@, entry.epoch_number),
            match found {
                Some(i) => i <= old(self).epochs@.len(),
                None => true,
            },
        ensures
            final(self).wf(),
            final(self).network_id == old(self).network_id,
            final(self).epochs@ == match found {
                Some(i) => old(self).epochs@.insert(i as int, entry),
                None => old(self).epochs@.push(entry),
            },
            final(self).epoch(entry.epoch_number) == entry.view(),
            forall|x: u32|
                x != entry.epoch_number ==> #[trigger] final(self).epoch(x) == old(self).epoch(x),
            final(self).validity() == old(self).validity(),
    {
        let ghost e = entry.epoch_number;
        match found {
            Some(i) => {
                self.epochs.insert(i, entry);
                proof {
                    let s = self.epochs@;
                    let o = old(self).epochs@;
                    assert forall|a: int, b: int|
                        0 <= a < s.len() && 0 <= b < s.len() && a != b implies (#[trigger] s[a]).epoch_number
                        != (#[trigger] s[b]).epoch_number by {
                        let oa = if a < i { a } else { a - 1 };
                        let ob = if b < i { b } else { b - 1 };
                        if a != i as int && b != i as int {
                            assert(s[a] == o[oa]);
                            assert(s[b] == o[ob]);
                        } else if a == i as int {
                            assert(s[b] == o[ob]);
                        } else {
                            assert(s[a] == o[oa]);
                        }
                    }
                    assert forall|a: int| 0 <= a < s.len() implies (#[trigger] s[a]).wf() by {
                        if a < i {
                            assert(s[a] == o[a]);
                        } else if a > i {
                            assert(s[a] == o[a - 1]);
                        }
                    }
                    lemma_epoch_in(s, i as int, e);
                    assert forall|x: u32| x != e implies #[trigger] epoch_in(s, x) == epoch_in(o, x) by {
                        assert(s =~= o.insert(i as int, s[i as int]));
                        lemma_shifted_epochs(o, s, i as int, e, x);
                    }
                }
            },
            None => {
                self.epochs.push(entry);
                proof {
                    let s = self.epochs@;
                    let o = old(self).epochs@;
                    assert forall|a: int, b: int|
                        0 <= a < s.len() && 0 <= b < s.len() && a != b implies (#[trigger] s[a]).epoch_number
                        != (#[trigger] s[b]).epoch_number by {
                        if a < o.len() && b < o.len() {
                            assert(s[a] == o[a]);
                            assert(s[b] == o[b]);
                        } else if a < o.len() {
                            assert(s[a] == o[a]);
                        } else {
                            assert(s[b] == o[b]);
                        }
                    }
                    assert forall|a: int| 0 <= a < s.len() implies (#[trigger] s[a]).wf() by {
                        if a < o.len() {
                            assert(s[a] == o[a]);
                        }
                    }
                    lemma_epoch_in(s, o.len() as int, e);
                    assert forall|x: u32| x != e implies #[trigger] epoch_in(s, x) == epoch_in(o, x) by {
                        lemma_other_epochs(o, s, e, x);
                    }
                }
            },
        }
    }
}

} // verus!
