//! A peaks-only Merkle Mountain Range: an append-only list of leaves whose nodes form a forest
//! of perfect binary trees, of which only the roots (the peaks) are kept. It supports appending
//! and computing the root, not retrieving leaves.

use vstd::prelude::*;

use crate::codec::push_bytes;
use crate::primitives::{blake2b, blake2b_of, Blake2bHash};

verus! {

/// A peak as plain values: its digest and the number of leaves below it.
pub type PeakView = (Seq<u8>, nat);

/// The digest of a leaf, prefixed with the leaf kind byte 0.
pub open spec fn leaf_digest(leaf: Seq<u8>) -> Seq<u8> {
    blake2b_of(seq![0u8] + leaf)
}

/// The digest of an inner node, prefixed with the inner kind byte 1.
pub open spec fn inner_digest(left: Seq<u8>, right: Seq<u8>) -> Seq<u8> {
    blake2b_of(seq![1u8] + left + right)
}

/// The digest that bags two peaks, prefixed with the bagging kind byte 2.
pub open spec fn bag_digest(left: Seq<u8>, right: Seq<u8>) -> Seq<u8> {
    blake2b_of(seq![2u8] + left + right)
}

/// Merges the two last peaks while they cover equally many leaves.
pub open spec fn merge_peaks(peaks: Seq<PeakView>) -> Seq<PeakView>
    decreases peaks.len(),
{
    if peaks.len() >= 2 && peaks[peaks.len() - 1].1 == peaks[peaks.len() - 2].1 {
        let l = peaks[peaks.len() - 2];
        let r = peaks[peaks.len() - 1];
        merge_peaks(peaks.subrange(0, peaks.len() - 2).push((inner_digest(l.0, r.0), l.1 + r.1)))
    } else {
        peaks
    }
}

/// The peaks after appending the leaves one by one to an empty range.
pub open spec fn peaks_of(leaves: Seq<Seq<u8>>) -> Seq<PeakView>
    decreases leaves.len(),
{
    if leaves.len() == 0 {
        seq![]
    } else {
        merge_peaks(peaks_of(leaves.drop_last()).push((leaf_digest(leaves.last()), 1)))
    }
}

/// The root of a list of peaks: bagged from the last (shortest) into the first (tallest); the
/// empty range has the all-zero root.
pub open spec fn bag(peaks: Seq<PeakView>) -> Seq<u8>
    decreases peaks.len(),
{
    if peaks.len() == 0 {
        Seq::new(32, |_i: int| 0u8)
    } else if peaks.len() == 1 {
        peaks[0].0
    } else {
        bag_digest(peaks[0].0, bag(peaks.drop_first()))
    }
}

/// The number of leaves under a list of peaks.
pub open spec fn leaves_under(peaks: Seq<PeakView>) -> nat
    decreases peaks.len(),
{
    if peaks.len() == 0 {
        0
    } else {
        leaves_under(peaks.drop_last()) + peaks.last().1
    }
}

/// The root of the range of `leaves`.
pub open spec fn root_of(leaves: Seq<Seq<u8>>) -> Seq<u8> {
    bag(peaks_of(leaves))
}

/// A peak: its digest and the number of leaves below it.
#[derive(Clone, Copy, Debug)]
pub struct Peak {
    pub hash: Blake2bHash,
    pub leaves: u64,
}

/// A peaks-only range.
pub struct PeaksMerkleMountainRange {
    peaks: Vec<Peak>,
    num_leaves: u64,
    leaves: Ghost<Seq<Seq<u8>>>,
}

/// Merging the two last peaks into one keeps the number of leaves.
proof fn lemma_merge_step(peaks: Seq<PeakView>, h: Seq<u8>)
    requires
        peaks.len() >= 2,
    ensures
        ({
            let l = peaks[peaks.len() - 2];
            let r = peaks[peaks.len() - 1];
            leaves_under(peaks.subrange(0, peaks.len() - 2).push((h, l.1 + r.1))) == leaves_under(
                peaks,
            )
        }),
{
    let rest = peaks.subrange(0, peaks.len() - 2);
    let next = rest.push((h, peaks[peaks.len() - 2].1 + peaks[peaks.len() - 1].1));
    assert(next.drop_last() =~= rest);
    assert(peaks.drop_last().drop_last() =~= rest);
    assert(peaks.drop_last().last() == peaks[peaks.len() - 2]);
    assert(leaves_under(next) == leaves_under(rest) + next.last().1);
    assert(leaves_under(peaks) == leaves_under(peaks.drop_last()) + peaks.last().1);
    assert(leaves_under(peaks.drop_last()) == leaves_under(rest) + peaks.drop_last().last().1);
}

proof fn lemma_merge_keeps_leaves(peaks: Seq<PeakView>)
    ensures
        leaves_under(merge_peaks(peaks)) == leaves_under(peaks),
    decreases peaks.len(),
{
    if peaks.len() >= 2 && peaks[peaks.len() - 1].1 == peaks[peaks.len() - 2].1 {
        let l = peaks[peaks.len() - 2];
        let r = peaks[peaks.len() - 1];
        let next = peaks.subrange(0, peaks.len() - 2).push((inner_digest(l.0, r.0), l.1 + r.1));
        lemma_merge_step(peaks, inner_digest(l.0, r.0));
        lemma_merge_keeps_leaves(next);
    }
}

impl View for PeaksMerkleMountainRange {
    type V = Seq<Seq<u8>>;

    /// The leaves appended so far.
    closed spec fn view(&self) -> Seq<Seq<u8>> {
        self.leaves@
    }
}

impl PeaksMerkleMountainRange {
    /// The peaks as plain values.
    pub closed spec fn peaks_view(&self) -> Seq<PeakView> {
        self.peaks@.map_values(|p: Peak| (p.hash@, p.leaves as nat))
    }

    /// The peaks are those of the appended leaves, and the leaf count is their number.
    pub closed spec fn wf(&self) -> bool {
        &&& self.peaks_view() == peaks_of(self.leaves@)
        &&& self.num_leaves == self.leaves@.len()
        &&& leaves_under(self.peaks_view()) == self.leaves@.len()
        &&& forall|i: int| 0 <= i < self.peaks@.len() ==> (#[trigger] self.peaks@[i]).leaves >= 1
    }

    /// An empty range.
    pub fn new() -> (r: PeaksMerkleMountainRange)
        ensures
            r.wf(),
            r@.len() == 0,
    {
        let r = PeaksMerkleMountainRange { peaks: Vec::new(), num_leaves: 0, leaves: Ghost(Seq::empty()) };
        assert(r.peaks_view() =~= seq![]);
        r
    }

    /// A copy of the range.
    pub fn snapshot(&self) -> (r: PeaksMerkleMountainRange)
        ensures
            r@ == self@,
            r.wf() == self.wf(),
    {
        let mut peaks: Vec<Peak> = Vec::new();
        let mut i: usize = 0;
        while i < self.peaks.len()
            invariant
                0 <= i <= self.peaks@.len(),
                peaks@ == self.peaks@.subrange(0, i as int),
            decreases self.peaks@.len() - i,
        {
            peaks.push(self.peaks[i]);
            i += 1;
            assert(peaks@ =~= self.peaks@.subrange(0, i as int));
        }
        assert(self.peaks@.subrange(0, self.peaks@.len() as int) =~= self.peaks@);
        PeaksMerkleMountainRange { peaks, num_leaves: self.num_leaves, leaves: Ghost(self.leaves@) }
    }

    /// The number of leaves.
    pub fn num_leaves(&self) -> (r: u64)
        requires
            self.wf(),
        ensures
            r == self@.len(),
    {
        self.num_leaves
    }

    /// The number of nodes of the forest: `2 * leaves - peaks`.
    pub fn len(&self) -> (r: u64)
        requires
            self.wf(),
            self@.len() <= u64::MAX / 2,
        ensures
            r == 2 * self@.len() - peaks_of(self@).len(),
    {
        proof {
            assert forall|i: int| 0 <= i < self.peaks_view().len() implies (
            #[trigger] self.peaks_view()[i]).1 >= 1 by {
                assert(self.peaks@[i].leaves >= 1);
            }
            lemma_peaks_fewer_than_leaves(self.peaks_view());
        }
        let n = self.num_leaves as u128;
        let r = 2 * n - self.peaks.len() as u128;
        r as u64
    }

    /// Appends a leaf and returns the number of leaves before it, its index.
    pub fn push(&mut self, leaf: &[u8]) -> (r: u64)
        requires
            old(self).wf(),
            old(self)@.len() < u64::MAX,
        ensures
            final(self).wf(),
            final(self)@ == old(self)@.push(leaf@),
            r == old(self)@.len(),
    {
        let ghost new_leaves = self.leaves@.push(leaf@);
        let mut data: Vec<u8> = Vec::new();
        data.push(0u8);
        push_bytes(&mut data, leaf);
        assert(data@ =~= seq![0u8] + leaf@);
        let h = blake2b(data.as_slice());
        let ghost start = self.peaks_view().push((h@, 1nat));
        self.peaks.push(Peak { hash: h, leaves: 1 });
        proof {
            assert(self.peaks_view() =~= start);
            assert(new_leaves.drop_last() =~= self.leaves@);
            assert(start.drop_last() =~= old(self).peaks_view());
        }
        while self.peaks.len() >= 2 && self.peaks[self.peaks.len() - 1].leaves == self.peaks[self.peaks.len()
            - 2].leaves
            invariant
                self.num_leaves == old(self).num_leaves,
                self.leaves == old(self).leaves,
                self.num_leaves == old(self)@.len(),
                h@ == leaf_digest(leaf@),
                forall|i: int| 0 <= i < self.peaks@.len() ==> (#[trigger] self.peaks@[i]).leaves >= 1,
                merge_peaks(self.peaks_view()) == merge_peaks(start),
                leaves_under(self.peaks_view()) == leaves_under(start),
                leaves_under(start) == new_leaves.len(),
                new_leaves.len() <= u64::MAX,
            decreases self.peaks@.len(),
        {
            let ghost before = self.peaks_view();
            let right = self.peaks.pop().unwrap();
            let left = self.peaks.pop().unwrap();
            proof {
                assert(self.peaks_view() =~= before.subrange(0, before.len() - 2));
                assert(before.drop_last().drop_last() =~= self.peaks_view());
                lemma_leaves_bound(before);
                assert(before[before.len() - 1].1 == right.leaves);
                assert(before[before.len() - 2].1 == left.leaves);
            }
            let mut pair: Vec<u8> = Vec::new();
            pair.push(1u8);
            push_bytes(&mut pair, &left.hash.0);
            push_bytes(&mut pair, &right.hash.0);
            let merged = Peak { hash: blake2b(pair.as_slice()), leaves: left.leaves + right.leaves };
            let ghost rest = self.peaks_view();
            self.peaks.push(merged);
            proof {
                assert(seq![1u8] + left.hash@ + right.hash@ =~= pair@);
                assert(self.peaks_view() =~= rest.push((merged.hash@, merged.leaves as nat)));
                assert(self.peaks_view().drop_last() =~= rest);
                lemma_merge_step(before, merged.hash@);
                assert(merged.hash@ == inner_digest(before[before.len() - 2].0, before[before.len() - 1].0));
            }
        }
        proof {
            lemma_merge_keeps_leaves(start);
        }
        let r = self.num_leaves;
        self.num_leaves = self.num_leaves + 1;
        self.leaves = Ghost(new_leaves);
        r
    }

    /// The root: the peaks bagged from the last into the first.
    pub fn get_root(&self) -> (r: Blake2bHash)
        requires
            self.wf(),
        ensures
            r@ == root_of(self@),
    {
        let n = self.peaks.len();
        if n == 0 {
            let r = Blake2bHash([0u8; 32]);
            assert(r@ =~= Seq::new(32, |_i: int| 0u8));
            return r;
        }
        let mut acc = self.peaks[n - 1].hash;
        let mut i: usize = n - 1;
        proof {
            assert(self.peaks_view().subrange(n - 1, n as int) =~= seq![self.peaks_view()[n - 1]]);
        }
        while i > 0
            invariant
                0 <= i < n,
                n == self.peaks@.len(),
                acc@ == bag(self.peaks_view().subrange(i as int, n as int)),
            decreases i,
        {
            let mut pair: Vec<u8> = Vec::new();
            pair.push(2u8);
            push_bytes(&mut pair, &self.peaks[i - 1].hash.0);
            push_bytes(&mut pair, &acc.0);
            proof {
                let s = self.peaks_view().subrange(i - 1, n as int);
                assert(s.drop_first() =~= self.peaks_view().subrange(i as int, n as int));
                assert(seq![2u8] + s[0].0 + acc@ =~= pair@);
            }
            acc = blake2b(pair.as_slice());
            i -= 1;
        }
        assert(self.peaks_view().subrange(0, n as int) =~= self.peaks_view());
        acc
    }
}

/// A peak covers no more leaves than the whole list.
proof fn lemma_leaves_bound(peaks: Seq<PeakView>)
    requires
        peaks.len() >= 2,
    ensures
        peaks[peaks.len() - 1].1 + peaks[peaks.len() - 2].1 <= leaves_under(peaks),
{
    assert(peaks.drop_last().last() == peaks[peaks.len() - 2]);
    assert(leaves_under(peaks) == leaves_under(peaks.drop_last()) + peaks.last().1);
    assert(leaves_under(peaks.drop_last()) == leaves_under(peaks.drop_last().drop_last())
        + peaks.drop_last().last().1);
}

/// Every peak covers at least one leaf, so there are no more peaks than leaves.
proof fn lemma_peaks_fewer_than_leaves(peaks: Seq<PeakView>)
    requires
        forall|i: int| 0 <= i < peaks.len() ==> (#[trigger] peaks[i]).1 >= 1,
    ensures
        peaks.len() <= leaves_under(peaks),
    decreases peaks.len(),
{
    if peaks.len() > 0 {
        let init = peaks.drop_last();
        assert forall|i: int| 0 <= i < init.len() implies (#[trigger] init[i]).1 >= 1 by {
            assert(init[i] == peaks[i]);
        }
        lemma_peaks_fewer_than_leaves(init);
        assert(peaks.last().1 >= 1);
    }
}

} // verus!
