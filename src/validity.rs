//! The validity store: the digests of the transactions included within the validity window,
//! with the block that included each. A transaction whose digest is in the store is a replay.

use vstd::prelude::*;

use crate::primitives::{bytes_equal, Blake2bHash};

verus! {

/// A digest and the block number that included it.
#[derive(Clone, Copy, Debug)]
pub struct ValidityEntry {
    pub hash: Blake2bHash,
    pub block_number: u32,
}

/// An entry as plain values.
pub type EntryView = (Seq<u8>, u32);

/// The digests of the transactions of the validity window, in the order they were added.
pub struct ValidityStore {
    entries: Vec<ValidityEntry>,
}

/// Whether an entry does not belong to `block_number`.
pub open spec fn not_of_block(block_number: u32) -> spec_fn(EntryView) -> bool {
    |e: EntryView| e.1 != block_number
}

/// The entries of a sequence that do not belong to `block_number`.
pub open spec fn without_block(entries: Seq<EntryView>, block_number: u32) -> Seq<EntryView> {
    entries.filter(not_of_block(block_number))
}

/// The entries of a sequence that belong to block `oldest` or later.
pub open spec fn from_block(entries: Seq<EntryView>, oldest: u32) -> Seq<EntryView> {
    entries.filter(|e: EntryView| e.1 >= oldest)
}

impl View for ValidityStore {
    type V = Seq<EntryView>;

    closed spec fn view(&self) -> Seq<EntryView> {
        self.entries@.map_values(|e: ValidityEntry| (e.hash@, e.block_number))
    }
}

impl ValidityStore {
    /// An empty store.
    pub fn new() -> (r: ValidityStore)
        ensures
            r@ == Seq::<EntryView>::empty(),
    {
        let r = ValidityStore { entries: Vec::new() };
        assert(r@ =~= Seq::<EntryView>::empty());
        r
    }

    /// Records the digests of the transactions of a block.
    pub fn add_block(&mut self, block_number: u32, hashes: &[Blake2bHash])
        ensures
            final(self)@ == old(self)@ + hashes@.map_values(|h: Blake2bHash| (h@, block_number)),
    {
        let ghost start = self@;
        let mut i: usize = 0;
        while i < hashes.len()
            invariant
                0 <= i <= hashes@.len(),
                self@ == start + hashes@.subrange(0, i as int).map_values(
                    |h: Blake2bHash| (h@, block_number),
                ),
            decreases hashes@.len() - i,
        {
            let ghost before = self.entries@;
            self.entries.push(ValidityEntry { hash: hashes[i], block_number });
            proof {
                assert(self.entries@ =~= before.push(ValidityEntry { hash: hashes@[i as int], block_number }));
                assert(hashes@.subrange(0, i + 1) =~= hashes@.subrange(0, i as int).push(hashes@[i as int]));
                assert(self@ =~= before.map_values(|e: ValidityEntry| (e.hash@, e.block_number)).push(
                    (hashes@[i as int]@, block_number),
                ));
                assert(hashes@.subrange(0, i + 1).map_values(|h: Blake2bHash| (h@, block_number))
                    =~= hashes@.subrange(0, i as int).map_values(|h: Blake2bHash| (h@, block_number)).push(
                    (hashes@[i as int]@, block_number),
                ));
            }
            i += 1;
            assert(self@ =~= start + hashes@.subrange(0, i as int).map_values(
                |h: Blake2bHash| (h@, block_number),
            ));
        }
        assert(hashes@.subrange(0, hashes@.len() as int) =~= hashes@);
    }

    /// Whether a transaction digest is in the store.
    pub fn contains(&self, hash: &Blake2bHash) -> (r: bool)
        ensures
            r == exists|i: int| 0 <= i < self@.len() && (#[trigger] self@[i]).0 == hash@,
    {
        let mut i: usize = 0;
        while i < self.entries.len()
            invariant
                0 <= i <= self@.len(),
                self@.len() == self.entries@.len(),
                forall|j: int| 0 <= j < i ==> (#[trigger] self@[j]).0 != hash@,
            decreases self@.len() - i,
        {
            if bytes_equal(&self.entries[i].hash.0, &hash.0) {
                assert(self@[i as int].0 == hash@);
                return true;
            }
            i += 1;
        }
        false
    }

    /// Forgets the entries of a block, when the block is reverted.
    pub fn remove_block(&mut self, block_number: u32)
        ensures
            final(self)@ == without_block(old(self)@, block_number),
    {
        let ghost start = self@;
        let mut kept: Vec<ValidityEntry> = Vec::new();
        let mut i: usize = 0;
        while i < self.entries.len()
            invariant
                0 <= i <= self.entries@.len(),
                start == self@,
                self@.len() == self.entries@.len(),
                kept@.map_values(|e: ValidityEntry| (e.hash@, e.block_number)) == without_block(start.subrange(0, i as int), block_number),
            decreases self.entries@.len() - i,
        {
            let e = self.entries[i];
            if e.block_number != block_number {
                kept.push(e);
            }
            proof {
                assert(kept@.map_values(|e: ValidityEntry| (e.hash@, e.block_number)) =~= without_block(start.subrange(0, i + 1), block_number)) by {
                    reveal(Seq::filter);
                    assert(start.subrange(0, i + 1).drop_last() =~= start.subrange(0, i as int));
                }
            }
            i += 1;
        }
        assert(start.subrange(0, start.len() as int) =~= start);
        self.entries = kept;
    }

    /// Forgets the entries of blocks before `oldest`: they left the validity window.
    pub fn prune(&mut self, oldest: u32)
        ensures
            final(self)@ == from_block(old(self)@, oldest),
    {
        let ghost start = self@;
        let mut kept: Vec<ValidityEntry> = Vec::new();
        let mut i: usize = 0;
        while i < self.entries.len()
            invariant
                0 <= i <= self.entries@.len(),
                start == self@,
                self@.len() == self.entries@.len(),
                kept@.map_values(|e: ValidityEntry| (e.hash@, e.block_number)) == from_block(start.subrange(0, i as int), oldest),
            decreases self.entries@.len() - i,
        {
            let e = self.entries[i];
            if e.block_number >= oldest {
                kept.push(e);
            }
            proof {
                assert(kept@.map_values(|e: ValidityEntry| (e.hash@, e.block_number)) =~= from_block(start.subrange(0, i + 1), oldest)) by {
                    reveal(Seq::filter);
                    assert(start.subrange(0, i + 1).drop_last() =~= start.subrange(0, i as int));
                }
            }
            i += 1;
        }
        assert(start.subrange(0, start.len() as int) =~= start);
        self.entries = kept;
    }
}

/// Recording a block's transactions and then reverting the block leaves the store as it was,
/// when the store held nothing of that block before.
pub proof fn lemma_add_then_remove_block(
    entries: Seq<EntryView>,
    block_number: u32,
    hashes: Seq<Seq<u8>>,
)
    requires
        forall|i: int| 0 <= i < entries.len() ==> (#[trigger] entries[i]).1 != block_number,
    ensures
        without_block(entries + hashes.map_values(|h: Seq<u8>| (h, block_number)), block_number)
            == entries,
{
    let added = hashes.map_values(|h: Seq<u8>| (h, block_number));
    let f = not_of_block(block_number);
    Seq::filter_distributes_over_add(entries, added, f);
    assert(entries.filter(f) =~= entries) by {
        assert forall|i: int| 0 <= i < entries.len() implies f(entries[i]) by {}
        lemma_filter_all(entries, f);
    }
    assert(added.filter(f) =~= Seq::<EntryView>::empty()) by {
        lemma_filter_none(added, f);
    }
}

proof fn lemma_filter_all(s: Seq<EntryView>, f: spec_fn(EntryView) -> bool)
    requires
        forall|i: int| 0 <= i < s.len() ==> f(s[i]),
    ensures
        s.filter(f) == s,
    decreases s.len(),
{
    reveal(Seq::filter);
    if s.len() > 0 {
        lemma_filter_all(s.drop_last(), f);
        assert(s.drop_last().push(s.last()) =~= s);
    } else {
        assert(s =~= Seq::<EntryView>::empty());
    }
}

proof fn lemma_filter_none(s: Seq<EntryView>, f: spec_fn(EntryView) -> bool)
    requires
        forall|i: int| 0 <= i < s.len() ==> !f(s[i]),
    ensures
        s.filter(f) == Seq::<EntryView>::empty(),
    decreases s.len(),
{
    reveal(Seq::filter);
    if s.len() > 0 {
        lemma_filter_none(s.drop_last(), f);
    }
}

} // verus!
