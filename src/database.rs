//! Values of duplicate tables: a fixed-size subkey that orders the duplicates of a key,
//! followed by the value.

use vstd::prelude::*;

verus! {

/// A duplicate-table value made of a subkey and a value.
#[derive(Clone, Copy, Debug, PartialEq, Eq)]
pub struct IndexedValue<I, V> {
    pub index: I,
    pub value: V,
}

impl<I, V> IndexedValue<I, V> {
    pub fn new(index: I, value: V) -> (r: Self)
        ensures
            r.index == index,
            r.value == value,
    {
        IndexedValue { index, value }
    }

    /// The subkey that orders the duplicates of a key.
    pub fn subkey(&self) -> (r: &I)
        ensures
            *r == self.index,
    {
        &self.index
    }

    /// The value.
    pub fn value(&self) -> (r: &V)
        ensures
            *r == self.value,
    {
        &self.value
    }
}

} // verus!
