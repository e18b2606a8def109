//! The block context in which accounts execute transactions and inherents.

use vstd::prelude::*;

verus! {

/// The number and time of the block being applied.
#[derive(Clone, Copy, Debug, PartialEq, Eq, Structural)]
pub struct BlockState {
    pub number: u32,
    pub time: u64,
}

impl BlockState {
    pub fn new(block_number: u32, block_time: u64) -> (r: BlockState)
        ensures
            r.number == block_number,
            r.time == block_time,
    {
        BlockState { number: block_number, time: block_time }
    }
}

} // verus!
