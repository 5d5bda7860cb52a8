//! The times of the blocks seen while one batch is applied, so that each block's
//! time is read from the chain once.

use vstd::prelude::*;
use std::collections::HashMap;

verus! {

broadcast use vstd::std_specs::hash::group_hash_axioms;

/// Block number to block time (seconds since the epoch).
#[derive(Debug)]
pub struct BlockTimes {
    times: HashMap<u64, u64>,
}

impl BlockTimes {
    pub closed spec fn view(&self) -> Map<u64, u64> {
        self.times@
    }

    pub fn new() -> (r: BlockTimes)
        ensures
            r@ == Map::<u64, u64>::empty(),
    {
        BlockTimes { times: HashMap::new() }
    }

    /// The time recorded for a block, if any.
    pub fn get(&self, block: u64) -> (r: Option<u64>)
        ensures
            r == (if self@.contains_key(block) { Some(self@[block]) } else { None::<u64> }),
    {
        match self.times.get(&block) {
            Some(t) => Some(*t),
            None => None,
        }
    }

    /// Records the time of a block.
    pub fn insert(&mut self, block: u64, time: u64)
        ensures
            final(self)@ == old(self)@.insert(block, time),
    {
        self.times.insert(block, time);
    }
}

} // verus!
