use vstd::prelude::*;
use crate::block::CACHE_CAPACITY;

verus! {

/// Number of 2-way sets in the set-associative layout.
pub const NUM_SETS: usize = CACHE_CAPACITY / 2;

/// Where a memory block may be placed in the cache.
#[derive(Clone, Copy, Debug, PartialEq, Eq, Structural)]
pub enum MappingPolicy {
    /// Each address maps to exactly one line.
    Direct,
    /// Each address maps to one set of 2 consecutive lines.
    SetAssociative,
    /// The whole cache is one search scope.
    Associative,
}

/// The (tag, index) pair that an address decodes to under a policy.
pub open spec fn decode(address: usize, policy: MappingPolicy) -> (usize, usize) {
    match policy {
        MappingPolicy::Direct => (
            (address / CACHE_CAPACITY) as usize,
            (address % CACHE_CAPACITY) as usize,
        ),
        MappingPolicy::SetAssociative => (
            (address / NUM_SETS) as usize,
            (address % NUM_SETS) as usize,
        ),
        MappingPolicy::Associative => (address, 0),
    }
}

/// Splits `address` into the tag and the index used by `policy`.
pub fn get_tags_and_index(address: usize, policy: MappingPolicy) -> (r: (usize, usize))
    ensures
        r == decode(address, policy),
{
    match policy {
        MappingPolicy::Direct => {
            let index = address % CACHE_CAPACITY;
            let tag = address / CACHE_CAPACITY;
            (tag, index)
        },
        MappingPolicy::SetAssociative => {
            let index = address % NUM_SETS;
            let tag = address / NUM_SETS;
            (tag, index)
        },
        MappingPolicy::Associative => (address, 0),
    }
}

} // verus!
