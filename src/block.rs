use vstd::prelude::*;

verus! {

/// Number of lines in the cache.
pub const CACHE_CAPACITY: usize = 4;

/// Size in bytes of the payload of one line.
pub const BLOCK_SIZE: usize = 4;

/// One line of the cache. The payload is carried but never read by the
/// placement logic.
#[derive(Clone, Copy, Debug, PartialEq, Eq)]
pub struct CacheBlock {
    pub tag: usize,
    pub data: [u8; BLOCK_SIZE],
    pub valid: bool,
}

/// The zeroed payload that every line starts with and every installed block gets.
pub open spec fn zero_payload() -> [u8; BLOCK_SIZE] {
    [0u8; BLOCK_SIZE]
}

/// The line every cache starts with: invalid, tag zero, zeroed payload.
pub open spec fn empty_block() -> CacheBlock {
    CacheBlock { tag: 0, data: zero_payload(), valid: false }
}

/// A freshly initialised cache: every line empty.
pub open spec fn empty_lines() -> Seq<CacheBlock> {
    Seq::new(CACHE_CAPACITY as nat, |i: int| empty_block())
}

/// The block installed on a miss for `tag`.
pub open spec fn installed(tag: usize) -> CacheBlock {
    CacheBlock { tag, data: zero_payload(), valid: true }
}

/// Whether `b` holds the memory block named by `tag`.
pub open spec fn holds(b: CacheBlock, tag: usize) -> bool {
    b.valid && b.tag == tag
}

impl CacheBlock {
    /// An empty line: invalid, tag zero, zeroed payload.
    pub fn new() -> (r: CacheBlock)
        ensures
            r == empty_block(),
    {
        CacheBlock { tag: 0, data: [0u8; BLOCK_SIZE], valid: false }
    }

    /// The valid block that a miss for `tag` installs.
    pub fn filled(tag: usize) -> (r: CacheBlock)
        ensures
            r == installed(tag),
    {
        CacheBlock { tag, data: [0u8; BLOCK_SIZE], valid: true }
    }
}

} // verus!
