use vstd::prelude::*;
use crate::block::{CacheBlock, CACHE_CAPACITY, holds, installed};
use crate::policy::{MappingPolicy, NUM_SETS};

verus! {

/// Whether `index` names a line (Direct) or a set (SetAssociative) of the
/// cache. Under Associative the decoder always gives index 0.
pub open spec fn index_in_range(policy: MappingPolicy, index: usize) -> bool {
    match policy {
        MappingPolicy::Direct => index < CACHE_CAPACITY,
        MappingPolicy::SetAssociative => index < NUM_SETS,
        MappingPolicy::Associative => index == 0,
    }
}

/// Whether line `i` of a cache of `len` lines is searched for `index`: the
/// indexed line (Direct), the 2 lines of the set starting at `index * 2`
/// (SetAssociative), or every line (Associative).
pub open spec fn in_scope(len: int, policy: MappingPolicy, index: usize, i: int) -> bool {
    &&& 0 <= i < len
    &&& match policy {
        MappingPolicy::Direct => i == index,
        MappingPolicy::SetAssociative => 2 * index <= i < 2 * index + 2,
        MappingPolicy::Associative => true,
    }
}

/// Whether some line in the search scope holds `tag`: a hit.
pub open spec fn resident(
    lines: Seq<CacheBlock>,
    tag: usize,
    index: usize,
    policy: MappingPolicy,
) -> bool {
    exists|i: int| in_scope(lines.len() as int, policy, index, i) && #[trigger] holds(lines[i], tag)
}

/// Whether line `i` is the first line of the search scope, in storage order,
/// that holds `tag`.
pub open spec fn first_holder(
    lines: Seq<CacheBlock>,
    tag: usize,
    index: usize,
    policy: MappingPolicy,
    i: int,
) -> bool {
    &&& in_scope(lines.len() as int, policy, index, i)
    &&& holds(lines[i], tag)
    &&& forall|j: int|
        #![trigger holds(lines[j], tag)]
        j < i && in_scope(lines.len() as int, policy, index, j) ==> !holds(lines[j], tag)
}

/// The line that a miss writes to, if any. Direct writes the indexed line,
/// Associative always line 0, SetAssociative the first invalid line of the set,
/// and nothing when the set is full.
pub open spec fn install_slot(lines: Seq<CacheBlock>, index: usize, policy: MappingPolicy) -> Option<int> {
    match policy {
        MappingPolicy::Direct => Some(index as int),
        MappingPolicy::SetAssociative => if !lines[2 * index].valid {
            Some(2 * index)
        } else if !lines[2 * index + 1].valid {
            Some(2 * index + 1)
        } else {
            None
        },
        MappingPolicy::Associative => Some(0),
    }
}

/// The lines after a miss for `tag` has been handled.
pub open spec fn after_install(
    lines: Seq<CacheBlock>,
    tag: usize,
    index: usize,
    policy: MappingPolicy,
) -> Seq<CacheBlock> {
    match install_slot(lines, index, policy) {
        Some(i) => lines.update(i, installed(tag)),
        None => lines,
    }
}

/// The valid block that a miss overwrites, if any: an eviction.
pub open spec fn displaced(lines: Seq<CacheBlock>, index: usize, policy: MappingPolicy) -> Option<CacheBlock> {
    match install_slot(lines, index, policy) {
        Some(i) => if lines[i].valid {
            Some(lines[i])
        } else {
            None
        },
        None => None,
    }
}

/// The line that a miss overwrites, valid or not; `None` when it installs
/// nothing. Whether that line was an eviction is left to the caller.
pub open spec fn overwritten(lines: Seq<CacheBlock>, index: usize, policy: MappingPolicy) -> Option<CacheBlock> {
    match install_slot(lines, index, policy) {
        Some(i) => Some(lines[i]),
        None => None,
    }
}

/// Looks `tag` up in the search scope of `index`; returns the first line, in
/// storage order, that is valid and holds `tag`.
pub fn find_in_cache<'a>(
    cache: &'a [CacheBlock],
    tag: usize,
    index: usize,
    policy: MappingPolicy,
) -> (r: Option<&'a CacheBlock>)
    ensures
        r.is_some() == resident(cache@, tag, index, policy),
        r matches Some(b) ==> exists|i: int|
            first_holder(cache@, tag, index, policy, i) && *b == cache@[i],
{
    let len = cache.len();
    let (start, end): (usize, usize) = match policy {
        MappingPolicy::Direct => if index < len {
            (index, index + 1)
        } else {
            (len, len)
        },
        MappingPolicy::SetAssociative => if index <= len / 2 {
            if len - 2 * index >= 2 {
                (2 * index, 2 * index + 2)
            } else {
                (2 * index, len)
            }
        } else {
            (len, len)
        },
        MappingPolicy::Associative => (0, len),
    };
    assert(forall|j: int| in_scope(len as int, policy, index, j) <==> start <= j < end);
    let mut i: usize = start;
    while i < end
        invariant
            len == cache@.len(),
            forall|j: int| in_scope(len as int, policy, index, j) <==> start <= j < end,
            start <= i <= end <= len,
            forall|j: int| start <= j < i ==> !#[trigger] holds(cache@[j], tag),
        decreases end - i,
    {
        if cache[i].valid && cache[i].tag == tag {
            assert(first_holder(cache@, tag, index, policy, i as int));
            return Some(&cache[i]);
        }
        i = i + 1;
    }
    None
}

/// Handles a miss for `tag`: installs a fresh valid block where the policy
/// places it and returns the line it overwrote, valid or not, or `None` when
/// a full set leaves the cache unchanged.
pub fn replace_block(
    cache: &mut [CacheBlock],
    tag: usize,
    index: usize,
    policy: MappingPolicy,
) -> (r: Option<CacheBlock>)
    requires
        old(cache)@.len() == CACHE_CAPACITY,
        index_in_range(policy, index),
    ensures
        final(cache)@ == after_install(old(cache)@, tag, index, policy),
        r == overwritten(old(cache)@, index, policy),
{
    let slot: Option<usize> = match policy {
        MappingPolicy::Direct => Some(index),
        MappingPolicy::SetAssociative => if !cache[2 * index].valid {
            Some(2 * index)
        } else if !cache[2 * index + 1].valid {
            Some(2 * index + 1)
        } else {
            None
        },
        MappingPolicy::Associative => Some(0),
    };
    match slot {
        Some(i) => {
            let old_block = cache[i];
            cache[i] = CacheBlock::filled(tag);
            Some(old_block)
        },
        None => None,
    }
}

} // verus!
