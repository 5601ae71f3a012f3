use vstd::prelude::*;
use crate::block::{CacheBlock, CACHE_CAPACITY, empty_lines, holds, installed};
use crate::cache::{displaced, first_holder, resident};
use crate::policy::{MappingPolicy, NUM_SETS, decode};
use crate::simulation::{Outcome, run, step};

verus! {

/// Direct mapping: once `a1` has been accessed, an access of a different
/// address `a2` with the same index but another tag misses and evicts the
/// block of `a1`, leaving `a2`'s block in its place.
pub proof fn lemma_direct_conflict_evicts(lines: Seq<CacheBlock>, a1: usize, a2: usize)
    requires
        lines.len() == CACHE_CAPACITY,
        a1 != a2,
        a1 % CACHE_CAPACITY == a2 % CACHE_CAPACITY,
        a1 / CACHE_CAPACITY != a2 / CACHE_CAPACITY,
    ensures
        ({
            let index = (a1 % CACHE_CAPACITY) as usize;
            let s1 = step(lines, MappingPolicy::Direct, a1).0;
            let (s2, o) = step(s1, MappingPolicy::Direct, a2);
            &&& o == (Outcome::Miss { evicted: true })
            &&& holds(s1[index as int], (a1 / CACHE_CAPACITY) as usize)
            &&& displaced(s1, index, MappingPolicy::Direct) == Some(s1[index as int])
            &&& s2[index as int] == installed((a2 / CACHE_CAPACITY) as usize)
            &&& !resident(s2, (a1 / CACHE_CAPACITY) as usize, index, MappingPolicy::Direct)
        }),
{
    let index = (a1 % CACHE_CAPACITY) as usize;
    let t1 = (a1 / CACHE_CAPACITY) as usize;
    let t2 = (a2 / CACHE_CAPACITY) as usize;
    let s1 = step(lines, MappingPolicy::Direct, a1).0;
    assert(holds(s1[index as int], t1)) by {
        if resident(lines, t1, index, MappingPolicy::Direct) {
            let i = choose|i: int| index <= i < index + 1 && #[trigger] holds(lines[i], t1);
            assert(i == index);
        }
    }
    assert(!holds(s1[index as int], t2));
    assert(!resident(s1, t2, index, MappingPolicy::Direct));
    let s2 = step(s1, MappingPolicy::Direct, a2).0;
    assert(s2[index as int] == installed(t2));
    assert(!holds(s2[index as int], t1));
}

/// Set-associative mapping: starting from a set with both lines empty, two
/// addresses of that set with different tags both miss without eviction and
/// then are both resident; a third address of the set with a third tag misses
/// without eviction and installs nothing, so the set keeps its two occupants.
pub proof fn lemma_set_holds_two_then_drops(lines: Seq<CacheBlock>, a1: usize, a2: usize, a3: usize)
    requires
        lines.len() == CACHE_CAPACITY,
        a1 % NUM_SETS == a2 % NUM_SETS,
        a1 % NUM_SETS == a3 % NUM_SETS,
        a1 / NUM_SETS != a2 / NUM_SETS,
        a1 / NUM_SETS != a3 / NUM_SETS,
        a2 / NUM_SETS != a3 / NUM_SETS,
        !lines[2 * (a1 % NUM_SETS)].valid,
        !lines[2 * (a1 % NUM_SETS) + 1].valid,
    ensures
        ({
            let p = MappingPolicy::SetAssociative;
            let index = (a1 % NUM_SETS) as usize;
            let (s1, o1) = step(lines, p, a1);
            let (s2, o2) = step(s1, p, a2);
            let (s3, o3) = step(s2, p, a3);
            &&& o1 == (Outcome::Miss { evicted: false })
            &&& o2 == (Outcome::Miss { evicted: false })
            &&& resident(s2, (a1 / NUM_SETS) as usize, index, p)
            &&& resident(s2, (a2 / NUM_SETS) as usize, index, p)
            &&& o3 == (Outcome::Miss { evicted: false })
            &&& s3 == s2
            &&& s3[2 * index] == installed((a1 / NUM_SETS) as usize)
            &&& s3[2 * index + 1] == installed((a2 / NUM_SETS) as usize)
        }),
{
    let p = MappingPolicy::SetAssociative;
    let index = (a1 % NUM_SETS) as usize;
    let t1 = (a1 / NUM_SETS) as usize;
    let t2 = (a2 / NUM_SETS) as usize;
    let t3 = (a3 / NUM_SETS) as usize;
    assert(!resident(lines, t1, index, p)) by {
        assert(forall|i: int| 2 * index <= i < 2 * index + 2 ==> !#[trigger] holds(lines[i], t1));
    }
    let s1 = step(lines, p, a1).0;
    assert(s1[2 * index] == installed(t1));
    assert(!resident(s1, t2, index, p)) by {
        assert(forall|i: int| 2 * index <= i < 2 * index + 2 ==> !#[trigger] holds(s1[i], t2));
    }
    let s2 = step(s1, p, a2).0;
    assert(s2[2 * index] == installed(t1));
    assert(s2[2 * index + 1] == installed(t2));
    assert(holds(s2[2 * index], t1));
    assert(holds(s2[2 * index + 1], t2));
    assert(!resident(s2, t3, index, p)) by {
        assert(forall|i: int| 2 * index <= i < 2 * index + 2 ==> !#[trigger] holds(s2[i], t3));
    }
}

/// Whether only line 0 may be valid: the shape of every fully associative
/// cache, since each of its misses writes line 0.
pub open spec fn only_first_line_used(lines: Seq<CacheBlock>) -> bool {
    &&& lines.len() == CACHE_CAPACITY
    &&& forall|i: int| 1 <= i < CACHE_CAPACITY ==> !(#[trigger] lines[i]).valid
}

/// A fully associative cache replayed from a fresh state never has a valid
/// line other than line 0.
pub proof fn lemma_associative_single_line(trace: Seq<usize>)
    ensures
        only_first_line_used(run(empty_lines(), MappingPolicy::Associative, trace).0),
    decreases trace.len(),
{
    if trace.len() > 0 {
        lemma_associative_single_line(trace.drop_last());
    }
}

/// Fully associative mapping: after an access of `a1`, an access of any other
/// address `a2` misses and installs `a2` in line 0, and reading `a1` back then
/// misses.
pub proof fn lemma_associative_second_overwrites_first(lines: Seq<CacheBlock>, a1: usize, a2: usize)
    requires
        only_first_line_used(lines),
        a1 != a2,
    ensures
        ({
            let p = MappingPolicy::Associative;
            let s1 = step(lines, p, a1).0;
            let (s2, o2) = step(s1, p, a2);
            let (s3, o3) = step(s2, p, a1);
            &&& o2 is Miss
            &&& s2[0] == installed(a2)
            &&& o3 is Miss
            &&& s3[0] == installed(a1)
        }),
{
    let p = MappingPolicy::Associative;
    let s1 = step(lines, p, a1).0;
    assert(holds(s1[0], a1)) by {
        if resident(lines, a1, 0, p) {
            let i = choose|i: int| 0 <= i < CACHE_CAPACITY && #[trigger] holds(lines[i], a1);
            assert(i == 0);
        }
    }
    assert(!resident(s1, a2, 0, p)) by {
        assert(forall|i: int| 0 <= i < CACHE_CAPACITY ==> !#[trigger] holds(s1[i], a2));
    }
    let s2 = step(s1, p, a2).0;
    assert(!resident(s2, a1, 0, p)) by {
        assert(forall|i: int| 0 <= i < CACHE_CAPACITY ==> !#[trigger] holds(s2[i], a1));
    }
}

/// A lookup is determined by the lines alone: at most one line is the first
/// holder of a tag in a search scope, so lookups on equal caches find the same
/// line, or both find none.
pub proof fn lemma_lookup_is_determined(
    first: Seq<CacheBlock>,
    second: Seq<CacheBlock>,
    tag: usize,
    index: usize,
    policy: MappingPolicy,
    i: int,
    j: int,
)
    requires
        first == second,
        first_holder(first, tag, index, policy, i),
        first_holder(second, tag, index, policy, j),
    ensures
        i == j,
        resident(first, tag, index, policy) == resident(second, tag, index, policy),
{
    if i < j {
        assert(!holds(second[i], tag));
    } else if j < i {
        assert(!holds(first[j], tag));
    }
}

/// Replaying the same trace twice, each time from a freshly initialised cache
/// under the same policy, gives the same outcomes and the same final lines.
pub proof fn lemma_replay_is_identical(policy: MappingPolicy, first: Seq<usize>, second: Seq<usize>)
    requires
        first.len() == second.len(),
        forall|i: int| 0 <= i < first.len() ==> first[i] == second[i],
    ensures
        run(empty_lines(), policy, first) == run(empty_lines(), policy, second),
{
    assert(first =~= second);
}

} // verus!
