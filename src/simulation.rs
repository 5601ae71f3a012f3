use vstd::prelude::*;
use crate::block::{CacheBlock, CACHE_CAPACITY, empty_lines};
use crate::cache::{
    after_install, displaced, find_in_cache, index_in_range, replace_block, resident,
};
use crate::policy::{MappingPolicy, decode, get_tags_and_index};

verus! {

/// Number of addresses in the operator's trace.
pub const TRACE_LEN: usize = 8;

/// What one access of the trace came to.
#[derive(Clone, Copy, Debug, PartialEq, Eq, Structural)]
pub enum Outcome {
    /// The block was resident.
    Hit,
    /// The block was not resident; `evicted` tells whether handling the miss
    /// overwrote a valid block.
    Miss { evicted: bool },
}

/// The lines and the outcome after one access of `address`.
pub open spec fn step(lines: Seq<CacheBlock>, policy: MappingPolicy, address: usize) -> (
    Seq<CacheBlock>,
    Outcome,
) {
    let (tag, index) = decode(address, policy);
    if resident(lines, tag, index, policy) {
        (lines, Outcome::Hit)
    } else {
        (
            after_install(lines, tag, index, policy),
            Outcome::Miss { evicted: displaced(lines, index, policy).is_some() },
        )
    }
}

/// The lines after a trace is replayed from `lines`, and the outcome of each
/// access in order.
pub open spec fn run(lines: Seq<CacheBlock>, policy: MappingPolicy, trace: Seq<usize>) -> (
    Seq<CacheBlock>,
    Seq<Outcome>,
)
    decreases trace.len(),
{
    if trace.len() == 0 {
        (lines, Seq::empty())
    } else {
        let (mid, outcomes) = run(lines, policy, trace.drop_last());
        let (next, o) = step(mid, policy, trace.last());
        (next, outcomes.push(o))
    }
}

/// Number of hits among the outcomes.
pub open spec fn count_hits(outcomes: Seq<Outcome>) -> nat
    decreases outcomes.len(),
{
    if outcomes.len() == 0 {
        0
    } else {
        count_hits(outcomes.drop_last()) + if outcomes.last() == Outcome::Hit {
            1nat
        } else {
            0nat
        }
    }
}

/// Number of misses among the outcomes.
pub open spec fn count_misses(outcomes: Seq<Outcome>) -> nat
    decreases outcomes.len(),
{
    if outcomes.len() == 0 {
        0
    } else {
        count_misses(outcomes.drop_last()) + if outcomes.last() is Miss {
            1nat
        } else {
            0nat
        }
    }
}

/// Number of misses that overwrote a valid block.
pub open spec fn count_evictions(outcomes: Seq<Outcome>) -> nat
    decreases outcomes.len(),
{
    if outcomes.len() == 0 {
        0
    } else {
        count_evictions(outcomes.drop_last()) + if outcomes.last() == (Outcome::Miss { evicted: true }) {
            1nat
        } else {
            0nat
        }
    }
}

/// The abstract state of a simulation: policy, lines and counters.
pub struct SimState {
    pub policy: MappingPolicy,
    pub lines: Seq<CacheBlock>,
    pub hits: nat,
    pub misses: nat,
    pub evictions: nat,
}

/// A cache under one policy, fixed for its lifetime, with its counters.
pub struct Simulator {
    policy: MappingPolicy,
    cache: Vec<CacheBlock>,
    hits: usize,
    misses: usize,
    evictions: usize,
}

impl View for Simulator {
    type V = SimState;

    closed spec fn view(&self) -> SimState {
        SimState {
            policy: self.policy,
            lines: self.cache@,
            hits: self.hits as nat,
            misses: self.misses as nat,
            evictions: self.evictions as nat,
        }
    }
}

impl Simulator {
    /// The cache keeps its capacity, and evictions never outnumber misses.
    pub closed spec fn wf(&self) -> bool {
        &&& self.cache@.len() == CACHE_CAPACITY
        &&& self.evictions <= self.misses
    }

    /// A freshly initialised cache under `policy`, all counters zero.
    pub fn new(policy: MappingPolicy) -> (r: Simulator)
        ensures
            r.wf(),
            r@ == (SimState { policy, lines: empty_lines(), hits: 0, misses: 0, evictions: 0 }),
    {
        let mut cache: Vec<CacheBlock> = Vec::new();
        let mut i: usize = 0;
        while i < CACHE_CAPACITY
            invariant
                i <= CACHE_CAPACITY,
                cache@ == empty_lines().subrange(0, i as int),
            decreases CACHE_CAPACITY - i,
        {
            cache.push(CacheBlock::new());
            i = i + 1;
            assert(cache@ =~= empty_lines().subrange(0, i as int));
        }
        assert(cache@ =~= empty_lines());
        Simulator { policy, cache, hits: 0, misses: 0, evictions: 0 }
    }

    /// Accesses `address`: decodes it, looks it up, and on a miss installs it
    /// and counts an eviction when a valid block was overwritten.
    pub fn access(&mut self, address: usize) -> (r: Outcome)
        requires
            old(self).wf(),
            old(self)@.hits + old(self)@.misses < usize::MAX,
        ensures
            final(self).wf(),
            (final(self)@.lines, r) == step(old(self)@.lines, old(self)@.policy, address),
            final(self)@.policy == old(self)@.policy,
            final(self)@.hits == old(self)@.hits + if r == Outcome::Hit {
                1nat
            } else {
                0nat
            },
            final(self)@.misses == old(self)@.misses + if r is Miss {
                1nat
            } else {
                0nat
            },
            final(self)@.evictions == old(self)@.evictions + if r == (Outcome::Miss { evicted: true }) {
                1nat
            } else {
                0nat
            },
    {
        let (tag, index) = get_tags_and_index(address, self.policy);
        assert(index_in_range(self.policy, index));
        if find_in_cache(self.cache.as_slice(), tag, index, self.policy).is_some() {
            self.hits = self.hits + 1;
            Outcome::Hit
        } else {
            self.misses = self.misses + 1;
            let evicted = replace_block(self.cache.as_mut_slice(), tag, index, self.policy);
            let was_valid = match evicted {
                Some(b) => b.valid,
                None => false,
            };
            if was_valid {
                self.evictions = self.evictions + 1;
            }
            Outcome::Miss { evicted: was_valid }
        }
    }

    /// The placement policy of this cache.
    pub fn policy(&self) -> (r: MappingPolicy)
        ensures
            r == self@.policy,
    {
        self.policy
    }

    /// The lines of the cache, in storage order.
    pub fn lines(&self) -> (r: &[CacheBlock])
        ensures
            r@ == self@.lines,
    {
        self.cache.as_slice()
    }

    /// Number of accesses that hit.
    pub fn hits(&self) -> (r: usize)
        ensures
            r == self@.hits,
    {
        self.hits
    }

    /// Number of accesses that missed.
    pub fn misses(&self) -> (r: usize)
        ensures
            r == self@.misses,
    {
        self.misses
    }

    /// Number of misses that overwrote a valid block.
    pub fn evictions(&self) -> (r: usize)
        ensures
            r == self@.evictions,
    {
        self.evictions
    }
}

/// The result of replaying a whole trace.
pub struct Report {
    /// The outcome of each access, in trace order.
    pub outcomes: Vec<Outcome>,
    pub hits: usize,
    pub misses: usize,
    pub evictions: usize,
}

/// Replays `trace` in order on a freshly initialised cache under `policy`.
pub fn simulate(policy: MappingPolicy, trace: &[usize]) -> (r: Report)
    ensures
        r.outcomes@ == run(empty_lines(), policy, trace@).1,
        r.hits == count_hits(r.outcomes@),
        r.misses == count_misses(r.outcomes@),
        r.evictions == count_evictions(r.outcomes@),
{
    let mut sim = Simulator::new(policy);
    let mut outcomes: Vec<Outcome> = Vec::new();
    let mut i: usize = 0;
    while i < trace.len()
        invariant
            i <= trace@.len(),
            sim.wf(),
            sim@.policy == policy,
            (sim@.lines, outcomes@) == run(empty_lines(), policy, trace@.subrange(0, i as int)),
            sim@.hits == count_hits(outcomes@),
            sim@.misses == count_misses(outcomes@),
            sim@.evictions == count_evictions(outcomes@),
            sim@.hits + sim@.misses == i,
        decreases trace@.len() - i,
    {
        let ghost before = outcomes@;
        let o = sim.access(trace[i]);
        outcomes.push(o);
        assert(outcomes@.drop_last() =~= before);
        assert(trace@.subrange(0, i + 1).drop_last() =~= trace@.subrange(0, i as int));
        i = i + 1;
    }
    assert(trace@.subrange(0, i as int) =~= trace@);
    Report { outcomes, hits: sim.hits(), misses: sim.misses(), evictions: sim.evictions() }
}

} // verus!
