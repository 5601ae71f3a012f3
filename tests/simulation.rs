use cache_sim::block::CacheBlock;
use cache_sim::policy::{get_tags_and_index, MappingPolicy};
use cache_sim::simulation::{simulate, Outcome, Simulator};

const MISS: Outcome = Outcome::Miss { evicted: false };
const EVICT: Outcome = Outcome::Miss { evicted: true };

#[test]
fn direct_conflict_evicts_previous_block() {
    let mut sim = Simulator::new(MappingPolicy::Direct);
    assert_eq!(sim.access(1), MISS);
    assert_eq!(sim.access(5), EVICT);
    assert_eq!(sim.evictions(), 1);
    assert_eq!(sim.lines()[1], CacheBlock::filled(1));
    assert_eq!(sim.access(1), EVICT);
    assert_eq!(sim.evictions(), 2);
}

#[test]
fn set_holds_two_tags_then_drops_third() {
    let mut sim = Simulator::new(MappingPolicy::SetAssociative);
    assert_eq!(sim.access(0), MISS);
    assert_eq!(sim.access(2), MISS);
    assert_eq!(sim.access(0), Outcome::Hit);
    assert_eq!(sim.access(2), Outcome::Hit);
    let before = sim.lines().to_vec();
    assert_eq!(sim.access(4), MISS);
    assert_eq!(sim.lines(), &before[..]);
    assert_eq!(sim.lines()[0], CacheBlock::filled(0));
    assert_eq!(sim.lines()[1], CacheBlock::filled(1));
    assert_eq!(sim.access(4), MISS);
    assert_eq!((sim.hits(), sim.misses(), sim.evictions()), (2, 4, 0));
}

#[test]
fn associative_second_tag_overwrites_first() {
    let mut sim = Simulator::new(MappingPolicy::Associative);
    assert_eq!(sim.access(7), MISS);
    assert_eq!(sim.access(9), EVICT);
    assert_eq!(sim.access(7), EVICT);
    assert_eq!(sim.access(7), Outcome::Hit);
    assert_eq!(sim.lines()[0], CacheBlock::filled(7));
    assert_eq!(sim.lines()[1], CacheBlock::new());
    assert_eq!(sim.policy(), MappingPolicy::Associative);
}

#[test]
fn replay_is_identical() {
    let trace = [3usize, 7, 3, 11, 2, 6, 3, 7];
    for policy in [
        MappingPolicy::Direct,
        MappingPolicy::SetAssociative,
        MappingPolicy::Associative,
    ] {
        let a = simulate(policy, &trace);
        let b = simulate(policy, &trace);
        assert_eq!(a.outcomes, b.outcomes);
        assert_eq!((a.hits, a.misses, a.evictions), (b.hits, b.misses, b.evictions));
    }
}

#[test]
fn direct_end_to_end_trace() {
    let trace = [0usize, 4, 0, 8, 1, 5, 1, 2];
    let indices: Vec<usize> = trace
        .iter()
        .map(|&a| get_tags_and_index(a, MappingPolicy::Direct).1)
        .collect();
    assert_eq!(indices, vec![0, 0, 0, 0, 1, 1, 1, 2]);
    let r = simulate(MappingPolicy::Direct, &trace);
    assert_eq!(
        r.outcomes,
        vec![MISS, EVICT, EVICT, EVICT, MISS, EVICT, EVICT, MISS]
    );
    assert_eq!((r.hits, r.misses, r.evictions), (0, 8, 5));
}

#[test]
fn set_associative_end_to_end_trace() {
    let trace = [0usize, 4, 0, 8, 1, 5, 1, 2];
    let r = simulate(MappingPolicy::SetAssociative, &trace);
    assert_eq!(
        r.outcomes,
        vec![MISS, MISS, Outcome::Hit, MISS, MISS, MISS, Outcome::Hit, MISS]
    );
    assert_eq!((r.hits, r.misses, r.evictions), (2, 6, 0));
}

#[test]
fn empty_trace_counts_nothing() {
    let r = simulate(MappingPolicy::Direct, &[]);
    assert!(r.outcomes.is_empty());
    assert_eq!((r.hits, r.misses, r.evictions), (0, 0, 0));
}

#[test]
fn fresh_simulator_is_empty() {
    let sim = Simulator::new(MappingPolicy::Direct);
    assert_eq!(sim.lines(), &[CacheBlock::new(); 4][..]);
    assert_eq!((sim.hits(), sim.misses(), sim.evictions()), (0, 0, 0));
}
