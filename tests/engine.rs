use genetic_extremum::agent::{Agent, Chance, GenerationData, Optimum};
use genetic_extremum::engine::{advance, midpoint, rank, split, validate, Config, EvolutionError};
use genetic_extremum::entropy::{Entropy, Replay, ThreadEntropy};
use genetic_extremum::run_simulation;

fn config(a: i64, b: i64, n: usize, generations: usize, optimum: Optimum) -> Config {
    Config {
        a,
        b,
        population_size: n,
        generations,
        mutation_intensity: 5,
        mutation_chance: Chance { numerator: 1, denominator: 10 },
        optimum,
    }
}

fn never() -> Chance {
    Chance { numerator: 0, denominator: 1 }
}

fn identity(x: i64) -> Option<i64> {
    Some(x)
}

fn positions(agents: &[Agent]) -> Vec<i64> {
    agents.iter().map(|a| a.x).collect()
}

fn check_snapshot(g: &GenerationData, n: usize, optimum: Optimum) {
    assert_eq!(g.survivors.len() + g.discarded.len(), n);
    assert_eq!(g.survivors.len(), n / 2);
    for s in &g.survivors {
        for d in &g.discarded {
            let (ks, kd) = (s.y.unwrap(), d.y.unwrap());
            match optimum {
                Optimum::Maximum => assert!(ks >= kd),
                Optimum::Minimum => assert!(ks <= kd),
            }
        }
    }
}

#[test]
fn minimum_keeps_two_smallest_of_four() {
    let mut c = config(0, 10, 4, 1, Optimum::Minimum);
    c.mutation_chance = never();
    let mut rng = Replay::new(vec![7, 3, 9, 1]);
    let history = run_simulation(&c, &identity, &mut rng).unwrap();
    assert_eq!(history.len(), 1);
    assert_eq!(positions(&history[0].survivors), vec![1, 3]);
    assert_eq!(positions(&history[0].discarded), vec![7, 9]);
}

#[test]
fn minimum_scenario_with_system_randomness() {
    let mut c = config(0, 10, 4, 1, Optimum::Minimum);
    c.mutation_chance = never();
    let history = run_simulation(&c, &identity, &mut ThreadEntropy).unwrap();
    assert_eq!(history.len(), 1);
    let g = &history[0];
    check_snapshot(g, 4, Optimum::Minimum);
    let smallest = positions(&g.survivors).into_iter().max().unwrap();
    let largest = positions(&g.discarded).into_iter().min().unwrap();
    assert!(smallest <= largest);
    for a in g.survivors.iter().chain(g.discarded.iter()) {
        assert!(0 <= a.x && a.x <= 10);
    }
}

#[test]
fn snapshots_hold_for_every_generation() {
    for optimum in [Optimum::Minimum, Optimum::Maximum] {
        for n in [2usize, 3, 4, 7, 10] {
            let c = config(-100, 100, n, 6, optimum);
            let square = |x: i64| Some(x * x - 30 * x);
            let history = run_simulation(&c, &square, &mut ThreadEntropy).unwrap();
            assert_eq!(history.len(), 6);
            for g in &history {
                check_snapshot(g, n, optimum);
            }
        }
    }
}

#[test]
fn odd_population_discards_the_extra_member() {
    let c = config(0, 50, 5, 3, Optimum::Maximum);
    let history = run_simulation(&c, &identity, &mut ThreadEntropy).unwrap();
    for g in &history {
        assert_eq!(g.survivors.len(), 2);
        assert_eq!(g.discarded.len(), 3);
    }
}

#[test]
fn zero_generations_give_empty_history() {
    let c = config(0, 10, 4, 0, Optimum::Minimum);
    let history = run_simulation(&c, &identity, &mut ThreadEntropy).unwrap();
    assert!(history.is_empty());
}

#[test]
fn same_draws_give_identical_histories() {
    let c = config(-20, 20, 6, 8, Optimum::Maximum);
    let seq: Vec<u64> = (0..97u64).map(|i| i * 2654435761 % 1000003).collect();
    let first = run_simulation(&c, &identity, &mut Replay::new(seq.clone())).unwrap();
    let second = run_simulation(&c, &identity, &mut Replay::new(seq)).unwrap();
    assert_eq!(first, second);
}

#[test]
fn no_mutation_keeps_survivor_positions() {
    let mut c = config(0, 1000, 6, 1, Optimum::Minimum);
    c.mutation_chance = never();
    let mut rng = ThreadEntropy;
    let mut population: Vec<Agent> = Vec::new();
    for x in [500, 20, 900, 310, 77, 640] {
        let mut a = Agent::new(x);
        a.calculate(&identity);
        population.push(a);
    }
    let (g, next) = advance(population, &c, &identity, &mut rng).unwrap();
    assert_eq!(positions(&g.survivors), vec![20, 77, 310]);
    assert_eq!(positions(&next[..3]), vec![20, 77, 310]);
    for child in &next[3..] {
        let bred = [20, 77, 310]
            .iter()
            .any(|&p| [20, 77, 310].iter().any(|&q| midpoint(p, q) == child.x));
        assert!(bred);
        assert_eq!(child.y, Some(child.x));
    }
}

#[test]
fn two_agents_stay_at_the_survivor() {
    let mut c = config(0, 100, 2, 5, Optimum::Maximum);
    c.mutation_chance = never();
    let history = run_simulation(&c, &identity, &mut ThreadEntropy).unwrap();
    assert_eq!(history.len(), 5);
    let best = history[0].survivors[0].x;
    for g in &history {
        assert_eq!(g.survivors.len(), 1);
        assert_eq!(g.survivors[0].x, best);
    }
    for g in &history[1..] {
        assert_eq!(g.discarded[0].x, best);
    }
}

#[test]
fn empty_interval_is_rejected() {
    let c = config(10, 0, 4, 3, Optimum::Minimum);
    assert_eq!(run_simulation(&c, &identity, &mut ThreadEntropy), Err(EvolutionError::EmptyInterval));
}

#[test]
fn too_small_population_is_rejected() {
    for n in [0usize, 1] {
        let c = config(0, 10, n, 3, Optimum::Minimum);
        assert_eq!(validate(&c), Err(EvolutionError::PopulationTooSmall));
        assert_eq!(
            run_simulation(&c, &identity, &mut ThreadEntropy),
            Err(EvolutionError::PopulationTooSmall)
        );
    }
}

#[test]
fn probability_outside_unit_interval_is_rejected() {
    let mut c = config(0, 10, 4, 3, Optimum::Minimum);
    c.mutation_chance = Chance { numerator: 3, denominator: 2 };
    assert_eq!(run_simulation(&c, &identity, &mut ThreadEntropy), Err(EvolutionError::InvalidProbability));
    c.mutation_chance = Chance { numerator: 0, denominator: 0 };
    assert_eq!(validate(&c), Err(EvolutionError::InvalidProbability));
    c.mutation_chance = Chance { numerator: 1, denominator: 1 };
    assert_eq!(validate(&c), Ok(()));
}

#[test]
fn incomparable_fitness_aborts_the_run() {
    let c = config(0, 10, 4, 3, Optimum::Minimum);
    let partial = |x: i64| if x == 5 { None } else { Some(x) };
    let mut rng = Replay::new(vec![1, 5, 2, 3]);
    assert_eq!(run_simulation(&c, &partial, &mut rng), Err(EvolutionError::NotComparable));
}

#[test]
fn rank_orders_by_direction() {
    let agents: Vec<Agent> = [4, -2, 9, 0]
        .iter()
        .map(|&k| Agent { x: k * 10, y: Some(k) })
        .collect();
    let up = rank(agents.clone(), Optimum::Minimum).unwrap();
    assert_eq!(positions(&up), vec![-20, 0, 40, 90]);
    let down = rank(agents.clone(), Optimum::Maximum).unwrap();
    assert_eq!(positions(&down), vec![90, 40, 0, -20]);
    let g = split(&down);
    assert_eq!(positions(&g.survivors), vec![90, 40]);
    assert_eq!(positions(&g.discarded), vec![0, -20]);
    let mut unscored = agents;
    unscored[2].y = None;
    assert_eq!(rank(unscored, Optimum::Minimum), Err(EvolutionError::NotComparable));
}

#[test]
fn midpoint_rounds_down() {
    assert_eq!(midpoint(3, 4), 3);
    assert_eq!(midpoint(-3, -4), -4);
    assert_eq!(midpoint(-5, 8), 1);
    assert_eq!(midpoint(i64::MAX, i64::MAX), i64::MAX);
    assert_eq!(midpoint(i64::MIN, i64::MAX), -1);
}

#[test]
fn mutation_moves_by_intensity() {
    let always = Chance { numerator: 1, denominator: 1 };
    for _ in 0..20 {
        let mut a = Agent::new(100);
        a.calculate(&identity);
        a.mutate(7, always, &mut ThreadEntropy);
        assert!(a.x == 107 || a.x == 93);
        assert_eq!(a.y, None);
    }
    let mut b = Agent::new(100);
    b.mutate(7, never(), &mut ThreadEntropy);
    assert_eq!(b.x, 100);
    let mut c = Agent::new(i64::MAX - 1);
    c.mutate(5, always, &mut Replay::new(vec![0]));
    assert_eq!(c.x, i64::MAX);
}

#[test]
fn thread_entropy_stays_in_range() {
    let mut rng = ThreadEntropy;
    for _ in 0..50 {
        assert_eq!(rng.index_below(1), 0);
        assert!(rng.index_below(3) < 3);
        let v = rng.between(-4, 4);
        assert!((-4..=4).contains(&v));
        assert_eq!(rng.between(6, 6), 6);
        assert!(!rng.ratio(0, 5));
        assert!(rng.ratio(5, 5));
    }
}

#[test]
fn replay_cycles_through_its_draws() {
    let mut rng = Replay::new(vec![10, 21]);
    assert_eq!(rng.index_below(4), 2);
    assert_eq!(rng.index_below(4), 1);
    assert_eq!(rng.between(-3, 3), 0);
    assert!(rng.ratio(2, 3));
    let mut empty = Replay::new(Vec::new());
    assert_eq!(empty.between(5, 9), 5);
}

#[test]
fn later_generations_descend_from_survivors() {
    let mut c = config(-500, 500, 6, 5, Optimum::Maximum);
    c.mutation_chance = never();
    let history = run_simulation(&c, &identity, &mut ThreadEntropy).unwrap();
    for pair in history.windows(2) {
        let parents = positions(&pair[0].survivors);
        let mut later = positions(&pair[1].survivors);
        later.extend(positions(&pair[1].discarded));
        for p in &parents {
            assert!(later.contains(p));
        }
        for x in later {
            let from_parents = parents
                .iter()
                .any(|&p| parents.iter().any(|&q| midpoint(p, q) == x));
            assert!(from_parents);
        }
    }
}

#[test]
fn apply_mutation_follows_its_draws() {
    let mut a = Agent::new(40);
    a.calculate(&identity);
    a.apply_mutation(6, true, true);
    assert_eq!(a.x, 46);
    assert_eq!(a.y, None);
    a.apply_mutation(6, true, false);
    assert_eq!(a.x, 40);
    a.apply_mutation(6, false, true);
    assert_eq!(a.x, 40);
    let mut low = Agent::new(i64::MIN + 2);
    low.apply_mutation(9, true, false);
    assert_eq!(low.x, i64::MIN);
}
