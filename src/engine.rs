use vstd::prelude::*;

use crate::agent::{Agent, Chance, GenerationData, Optimum, mutation_of};
use crate::entropy::Entropy;

verus! {

broadcast use vstd::seq_lib::group_to_multiset_ensures;

/// Why a run stopped.
#[derive(Clone, Copy, Debug, PartialEq, Eq, Structural)]
pub enum EvolutionError {
    /// The sampling interval is empty: `a > b`.
    EmptyInterval,
    /// Fewer than two agents: no survivor would be left to breed from.
    PopulationTooSmall,
    /// The mutation probability is not in `[0, 1]`.
    InvalidProbability,
    /// The objective gave a value that cannot be ordered (NaN or infinite).
    NotComparable,
}

/// The fitness key of an evaluated agent.
pub open spec fn key(a: Agent) -> int {
    match a.y {
        Some(v) => v as int,
        None => 0,
    }
}

/// Every agent has a fitness.
pub open spec fn evaluated(s: Seq<Agent>) -> bool {
    forall|i: int| 0 <= i < s.len() ==> (#[trigger] s[i]).y is Some
}

/// `p` is at least as good as `q` in the direction of `optimum`.
pub open spec fn at_least_as_good(p: Agent, q: Agent, optimum: Optimum) -> bool {
    match optimum {
        Optimum::Maximum => key(p) >= key(q),
        Optimum::Minimum => key(p) <= key(q),
    }
}

/// Best first: each agent is at least as good as every later one.
pub open spec fn ranked(s: Seq<Agent>, optimum: Optimum) -> bool {
    forall|i: int, j: int|
        0 <= i < j < s.len() ==> at_least_as_good(#[trigger] s[i], #[trigger] s[j], optimum)
}

fn is_at_least_as_good(p: Agent, q: Agent, optimum: Optimum) -> (r: bool)
    requires
        p.y is Some,
        q.y is Some,
    ensures
        r == at_least_as_good(p, q, optimum),
{
    let (Some(kp), Some(kq)) = (p.y, q.y) else { return false };
    match optimum {
        Optimum::Maximum => kp >= kq,
        Optimum::Minimum => kp <= kq,
    }
}

/// Whether every agent has a fitness.
pub fn all_evaluated(population: &Vec<Agent>) -> (r: bool)
    ensures
        r == evaluated(population@),
{
    let mut i: usize = 0;
    while i < population.len()
        invariant
            i <= population.len(),
            evaluated(population@.subrange(0, i as int)),
        decreases population.len() - i,
    {
        if population[i].y.is_none() {
            assert(!evaluated(population@));
            return false;
        }
        assert(population@.subrange(0, i + 1) =~= population@.subrange(0, i as int).push(
            population@[i as int],
        ));
        i += 1;
    }
    assert(population@.subrange(0, i as int) =~= population@);
    true
}

/// Sorts the population best first in the direction of `optimum`. Fails when
/// an agent has no comparable fitness.
pub fn rank(population: Vec<Agent>, optimum: Optimum) -> (r: Result<Vec<Agent>, EvolutionError>)
    ensures
        r is Err <==> !evaluated(population@),
        r is Err ==> r == Err::<Vec<Agent>, EvolutionError>(EvolutionError::NotComparable),
        r matches Ok(s) ==> s.len() == population.len() && s@.to_multiset()
            == population@.to_multiset() && ranked(s@, optimum) && evaluated(s@),
{
    if !all_evaluated(&population) {
        return Err(EvolutionError::NotComparable);
    }
    let mut s = population;
    let n = s.len();
    let mut i: usize = 0;
    while i < n
        invariant
            n == s.len(),
            i <= n,
            s@.to_multiset() == population@.to_multiset(),
            evaluated(s@),
            ranked(s@.subrange(0, i as int), optimum),
            forall|p: int, q: int|
                0 <= p < i <= q < n ==> at_least_as_good(#[trigger] s@[p], #[trigger] s@[q], optimum),
        decreases n - i,
    {
        let mut best: usize = i;
        let mut j: usize = i + 1;
        while j < n
            invariant
                n == s.len(),
                i < n,
                i <= best < n,
                i < j <= n,
                evaluated(s@),
                forall|q: int| i <= q < j ==> at_least_as_good(s@[best as int], #[trigger] s@[q], optimum),
            decreases n - j,
        {
            if !is_at_least_as_good(s[best], s[j], optimum) {
                best = j;
            }
            j += 1;
        }
        let a = s[i];
        let b = s[best];
        let ghost before = s@;
        s.set(i, b);
        s.set(best, a);
        proof {
            assert(s@ =~= before.update(i as int, b).update(best as int, a));
            assert(before.update(i as int, b).to_multiset() == before.to_multiset().insert(b).remove(a));
            assert forall|p: int, q: int| 0 <= p < q < i + 1 implies at_least_as_good(
                #[trigger] s@.subrange(0, i + 1)[p],
                #[trigger] s@.subrange(0, i + 1)[q],
                optimum,
            ) by {
                assert(s@.subrange(0, i + 1)[p] == before[p]);
                if q < i {
                    assert(s@.subrange(0, i + 1)[q] == before[q]);
                    assert(at_least_as_good(
                        before.subrange(0, i as int)[p],
                        before.subrange(0, i as int)[q],
                        optimum,
                    ));
                } else {
                    assert(s@.subrange(0, i + 1)[q] == before[best as int]);
                    assert(at_least_as_good(before[p], before[best as int], optimum));
                }
            }
        }
        i += 1;
    }
    assert(s@.subrange(0, n as int) =~= s@);
    assert(s.len() == population.len()) by {
        assert(s@.to_multiset().len() == population@.to_multiset().len());
    }
    Ok(s)
}

/// Splits a ranked population: the first half (rounded down) survives, the
/// rest is discarded, both in ranked order.
pub fn split(ranked: &Vec<Agent>) -> (r: GenerationData)
    ensures
        r.survivors@ == ranked@.subrange(0, (ranked.len() / 2) as int),
        r.discarded@ == ranked@.subrange((ranked.len() / 2) as int, ranked.len() as int),
{
    let n = ranked.len();
    let half = n / 2;
    let mut survivors: Vec<Agent> = Vec::new();
    let mut discarded: Vec<Agent> = Vec::new();
    let mut i: usize = 0;
    while i < n
        invariant
            n == ranked.len(),
            half == n / 2,
            i <= n,
            survivors@ == ranked@.subrange(0, if i < half { i as int } else { half as int }),
            discarded@ == ranked@.subrange(half as int, if i < half { half as int } else { i as int }),
        decreases n - i,
    {
        if i < half {
            survivors.push(ranked[i]);
        } else {
            discarded.push(ranked[i]);
        }
        i += 1;
    }
    GenerationData { survivors, discarded }
}

/// The settings of one run.
#[derive(Clone, Copy, Debug, PartialEq, Eq)]
pub struct Config {
    /// Lower bound of the interval that the first population is drawn from.
    pub a: i64,
    /// Upper bound of that interval.
    pub b: i64,
    pub population_size: usize,
    /// How many generations are recorded.
    pub generations: usize,
    /// How far one mutation moves a position, up or down.
    pub mutation_intensity: i64,
    /// How likely each agent is to mutate in each generation.
    pub mutation_chance: Chance,
    pub optimum: Optimum,
}

/// What is wrong with a configuration, checked in this order; `None` if
/// nothing is.
pub open spec fn config_error(c: Config) -> Option<EvolutionError> {
    if c.a > c.b {
        Some(EvolutionError::EmptyInterval)
    } else if c.population_size < 2 {
        Some(EvolutionError::PopulationTooSmall)
    } else if !c.mutation_chance.valid() {
        Some(EvolutionError::InvalidProbability)
    } else {
        None
    }
}

/// Checks a configuration before anything is drawn.
pub fn validate(config: &Config) -> (r: Result<(), EvolutionError>)
    ensures
        r is Ok <==> config_error(*config) is None,
        r matches Err(e) ==> config_error(*config) == Some(e),
{
    if config.a > config.b {
        Err(EvolutionError::EmptyInterval)
    } else if config.population_size < 2 {
        Err(EvolutionError::PopulationTooSmall)
    } else if config.mutation_chance.denominator == 0
        || config.mutation_chance.numerator > config.mutation_chance.denominator {
        Err(EvolutionError::InvalidProbability)
    } else {
        Ok(())
    }
}

/// The arithmetic mean of two positions, rounded down.
pub open spec fn mean(p: int, q: int) -> int {
    (p + q) / 2
}

/// The mean of two positions, rounded down.
pub fn midpoint(p: i64, q: i64) -> (r: i64)
    ensures
        r == mean(p as int, q as int),
{
    let (lo, hi) = if p <= q { (p, q) } else { (q, p) };
    let d: u128 = (hi as i128 - lo as i128) as u128;
    (lo as i128 + (d / 2) as i128) as i64
}

/// The fitness of `c` is what the objective gave at its position.
pub open spec fn scored<F: Fn(i64) -> Option<i64>>(c: Agent, fun: F) -> bool {
    fun.ensures((c.x,), c.y)
}

/// `x` is the mean of the positions of two of `parents`.
pub open spec fn bred_from(x: int, parents: Seq<Agent>) -> bool {
    exists|i: int, j: int|
        0 <= i < parents.len() && 0 <= j < parents.len() && x == mean(
            #[trigger] parents[i].x as int,
            #[trigger] parents[j].x as int,
        )
}

/// `x` is one mutation step away from the mean of two of `parents`.
pub open spec fn mutated_child_of(x: int, parents: Seq<Agent>, strangeness: int) -> bool {
    exists|i: int, j: int|
        0 <= i < parents.len() && 0 <= j < parents.len() && mutation_of(
            mean(#[trigger] parents[i].x as int, #[trigger] parents[j].x as int),
            strangeness,
            x,
        )
}

/// Fills the population back up to `population_size`: the survivors stay, in
/// order, and each child takes the mean position of two survivors drawn at
/// random (with replacement) and is evaluated.
pub fn reproduce<F: Fn(i64) -> Option<i64>, R: Entropy>(
    survivors: &Vec<Agent>,
    population_size: usize,
    fun: &F,
    rng: &mut R,
) -> (r: Vec<Agent>)
    requires
        0 < survivors.len() <= population_size,
        forall|x: i64| fun.requires((x,)),
    ensures
        r.len() == population_size,
        r@.subrange(0, survivors.len() as int) == survivors@,
        forall|k: int|
            survivors.len() <= k < population_size ==> bred_from(#[trigger] r@[k].x as int, survivors@)
                && scored(r@[k], *fun),
{
    let mut next: Vec<Agent> = Vec::new();
    let mut i: usize = 0;
    while i < survivors.len()
        invariant
            i <= survivors.len(),
            next@ == survivors@.subrange(0, i as int),
        decreases survivors.len() - i,
    {
        next.push(survivors[i]);
        i += 1;
    }
    while next.len() < population_size
        invariant
            0 < survivors.len() <= population_size,
            survivors.len() <= next.len() <= population_size,
            forall|x: i64| fun.requires((x,)),
            next@.subrange(0, survivors.len() as int) == survivors@,
            forall|k: int|
                survivors.len() <= k < next.len() ==> bred_from(#[trigger] next@[k].x as int, survivors@)
                    && scored(next@[k], *fun),
        decreases population_size - next.len(),
    {
        let p = rng.index_below(survivors.len());
        let q = rng.index_below(survivors.len());
        let mut child = Agent::new(midpoint(survivors[p].x, survivors[q].x));
        child.calculate(fun);
        assert(bred_from(child.x as int, survivors@)) by {
            assert(child.x == mean(survivors@[p as int].x as int, survivors@[q as int].x as int));
        }
        let ghost before = next@;
        next.push(child);
        assert(next@.subrange(0, survivors.len() as int) =~= before.subrange(0, survivors.len() as int));
    }
    next
}

/// Mutates every agent (see `Agent::mutate`) and evaluates it again.
pub fn mutate_population<F: Fn(i64) -> Option<i64>, R: Entropy>(
    population: &mut Vec<Agent>,
    strangeness: i64,
    chance: Chance,
    fun: &F,
    rng: &mut R,
)
    requires
        chance.valid(),
        forall|x: i64| fun.requires((x,)),
    ensures
        final(population).len() == old(population).len(),
        forall|k: int|
            0 <= k < final(population).len() ==> mutation_of(
                old(population)@[k].x as int,
                strangeness as int,
                #[trigger] final(population)@[k].x as int,
            ) && scored(final(population)@[k], *fun),
        chance.numerator == 0 ==> forall|k: int|
            0 <= k < final(population).len() ==> #[trigger] final(population)@[k].x == old(
                population,
            )@[k].x,
{
    let n = population.len();
    let mut i: usize = 0;
    while i < n
        invariant
            n == population.len() == old(population).len(),
            i <= n,
            chance.valid(),
            forall|x: i64| fun.requires((x,)),
            forall|k: int| i <= k < n ==> #[trigger] population@[k] == old(population)@[k],
            forall|k: int|
                0 <= k < i ==> mutation_of(
                    old(population)@[k].x as int,
                    strangeness as int,
                    #[trigger] population@[k].x as int,
                ) && scored(population@[k], *fun),
            chance.numerator == 0 ==> forall|k: int|
                0 <= k < i ==> #[trigger] population@[k].x == old(population)@[k].x,
        decreases n - i,
    {
        let mut a = population[i];
        a.mutate(strangeness, chance, rng);
        a.calculate(fun);
        population.set(i, a);
        i += 1;
    }
}

/// Draws `population_size` positions uniformly from `[a, b]` and evaluates
/// each.
pub fn initial_population<F: Fn(i64) -> Option<i64>, R: Entropy>(
    a: i64,
    b: i64,
    population_size: usize,
    fun: &F,
    rng: &mut R,
) -> (r: Vec<Agent>)
    requires
        a <= b,
        forall|x: i64| fun.requires((x,)),
    ensures
        r.len() == population_size,
        forall|k: int|
            0 <= k < population_size ==> a <= #[trigger] r@[k].x <= b && scored(r@[k], *fun),
{
    let mut population: Vec<Agent> = Vec::new();
    while population.len() < population_size
        invariant
            a <= b,
            population.len() <= population_size,
            forall|x: i64| fun.requires((x,)),
            forall|k: int|
                0 <= k < population.len() ==> a <= #[trigger] population@[k].x <= b && scored(
                    population@[k],
                    *fun,
                ),
        decreases population_size - population.len(),
    {
        let mut agent = Agent::new(rng.between(a, b));
        agent.calculate(fun);
        population.push(agent);
    }
    population
}

/// The record of one generation of `n` agents: the better `n / 2` survive,
/// the rest are discarded, all evaluated and ranked best first.
pub open spec fn sound_snapshot(g: GenerationData, n: nat, optimum: Optimum) -> bool {
    &&& g.survivors.len() == n / 2
    &&& g.discarded.len() == n - n / 2
    &&& ranked(g.survivors@ + g.discarded@, optimum)
    &&& evaluated(g.survivors@ + g.discarded@)
}

/// `next` is what one generation makes of the record `g`: the survivors,
/// each mutated at most once, in their order, then children that each sit one
/// mutation away from the mean of two survivors; every agent is evaluated
/// again. Without mutation the survivors keep their positions and the children
/// sit exactly at such a mean.
pub open spec fn next_population<F: Fn(i64) -> Option<i64>>(
    g: GenerationData,
    next: Seq<Agent>,
    config: Config,
    fun: F,
) -> bool {
    let n = config.population_size as int;
    let survivors = g.survivors@;
    let s = config.mutation_intensity as int;
    &&& next.len() == n
    &&& forall|k: int| 0 <= k < n ==> scored(#[trigger] next[k], fun)
    &&& forall|k: int|
        0 <= k < n / 2 ==> mutation_of(survivors[k].x as int, s, #[trigger] next[k].x as int)
    &&& forall|k: int| n / 2 <= k < n ==> mutated_child_of(#[trigger] next[k].x as int, survivors, s)
    &&& config.mutation_chance.numerator == 0 ==> forall|k: int|
        0 <= k < n / 2 ==> #[trigger] next[k].x == survivors[k].x
    &&& config.mutation_chance.numerator == 0 ==> forall|k: int|
        n / 2 <= k < n ==> bred_from(#[trigger] next[k].x as int, survivors)
}

/// The record `later` ranks a population that one generation made of the
/// record `earlier`.
pub open spec fn follows<F: Fn(i64) -> Option<i64>>(
    earlier: GenerationData,
    later: GenerationData,
    config: Config,
    fun: F,
) -> bool {
    exists|next: Seq<Agent>|
        next_population(earlier, next, config, fun) && #[trigger] next.to_multiset() == (
        later.survivors@ + later.discarded@).to_multiset()
}

/// The record `first` ranks a population drawn from `[a, b]` and evaluated.
pub open spec fn drawn_first<F: Fn(i64) -> Option<i64>>(
    first: GenerationData,
    config: Config,
    fun: F,
) -> bool {
    exists|initial: Seq<Agent>|
        (forall|k: int|
            0 <= k < initial.len() ==> config.a <= #[trigger] initial[k].x <= config.b && scored(
                initial[k],
                fun,
            )) && #[trigger] initial.to_multiset() == (first.survivors@ + first.discarded@).to_multiset()
}

/// One generation: ranks and splits the population (the returned record),
/// refills it from the survivors and mutates every agent (the returned next
/// population).
pub fn advance<F: Fn(i64) -> Option<i64>, R: Entropy>(
    population: Vec<Agent>,
    config: &Config,
    fun: &F,
    rng: &mut R,
) -> (r: Result<(GenerationData, Vec<Agent>), EvolutionError>)
    requires
        config_error(*config) is None,
        population.len() == config.population_size,
        forall|x: i64| fun.requires((x,)),
    ensures
        r is Err <==> !evaluated(population@),
        r matches Err(e) ==> e == EvolutionError::NotComparable,
        r matches Ok((g, next)) ==> {
            &&& sound_snapshot(g, config.population_size as nat, config.optimum)
            &&& (g.survivors@ + g.discarded@).to_multiset() == population@.to_multiset()
            &&& next_population(g, next@, *config, *fun)
        },
{
    let ranked_population = match rank(population, config.optimum) {
        Ok(v) => v,
        Err(e) => return Err(e),
    };
    let g = split(&ranked_population);
    assert(g.survivors@ + g.discarded@ =~= ranked_population@);
    let children = reproduce(&g.survivors, config.population_size, fun, rng);
    let mut next = children;
    mutate_population(
        &mut next,
        config.mutation_intensity,
        config.mutation_chance,
        fun,
        rng,
    );
    proof {
        let n = config.population_size as int;
        let h = n / 2;
        let s = config.mutation_intensity as int;
        assert forall|k: int| 0 <= k < h implies mutation_of(
            g.survivors@[k].x as int,
            s,
            #[trigger] next@[k].x as int,
        ) by {
            assert(children@.subrange(0, h)[k] == children@[k]);
        }
        assert forall|k: int| h <= k < n implies mutated_child_of(
            #[trigger] next@[k].x as int,
            g.survivors@,
            s,
        ) by {
            let x = children@[k].x as int;
            assert(bred_from(x, g.survivors@));
            let (i, j) = choose|i: int, j: int|
                0 <= i < g.survivors@.len() && 0 <= j < g.survivors@.len() && x == mean(
                    #[trigger] g.survivors@[i].x as int,
                    #[trigger] g.survivors@[j].x as int,
                );
            assert(mutation_of(
                mean(g.survivors@[i].x as int, g.survivors@[j].x as int),
                s,
                next@[k].x as int,
            ));
        }
        if config.mutation_chance.numerator == 0 {
            assert forall|k: int| 0 <= k < h implies #[trigger] next@[k].x == g.survivors@[k].x by {
                assert(children@.subrange(0, h)[k] == children@[k]);
            }
            assert forall|k: int| h <= k < n implies bred_from(
                #[trigger] next@[k].x as int,
                g.survivors@,
            ) by {
                assert(next@[k].x == children@[k].x);
            }
        }
    }
    Ok((g, next))
}

/// Runs the search: draws the first population, then records
/// `config.generations` generations, each ranked, split and refilled as
/// `advance` does. Fails on a bad configuration before anything is drawn, and
/// when the objective gives a value that cannot be ordered.
pub fn run_simulation<F: Fn(i64) -> Option<i64>, R: Entropy>(
    config: &Config,
    fun: &F,
    rng: &mut R,
) -> (r: Result<Vec<GenerationData>, EvolutionError>)
    requires
        forall|x: i64| fun.requires((x,)),
    ensures
        config_error(*config) matches Some(e) ==> r == Err::<Vec<GenerationData>, EvolutionError>(
            e,
        ),
        config_error(*config) is None && r is Err ==> r == Err::<
            Vec<GenerationData>,
            EvolutionError,
        >(EvolutionError::NotComparable),
        config_error(*config) is Some ==> *final(rng) == *old(rng),
        config_error(*config) is None && r is Err ==> exists|x: i64|
            fun.ensures((x,), None::<i64>),
        config_error(*config) is None && (forall|x: i64, y: Option<i64>|
            fun.ensures((x,), y) ==> y is Some) ==> r is Ok,
        r matches Ok(history) ==> {
            &&& history.len() == config.generations
            &&& forall|g: int|
                0 <= g < history.len() ==> sound_snapshot(
                    #[trigger] history@[g],
                    config.population_size as nat,
                    config.optimum,
                )
            &&& history.len() > 0 ==> drawn_first(history@[0], *config, *fun)
            &&& forall|g: int|
                0 <= g < history.len() - 1 ==> follows(
                    #[trigger] history@[g],
                    history@[g + 1],
                    *config,
                    *fun,
                )
        },
{
    if let Err(e) = validate(config) {
        return Err(e);
    }
    let mut population = initial_population(config.a, config.b, config.population_size, fun, rng);
    let mut history: Vec<GenerationData> = Vec::new();
    let mut generation: usize = 0;
    while generation < config.generations
        invariant
            config_error(*config) is None,
            forall|x: i64| fun.requires((x,)),
            population.len() == config.population_size,
            forall|k: int| 0 <= k < population.len() ==> scored(#[trigger] population@[k], *fun),
            generation <= config.generations,
            history.len() == generation,
            forall|g: int|
                0 <= g < history.len() ==> sound_snapshot(
                    #[trigger] history@[g],
                    config.population_size as nat,
                    config.optimum,
                ),
            history.len() == 0 ==> forall|k: int|
                0 <= k < population.len() ==> config.a <= #[trigger] population@[k].x <= config.b,
            history.len() > 0 ==> drawn_first(history@[0], *config, *fun),
            history.len() > 0 ==> next_population(history@[history.len() - 1], population@, *config, *fun),
            forall|g: int|
                0 <= g < history.len() - 1 ==> follows(
                    #[trigger] history@[g],
                    history@[g + 1],
                    *config,
                    *fun,
                ),
        decreases config.generations - generation,
    {
        proof {
            if forall|x: i64, y: Option<i64>| fun.ensures((x,), y) ==> y is Some {
                assert forall|k: int| 0 <= k < population.len() implies (
                #[trigger] population@[k]).y is Some by {
                    assert(scored(population@[k], *fun));
                }
            }
        }
        let ghost current = population@;
        let ghost earlier = history@;
        match advance(population, config, fun, rng) {
            Ok((g, next)) => {
                history.push(g);
                population = next;
                proof {
                    assert(history@[history.len() - 1] == g);
                    if earlier.len() == 0 {
                        assert(history@[0] == g);
                        assert(current.to_multiset() == (g.survivors@ + g.discarded@).to_multiset());
                    } else {
                        assert(history@[0] == earlier[0]);
                        let last = earlier.len() - 1;
                        assert(next_population(history@[last], current, *config, *fun));
                        assert(current.to_multiset() == (g.survivors@ + g.discarded@).to_multiset());
                        assert(follows(history@[last], history@[last + 1], *config, *fun));
                    }
                    assert forall|i: int| 0 <= i < history.len() - 1 implies follows(
                        #[trigger] history@[i],
                        history@[i + 1],
                        *config,
                        *fun,
                    ) by {
                        if i < earlier.len() - 1 {
                            assert(history@[i] == earlier[i]);
                            assert(history@[i + 1] == earlier[i + 1]);
                        }
                    }
                }
            },
            Err(e) => {
                proof {
                    let k = choose|k: int| 0 <= k < current.len() && !((#[trigger] current[k]).y is Some);
                    assert(scored(current[k], *fun));
                    assert(fun.ensures((current[k].x,), None::<i64>));
                }
                return Err(e);
            },
        }
        generation += 1;
    }
    Ok(history)
}

/// In a generation's record, every survivor is at least as good as every
/// discarded agent in the direction of the search, and the two halves add up
/// to the population size.
pub proof fn lemma_survivors_beat_discarded(g: GenerationData, n: nat, optimum: Optimum)
    requires
        sound_snapshot(g, n, optimum),
    ensures
        g.survivors.len() + g.discarded.len() == n,
        g.survivors.len() == n / 2,
        forall|i: int, j: int|
            0 <= i < g.survivors.len() && 0 <= j < g.discarded.len() ==> at_least_as_good(
                #[trigger] g.survivors@[i],
                #[trigger] g.discarded@[j],
                optimum,
            ),
{
    let all = g.survivors@ + g.discarded@;
    let h = g.survivors.len() as int;
    assert forall|i: int, j: int|
        0 <= i < g.survivors.len() && 0 <= j < g.discarded.len() implies at_least_as_good(
        #[trigger] g.survivors@[i],
        #[trigger] g.discarded@[j],
        optimum,
    ) by {
        assert(all[i] == g.survivors@[i]);
        assert(all[h + j] == g.discarded@[j]);
    }
}

/// The mean of a position with itself is that position.
pub proof fn lemma_mean_of_equal(p: int)
    ensures
        mean(p, p) == p,
{
}

/// With a single survivor, every child bred from the survivors sits exactly
/// at the survivor's position.
pub proof fn lemma_lone_survivor(x: int, survivors: Seq<Agent>)
    requires
        survivors.len() == 1,
        bred_from(x, survivors),
    ensures
        x == survivors[0].x,
{
    let (i, j) = choose|i: int, j: int|
        0 <= i < survivors.len() && 0 <= j < survivors.len() && x == mean(
            #[trigger] survivors[i].x as int,
            #[trigger] survivors[j].x as int,
        );
    lemma_mean_of_equal(survivors[0].x as int);
}

} // verus!
