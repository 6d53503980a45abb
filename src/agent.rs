use vstd::prelude::*;

use crate::entropy::Entropy;

verus! {

/// Whether the search looks for the largest or the smallest value.
#[derive(Clone, Copy, Debug, PartialEq, Eq, Structural)]
pub enum Optimum {
    Minimum,
    Maximum,
}

/// One candidate solution: a position and, once evaluated, its fitness key.
#[derive(Clone, Copy, Debug, PartialEq, Eq)]
pub struct Agent {
    pub x: i64,
    pub y: Option<i64>,
}

/// A probability as `numerator / denominator`.
#[derive(Clone, Copy, Debug, PartialEq, Eq)]
pub struct Chance {
    pub numerator: u32,
    pub denominator: u32,
}

impl Chance {
    /// A probability lies in `[0, 1]` and has a nonzero denominator.
    pub open spec fn valid(self) -> bool {
        0 < self.denominator && self.numerator <= self.denominator
    }
}

/// `v` brought into the range of `i64`.
pub open spec fn clamp(v: int) -> int {
    if v > i64::MAX {
        i64::MAX as int
    } else if v < i64::MIN {
        i64::MIN as int
    } else {
        v
    }
}

/// The positions that one mutation step may lead to from `x`.
pub open spec fn mutation_of(x: int, strangeness: int, r: int) -> bool {
    r == x || r == clamp(x + strangeness) || r == clamp(x - strangeness)
}

/// `x + d` (or `x - d` when `up` is false), saturating at the bounds of `i64`.
fn shift(x: i64, d: i64, up: bool) -> (r: i64)
    ensures
        r == (if up { clamp(x + d) } else { clamp(x - d) }),
{
    let s: i128 = if up { x as i128 + d as i128 } else { x as i128 - d as i128 };
    if s > i64::MAX as i128 {
        i64::MAX
    } else if s < i64::MIN as i128 {
        i64::MIN
    } else {
        s as i64
    }
}

impl Agent {
    pub fn new(x: i64) -> (r: Agent)
        ensures
            r.x == x,
            r.y is None,
    {
        Agent { x, y: None }
    }

    /// One mutation step with its draws given: when `fire` holds, moves the
    /// position by `+strangeness` (`up`) or `-strangeness` (otherwise),
    /// saturating at the bounds of `i64`. The fitness is cleared either way.
    pub fn apply_mutation(&mut self, strangeness: i64, fire: bool, up: bool)
        ensures
            final(self).y is None,
            final(self).x == (if !fire {
                old(self).x as int
            } else if up {
                clamp(old(self).x + strangeness)
            } else {
                clamp(old(self).x - strangeness)
            }),
    {
        if fire {
            self.x = shift(self.x, strangeness, up);
        }
        self.y = None;
    }

    /// With probability `chance`, moves the position by `+strangeness` or
    /// `-strangeness`, each equally likely (see `apply_mutation`). The fitness
    /// is cleared: it must be computed again before the agent is ranked.
    pub fn mutate<R: Entropy>(&mut self, strangeness: i64, chance: Chance, rng: &mut R)
        requires
            chance.valid(),
        ensures
            final(self).y is None,
            mutation_of(old(self).x as int, strangeness as int, final(self).x as int),
            chance.numerator == 0 ==> final(self).x == old(self).x,
            chance.numerator == chance.denominator ==> final(self).x == clamp(
                old(self).x + strangeness,
            ) || final(self).x == clamp(old(self).x - strangeness),
    {
        let fire = rng.ratio(chance.numerator, chance.denominator);
        let up = if fire { rng.ratio(1, 2) } else { false };
        self.apply_mutation(strangeness, fire, up);
    }

    /// Sets the fitness to the objective's value at the position.
    pub fn calculate<F: Fn(i64) -> Option<i64>>(&mut self, fun: &F)
        requires
            fun.requires((old(self).x,)),
        ensures
            final(self).x == old(self).x,
            fun.ensures((old(self).x,), final(self).y),
    {
        self.y = fun(self.x);
    }
}

/// What one generation recorded: the better half of the ranked population
/// and the rest, each in ranked order.
#[derive(Clone, Debug, PartialEq, Eq)]
pub struct GenerationData {
    pub survivors: Vec<Agent>,
    pub discarded: Vec<Agent>,
}

} // verus!
