//! Generational evolutionary search for an extremum of a one-dimensional
//! function: truncation selection, averaging crossover, additive mutation.
//!
//! Positions are fixed-point numbers held as `i64` (the caller picks the
//! unit); a fitness is an `i64` key whose order is the order of the
//! objective's values.
use vstd::prelude::*;

pub mod agent;
pub mod entropy;
pub mod engine;

pub use agent::{Agent, Chance, GenerationData, Optimum};
pub use engine::{Config, EvolutionError, run_simulation};
pub use entropy::{Entropy, Replay, ThreadEntropy};

verus! {

} // verus!
