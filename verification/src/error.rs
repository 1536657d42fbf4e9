use vstd::prelude::*;

verus! {

/// The ways a caller can misconfigure the engine. Every fallible entry point
/// says in its contract exactly which inputs produce which variant.
#[derive(Debug, Clone, Copy, PartialEq, Eq, Structural)]
pub enum GAError {
    /// A genome or a population was asked for before any fitness function
    /// was registered.
    MissingFitnessFunction,
    /// The crossover selector is outside the accepted set: a positive block
    /// width, zero for uniform choice, or minus one for the componentwise
    /// average.
    InvalidCrossoverType,
    /// More parent pairs were requested than the population has members.
    PairCountExceedsPopulation,
}

} // verus!
