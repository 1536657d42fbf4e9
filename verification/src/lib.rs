//! A single-objective genetic-algorithm optimizer over fixed-length gene
//! vectors. Gene values and fitness scores are unsigned integers; a caller
//! that thinks in fractional units picks a scale and works in those units.
//! Lower fitness is better: the engine evolves a population toward a gene
//! vector minimizing the registered fitness function.

pub mod error;
mod rng;
pub mod scorer;
pub mod genome;
pub mod population;
pub mod system;

pub use error::GAError;
pub use genome::Genome;
pub use population::GenomeList;
pub use system::GARun;
pub use scorer::{Scorer, MeanDistance, RATE_SCALE};
