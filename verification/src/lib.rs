//! A generic evolutionary-search engine.
//!
//! A population of candidate solutions ([`chromosome::Chromosome`]) is evolved
//! across generations through selection, crossover and mutation until the
//! user-supplied problem ([`problem::Problem`]) signals termination.  Genomes
//! are sequences of integer-encoded alleles; fitness is a totally ordered
//! signed integer.

pub mod chromosome;
pub mod crossover;
pub mod genetic;
pub mod problem;
mod rng;
pub mod selection;
