//! The capability an embedding application must provide for its individuals.

use vstd::prelude::*;

verus! {

use crate::chromosome::Chromosome;

/// One member of an evolving population, as the genetic algorithm sees it.
///
/// Concrete individuals are defined by the embedding application, which
/// alone can evaluate them against its environment; the methods therefore
/// carry no contracts, and nothing proved by this library depends on how
/// they behave. The fitness score is a binary32 bit pattern, computed
/// entirely outside the library.
pub trait Individual: Sized {
    /// The externally computed fitness of this individual (binary32 bits).
    fn fitness(&self) -> u32;

    /// The genetic encoding of this individual.
    fn chromosome(&self) -> &Chromosome;

    /// Builds a next-generation individual from a genetic encoding.
    fn create(chromosome: Chromosome) -> Self;
}

} // verus!
