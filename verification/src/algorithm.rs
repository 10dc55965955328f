//! The genetic algorithm: one full generation step.

use vstd::prelude::*;

verus! {

use crate::crossover::CrossoverMethod;
use crate::individual::Individual;
use crate::mutation::MutationMethod;
use crate::random::RandomSource;
use crate::selection::{SelectionError, SelectionMethod};

/// Why a generation could not be completed.
#[derive(Clone, Copy, Debug, PartialEq, Eq, Structural)]
pub enum EvolveError {
    /// Picking a parent failed.
    Selection(SelectionError),
    /// Two selected parents carried chromosomes of different lengths, which
    /// crossover cannot combine.
    MismatchedParents,
}

/// The orchestrator of one generation: parameterized over the selection,
/// crossover and mutation strategies, so each is swappable without touching
/// the stepping logic. It keeps no state across generations.
pub struct GeneticAlgorithm<S, C, M> {
    selection_method: S,
    crossover_method: C,
    mutation_method: M,
}

impl<S: SelectionMethod, C: CrossoverMethod, M: MutationMethod> GeneticAlgorithm<S, C, M> {
    /// The selection strategy this algorithm was assembled with.
    pub closed spec fn selection(&self) -> S {
        self.selection_method
    }

    /// The crossover strategy this algorithm was assembled with.
    pub closed spec fn crossover(&self) -> C {
        self.crossover_method
    }

    /// The mutation strategy this algorithm was assembled with.
    pub closed spec fn mutation(&self) -> M {
        self.mutation_method
    }

    /// Assembles an algorithm from its three strategies.
    pub fn new(selection_method: S, crossover_method: C, mutation_method: M) -> (r: Self)
        ensures
            r.selection() == selection_method,
            r.crossover() == crossover_method,
            r.mutation() == mutation_method,
    {
        GeneticAlgorithm { selection_method, crossover_method, mutation_method }
    }

    /// Advances one generation: for every slot of the next population,
    /// selects two parents (independently, with replacement), breeds a child
    /// chromosome by crossover, mutates it in place, and hands it to the
    /// individual constructor. The next population has exactly the size of
    /// the current one; on any failure no partial population is returned.
    pub fn evolve<I: Individual, R: RandomSource>(&self, rng: &mut R, population: &Vec<I>) -> (r:
        Result<Vec<I>, EvolveError>)
        requires
            population@.len() > 0,
        ensures
            r matches Ok(next) ==> next@.len() == population@.len(),
    {
        let n = population.len();
        let mut next: Vec<I> = Vec::new();
        let mut i: usize = 0;
        while i < n
            invariant
                i <= n,
                n == population@.len(),
                next@.len() == i,
            decreases n - i,
        {
            let parent_a = match self.selection_method.select(rng, population) {
                Ok(p) => p,
                Err(e) => { return Err(EvolveError::Selection(e)) },
            };
            let parent_b = match self.selection_method.select(rng, population) {
                Ok(p) => p,
                Err(e) => { return Err(EvolveError::Selection(e)) },
            };
            let chromosome_a = parent_a.chromosome();
            let chromosome_b = parent_b.chromosome();
            if chromosome_a.len() != chromosome_b.len() {
                return Err(EvolveError::MismatchedParents);
            }
            let mut child = self.crossover_method.crossover(rng, chromosome_a, chromosome_b);
            self.mutation_method.mutate(rng, &mut child);
            next.push(I::create(child));
            i += 1;
        }
        Ok(next)
    }
}

} // verus!
