//! Crossover: combining two parent chromosomes into one child.

use vstd::prelude::*;

verus! {

use crate::chromosome::Chromosome;
use crate::random::{coin, RandomSource};

/// A strategy for combining two equal-length parent chromosomes into a child
/// of the same length. `crossover_post` is the strategy's own guarantee
/// about the child, over the views of the three chromosomes.
pub trait CrossoverMethod {
    /// What this strategy guarantees of a child bred from `a` and `b`.
    spec fn crossover_post(&self, a: Seq<u32>, b: Seq<u32>, child: Seq<u32>) -> bool;

    /// Breeds a child from two parents of equal length.
    fn crossover<R: RandomSource>(
        &self,
        rng: &mut R,
        parent_a: &Chromosome,
        parent_b: &Chromosome,
    ) -> (child: Chromosome)
        requires
            parent_a@.len() == parent_b@.len(),
        ensures
            child@.len() == parent_a@.len(),
            self.crossover_post(parent_a@, parent_b@, child@),
    ;
}

/// Uniform crossover: each gene is taken from one parent or the other by an
/// independent fair coin, with no positional correlation between genes.
#[derive(Clone, Debug)]
pub struct UniformCrossover;

impl CrossoverMethod for UniformCrossover {
    /// Every gene of the child comes from the same position of one of the
    /// two parents.
    open spec fn crossover_post(&self, a: Seq<u32>, b: Seq<u32>, child: Seq<u32>) -> bool {
        forall|i: int| 0 <= i < child.len() ==> child[i] == a[i] || child[i] == b[i]
    }

    fn crossover<R: RandomSource>(
        &self,
        rng: &mut R,
        parent_a: &Chromosome,
        parent_b: &Chromosome,
    ) -> (child: Chromosome) {
        let n = parent_a.len();
        let mut genes: Vec<u32> = Vec::new();
        let mut i: usize = 0;
        while i < n
            invariant
                i <= n,
                n == parent_a@.len(),
                n == parent_b@.len(),
                genes@.len() == i,
                forall|j: int|
                    0 <= j < i ==> genes@[j] == parent_a@[j] || genes@[j] == parent_b@[j],
            decreases n - i,
        {
            let g = if coin(rng) {
                parent_a.gene(i)
            } else {
                parent_b.gene(i)
            };
            genes.push(g);
            i += 1;
        }
        Chromosome::from_genes(genes)
    }
}

} // verus!
