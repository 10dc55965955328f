//! The flat genetic encoding: an ordered sequence of binary32 genes.

use vstd::prelude::*;

verus! {

/// A flat ordered sequence of genes (binary32 bit patterns): the universal
/// interchange format between a structured network and the genetic
/// operators. Its mathematical view is the sequence of its genes.
#[derive(Clone, Debug)]
pub struct Chromosome {
    genes: Vec<u32>,
}

impl View for Chromosome {
    type V = Seq<u32>;

    closed spec fn view(&self) -> Seq<u32> {
        self.genes@
    }
}

impl Chromosome {
    /// Builds a chromosome from a finite sequence of genes.
    pub fn from_genes(genes: Vec<u32>) -> (c: Chromosome)
        ensures
            c@ == genes@,
    {
        Chromosome { genes }
    }

    /// Number of genes.
    pub fn len(&self) -> (n: usize)
        ensures
            n == self@.len(),
    {
        self.genes.len()
    }

    /// Reads the gene at `index`.
    pub fn gene(&self, index: usize) -> (g: u32)
        requires
            index < self@.len(),
        ensures
            g == self@[index as int],
    {
        self.genes[index]
    }

    /// The genes in order.
    pub fn genes(&self) -> (r: &Vec<u32>)
        ensures
            r@ == self@,
    {
        &self.genes
    }

    /// Replaces the gene at `index`.
    pub fn set_gene(&mut self, index: usize, gene: u32)
        requires
            index < old(self)@.len(),
        ensures
            final(self)@ == old(self)@.update(index as int, gene),
    {
        self.genes.set(index, gene);
    }
}

} // verus!
