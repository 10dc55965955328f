//! Mutation: probabilistic in-place perturbation of a chromosome's genes.

use vstd::prelude::*;

verus! {

use crate::chromosome::Chromosome;
use crate::random::{
    bernoulli, coin, is_probability_bits, sample_unit, RandomSource, UNIT_SCALE_BITS,
};
use crate::single::{
    add_bits, mul_bits, of_u32_bits, add_single, mul_single, NEG_ONE_BITS, NEG_ZERO_BITS,
    ONE_BITS, ZERO_BITS,
};

/// A strategy for perturbing a chromosome in place. `mutate_post` is the
/// strategy's own guarantee relating the genes before and after.
pub trait MutationMethod {
    /// What this strategy guarantees of the mutated genes.
    spec fn mutate_post(&self, old_genes: Seq<u32>, new_genes: Seq<u32>) -> bool;

    /// Perturbs the chromosome in place; the length never changes.
    fn mutate<R: RandomSource>(&self, rng: &mut R, child: &mut Chromosome)
        ensures
            final(child)@.len() == old(child)@.len(),
            self.mutate_post(old(child)@, final(child)@),
    ;
}

/// Whether `r` is `g` displaced by `sign * coeff * magnitude`, for some sign
/// in `{-1.0, +1.0}` and some magnitude drawn uniformly from `[0, 1)`
/// (a 24-bit word scaled by `2^-24`), in binary32 arithmetic.
pub open spec fn is_perturbed(g: u32, coeff: u32, r: u32) -> bool {
    exists|s: u32, k: u32|
        (s == ONE_BITS || s == NEG_ONE_BITS) && k < 0x100_0000 && r == add_bits(
            g,
            mul_bits(mul_bits(s, coeff), mul_bits(UNIT_SCALE_BITS, of_u32_bits(k))),
        )
}

/// Gaussian-style mutation: every gene is visited; independently with
/// probability `chance` it is displaced by `sign * coeff * magnitude`, where
/// `sign` is a fair coin over `{-1.0, +1.0}` and `magnitude` is uniform in
/// `[0, 1)`.
#[derive(Clone, Copy, Debug)]
pub struct GaussianMutation {
    /// Probability, in `[0.0, 1.0]`, of perturbing each gene (binary32 bits).
    chance: u32,
    /// Magnitude coefficient of a perturbation (binary32 bits).
    coeff: u32,
}

impl GaussianMutation {
    #[verifier::type_invariant]
    spec fn wf(self) -> bool {
        is_probability_bits(self.chance)
    }

    /// The configured mutation probability (binary32 bits).
    pub closed spec fn chance_bits(&self) -> u32 {
        self.chance
    }

    /// The configured magnitude coefficient (binary32 bits).
    pub closed spec fn coeff_bits(&self) -> u32 {
        self.coeff
    }

    /// Configures a mutation operator. The chance must encode a probability:
    /// a binary32 value in `[0.0, 1.0]`.
    pub fn new(chance: u32, coeff: u32) -> (r: GaussianMutation)
        requires
            is_probability_bits(chance),
        ensures
            r.chance_bits() == chance,
            r.coeff_bits() == coeff,
    {
        GaussianMutation { chance, coeff }
    }
}

impl MutationMethod for GaussianMutation {
    /// A zero chance leaves the chromosome unchanged; in general every gene
    /// is either untouched or displaced as [`is_perturbed`] describes; a
    /// chance of one displaces every gene (the stored bits may still come
    /// out unchanged when the perturbation rounds away, but each gene is the
    /// binary32 sum of its old value and a drawn displacement).
    open spec fn mutate_post(&self, old_genes: Seq<u32>, new_genes: Seq<u32>) -> bool {
        &&& (self.chance_bits() == ZERO_BITS || self.chance_bits() == NEG_ZERO_BITS
            ==> new_genes == old_genes)
        &&& forall|i: int|
            0 <= i < new_genes.len() ==> new_genes[i] == old_genes[i] || is_perturbed(
                old_genes[i],
                self.coeff_bits(),
                new_genes[i],
            )
        &&& (self.chance_bits() == ONE_BITS ==> forall|i: int|
            0 <= i < new_genes.len() ==> is_perturbed(
                old_genes[i],
                self.coeff_bits(),
                new_genes[i],
            ))
    }

    fn mutate<R: RandomSource>(&self, rng: &mut R, child: &mut Chromosome) {
        proof {
            use_type_invariant(self);
        }
        let zero_chance = self.chance == ZERO_BITS || self.chance == NEG_ZERO_BITS;
        let n = child.len();
        let mut i: usize = 0;
        while i < n
            invariant
                i <= n,
                n == old(child)@.len(),
                child@.len() == n,
                is_probability_bits(self.chance),
                zero_chance == (self.chance_bits() == ZERO_BITS || self.chance_bits()
                    == NEG_ZERO_BITS),
                forall|j: int| i <= j < n ==> child@[j] == old(child)@[j],
                forall|j: int|
                    0 <= j < i ==> child@[j] == old(child)@[j] || (!zero_chance && is_perturbed(
                        old(child)@[j],
                        self.coeff_bits(),
                        child@[j],
                    )),
                self.chance_bits() == ONE_BITS ==> forall|j: int|
                    0 <= j < i ==> is_perturbed(old(child)@[j], self.coeff_bits(), child@[j]),
            decreases n - i,
        {
            let sign = if coin(rng) {
                NEG_ONE_BITS
            } else {
                ONE_BITS
            };
            if bernoulli(rng, self.chance) {
                let m = sample_unit(rng);
                let delta = mul_single(mul_single(sign, self.coeff), m);
                let g = add_single(child.gene(i), delta);
                proof {
                    let k = choose|k: u32|
                        k < 0x100_0000 && m == mul_bits(UNIT_SCALE_BITS, of_u32_bits(k));
                    assert((sign == ONE_BITS || sign == NEG_ONE_BITS) && k < 0x100_0000 && g
                        == add_bits(
                        child@[i as int],
                        mul_bits(mul_bits(sign, self.coeff), mul_bits(
                            UNIT_SCALE_BITS,
                            of_u32_bits(k),
                        )),
                    ));
                }
                child.set_gene(i, g);
            }
            i += 1;
        }
        proof {
            if self.chance_bits() == ZERO_BITS || self.chance_bits() == NEG_ZERO_BITS {
                assert(child@ =~= old(child)@);
            }
        }
    }
}

} // verus!
