//! Selection: fitness-proportionate (roulette-wheel) choice of a parent.

use vstd::prelude::*;

verus! {

use crate::individual::Individual;
use crate::random::RandomSource;
use crate::single::{
    add_bits, le_bits, lt_bits, sub_bits, is_finite_bits, is_positive_finite_bits,
    lemma_positive_finite_is_finite, add_single, le_single, lt_single, mul_single, sub_single,
    finite_bits, ONE_BITS, ZERO_BITS,
};

/// Bit pattern of `1.0 - 2^-23`, the largest sample of the unit draw:
/// the factor against which the scale of a range is tightened.
pub const MAX_RAND_BITS: u32 = 0x3F7F_FFFE;

/// Why a selection could not be made.
#[derive(Clone, Copy, Debug, PartialEq, Eq, Structural)]
pub enum SelectionError {
    /// The population was empty.
    EmptyPopulation,
    /// Some fitness weight was negative or a NaN.
    InvalidWeight,
    /// All fitness weights summed to zero.
    ZeroTotalWeight,
    /// The summed fitness was not a positive finite value.
    InvalidTotalWeight,
}

/// A weight may take part in selection when it is non-negative (which a NaN
/// never is).
pub open spec fn weight_valid(w: u32) -> bool {
    le_bits(ZERO_BITS, w)
}

/// All weights of the sequence are non-negative.
pub open spec fn all_weights_valid(ws: Seq<u32>) -> bool {
    forall|i: int| 0 <= i < ws.len() ==> weight_valid(ws[i])
}

/// The binary32 sum of the first `n` weights, accumulated left to right.
pub open spec fn running_total(ws: Seq<u32>, n: int) -> u32
    decreases n,
{
    if n <= 1 {
        ws[0]
    } else {
        add_bits(running_total(ws, n - 1), ws[n - 1])
    }
}

/// The binary32 sum of all weights.
pub open spec fn total_weight(ws: Seq<u32>) -> u32 {
    running_total(ws, ws.len() as int)
}

/// The total compares equal to zero (either signed zero).
pub open spec fn total_is_zero(ws: Seq<u32>) -> bool {
    le_bits(total_weight(ws), ZERO_BITS) && le_bits(ZERO_BITS, total_weight(ws))
}

/// The uniform sampler over `[0, total)` rejects its bounds: the total is
/// not finite, not positive, or not finitely separated from zero.
pub open spec fn sampler_rejects(total: u32) -> bool {
    !is_finite_bits(total) || !lt_bits(ZERO_BITS, total) || !is_finite_bits(
        sub_bits(total, ZERO_BITS),
    )
}

/// The error a weighted selection over `ws` must report, if any: an empty
/// sequence, then an invalid weight, then a zero total, then a total the
/// sampler rejects; otherwise selection succeeds.
pub open spec fn selection_failure(ws: Seq<u32>) -> Option<SelectionError> {
    if ws.len() == 0 {
        Some(SelectionError::EmptyPopulation)
    } else if !all_weights_valid(ws) {
        Some(SelectionError::InvalidWeight)
    } else if total_is_zero(ws) {
        Some(SelectionError::ZeroTotalWeight)
    } else if sampler_rejects(total_weight(ws)) {
        Some(SelectionError::InvalidTotalWeight)
    } else {
        None
    }
}

/// Picks an index into `weights` with probability proportional to each
/// weight: cumulative binary32 totals, one uniform draw from the half-open
/// range `[0, total)`, and a binary search for the first strictly greater
/// cumulative total — consuming one 32-bit word, as a weighted choice from
/// the `rand` crate would. Fails exactly as [`selection_failure`] describes,
/// a single-element sequence can only yield index 0, and a single positive
/// finite weight is always selected, whatever the generator produced.
pub fn select_weighted_index<R: RandomSource>(rng: &mut R, weights: &Vec<u32>) -> (r: Result<
    usize,
    SelectionError,
>)
    ensures
        r is Err <==> selection_failure(weights@) is Some,
        r matches Err(e) ==> selection_failure(weights@) == Some(e),
        r matches Ok(i) ==> i < weights@.len() && (weights@.len() == 1 ==> i == 0),
        weights@.len() == 1 && is_positive_finite_bits(weights@[0]) ==> r == Ok::<
            usize,
            SelectionError,
        >(0),
{
    let n = weights.len();
    if n == 0 {
        return Err(SelectionError::EmptyPopulation);
    }
    let mut total = weights[0];
    if !le_single(ZERO_BITS, total) {
        return Err(SelectionError::InvalidWeight);
    }
    let mut cum: Vec<u32> = Vec::new();
    let mut idx: usize = 1;
    while idx < n
        invariant
            1 <= idx <= n,
            n == weights@.len(),
            total == running_total(weights@, idx as int),
            cum@.len() == idx - 1,
            forall|j: int| 0 <= j < idx ==> weight_valid(weights@[j]),
        decreases n - idx,
    {
        let w = weights[idx];
        if !le_single(ZERO_BITS, w) {
            return Err(SelectionError::InvalidWeight);
        }
        cum.push(total);
        total = add_single(total, w);
        idx += 1;
    }
    proof {
        if weights@.len() == 1 && is_positive_finite_bits(weights@[0]) {
            assert(total == weights@[0]);
            lemma_positive_finite_is_finite(weights@[0]);
        }
    }
    if le_single(total, ZERO_BITS) && le_single(ZERO_BITS, total) {
        return Err(SelectionError::ZeroTotalWeight);
    }
    if !finite_bits(total) {
        return Err(SelectionError::InvalidTotalWeight);
    }
    if !lt_single(ZERO_BITS, total) {
        return Err(SelectionError::InvalidTotalWeight);
    }
    let mut scale = sub_single(total, ZERO_BITS);
    if !finite_bits(scale) {
        return Err(SelectionError::InvalidTotalWeight);
    }
    // Tighten the scale until rounding can no longer carry a sample past the
    // total; each step moves to the adjacent smaller bit pattern.
    loop
        decreases scale,
    {
        let cand = add_single(mul_single(scale, MAX_RAND_BITS), ZERO_BITS);
        if !lt_single(total, cand) {
            break ;
        }
        if scale == 0 {
            // unreachable for actual binary32 arithmetic: a zero scale
            // cannot place a sample above a positive total
            break ;
        }
        scale = scale - 1;
    }
    let w = rng.next_u32();
    let value = (w >> 9) | 0x3F80_0000;
    let chosen = add_single(mul_single(sub_single(value, ONE_BITS), scale), ZERO_BITS);
    // The first cumulative total strictly above the chosen value marks the
    // selected index.
    let m = cum.len();
    if m == 0 {
        return Ok(0);
    }
    let mut size = m;
    let mut base: usize = 0;
    while size > 1
        invariant
            1 <= size,
            base + size <= m,
            m == cum@.len(),
        decreases size,
    {
        let half = size / 2;
        let mid = base + half;
        if le_single(cum[mid], chosen) {
            base = mid;
        }
        size -= half;
    }
    let sel = if le_single(cum[base], chosen) {
        base + 1
    } else {
        base
    };
    Ok(sel)
}

/// A strategy for picking one individual out of a population, weighted by
/// fitness. Success always hands back a reference into the population; an
/// empty population always fails. `select_post` is the strategy's own
/// guarantee about the outcome, over the population's size and the error
/// reported, if any — fitness values themselves are behind the
/// uncontracted [`Individual`] trait and cannot appear here.
pub trait SelectionMethod {
    /// What this strategy guarantees of a selection outcome.
    spec fn select_post(&self, population_len: int, failure: Option<SelectionError>) -> bool;

    /// Picks a parent from the population.
    fn select<'a, I: Individual, R: RandomSource>(
        &self,
        rng: &mut R,
        population: &'a Vec<I>,
    ) -> (r: Result<&'a I, SelectionError>)
        ensures
            population@.len() == 0 ==> r is Err,
            r matches Ok(ind) ==> exists|i: int| 0 <= i < population@.len() && ind == population@[i],
            self.select_post(
                population@.len() as int,
                if r is Err {
                    Some(r->Err_0)
                } else {
                    None
                },
            ),
    ;
}

/// Roulette-wheel selection: each individual is chosen with probability
/// proportional to its fitness, independently on every call.
pub struct RouletteWheelSelection;

impl SelectionMethod for RouletteWheelSelection {
    /// An empty population reports exactly the empty-population error.
    open spec fn select_post(&self, population_len: int, failure: Option<SelectionError>) -> bool {
        population_len == 0 ==> failure == Some(SelectionError::EmptyPopulation)
    }

    fn select<'a, I: Individual, R: RandomSource>(
        &self,
        rng: &mut R,
        population: &'a Vec<I>,
    ) -> (r: Result<&'a I, SelectionError>) {
        let n = population.len();
        let mut ws: Vec<u32> = Vec::new();
        let mut i: usize = 0;
        while i < n
            invariant
                i <= n,
                n == population@.len(),
                ws@.len() == i,
            decreases n - i,
        {
            ws.push(population[i].fitness());
            i += 1;
        }
        match select_weighted_index(rng, &ws) {
            Ok(idx) => Ok(&population[idx]),
            Err(e) => Err(e),
        }
    }
}

} // verus!
