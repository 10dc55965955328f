use std::collections::BTreeMap;

use neuroevolution::{
    Chromosome, CrossoverMethod, EvolveError, GaussianMutation, GeneticAlgorithm, Individual,
    MutationMethod, RandomSource, RouletteWheelSelection, SelectionError, SelectionMethod,
    UniformCrossover,
};
use rand::Rng;
use rand_chacha::rand_core::{RngCore, SeedableRng};
use rand_chacha::ChaCha20Rng;

struct ChaChaSource(ChaCha20Rng);

impl ChaChaSource {
    fn zero_seeded() -> Self {
        ChaChaSource(ChaCha20Rng::from_seed(Default::default()))
    }
}

impl RandomSource for ChaChaSource {
    fn next_u32(&mut self) -> u32 {
        self.0.next_u32()
    }

    fn next_u64(&mut self) -> u64 {
        self.0.next_u64()
    }
}

#[derive(Clone, Debug)]
struct TestIndividual {
    fitness: u32,
    chromosome: Chromosome,
}

impl TestIndividual {
    fn new(fitness: f32) -> Self {
        Self { fitness: fitness.to_bits(), chromosome: Chromosome::from_genes(vec![]) }
    }

    fn with_chromosome(fitness: f32, genes: Vec<f32>) -> Self {
        Self {
            fitness: fitness.to_bits(),
            chromosome: Chromosome::from_genes(genes.into_iter().map(f32::to_bits).collect()),
        }
    }
}

impl Individual for TestIndividual {
    fn fitness(&self) -> u32 {
        self.fitness
    }

    fn chromosome(&self) -> &Chromosome {
        &self.chromosome
    }

    fn create(chromosome: Chromosome) -> Self {
        Self { fitness: 0.0f32.to_bits(), chromosome }
    }
}

fn chromosome_of(values: &[f32]) -> Chromosome {
    Chromosome::from_genes(values.iter().map(|v| v.to_bits()).collect())
}

fn values_of(c: &Chromosome) -> Vec<f32> {
    c.genes().iter().map(|b| f32::from_bits(*b)).collect()
}

#[test]
fn roulette_wheel_selection() {
    let mut rng = ChaChaSource::zero_seeded();

    let population = vec![
        TestIndividual::new(2.0),
        TestIndividual::new(1.0),
        TestIndividual::new(4.0),
        TestIndividual::new(3.0),
    ];

    let mut actual_histogram = BTreeMap::new();

    for _ in 0..1000 {
        let fitness =
            f32::from_bits(RouletteWheelSelection.select(&mut rng, &population).unwrap().fitness())
                as i32;

        *actual_histogram.entry(fitness).or_insert(0) += 1;
    }

    let expected_histogram = BTreeMap::from([(1, 98), (2, 196), (3, 304), (4, 402)]);

    assert_eq!(actual_histogram, expected_histogram);
}

#[test]
fn selection_from_single_individual_population_returns_it() {
    let mut rng = ChaChaSource::zero_seeded();
    let population = vec![TestIndividual::new(7.5)];

    for _ in 0..10 {
        let chosen = RouletteWheelSelection.select(&mut rng, &population).unwrap();
        assert_eq!(chosen.fitness(), 7.5f32.to_bits());
    }
}

#[test]
fn selection_from_empty_population_fails() {
    let mut rng = ChaChaSource::zero_seeded();
    let population: Vec<TestIndividual> = vec![];

    let err = RouletteWheelSelection.select(&mut rng, &population).unwrap_err();
    assert_eq!(err, SelectionError::EmptyPopulation);
}

#[test]
fn selection_with_negative_fitness_fails() {
    let mut rng = ChaChaSource::zero_seeded();
    let population = vec![TestIndividual::new(1.0), TestIndividual::new(-2.0)];

    let err = RouletteWheelSelection.select(&mut rng, &population).unwrap_err();
    assert_eq!(err, SelectionError::InvalidWeight);
}

#[test]
fn selection_with_nan_fitness_fails() {
    let mut rng = ChaChaSource::zero_seeded();
    let population = vec![TestIndividual::new(1.0), TestIndividual::new(f32::NAN)];

    let err = RouletteWheelSelection.select(&mut rng, &population).unwrap_err();
    assert_eq!(err, SelectionError::InvalidWeight);
}

#[test]
fn selection_with_all_zero_fitness_fails() {
    let mut rng = ChaChaSource::zero_seeded();
    let population = vec![TestIndividual::new(0.0), TestIndividual::new(0.0)];

    let err = RouletteWheelSelection.select(&mut rng, &population).unwrap_err();
    assert_eq!(err, SelectionError::ZeroTotalWeight);
}

#[test]
fn selection_with_infinite_total_fitness_fails() {
    let mut rng = ChaChaSource::zero_seeded();
    let population = vec![TestIndividual::new(1.0), TestIndividual::new(f32::INFINITY)];

    let err = RouletteWheelSelection.select(&mut rng, &population).unwrap_err();
    assert_eq!(err, SelectionError::InvalidTotalWeight);
}

#[test]
fn uniform_crossover() {
    let mut rng = ChaChaSource::zero_seeded();

    let parent_a = chromosome_of(&(1..=100).map(|n| n as f32).collect::<Vec<f32>>());
    let parent_b = chromosome_of(&(1..=100).map(|n| -(n as f32)).collect::<Vec<f32>>());

    let child = UniformCrossover.crossover(&mut rng, &parent_a, &parent_b);

    let mut diff_a = 0;
    let mut diff_b = 0;
    for i in 0..child.len() {
        if child.gene(i) != parent_a.gene(i) {
            diff_a += 1;
        }
        if child.gene(i) != parent_b.gene(i) {
            diff_b += 1;
        }
    }

    assert_eq!(diff_a, 40);
    assert_eq!(diff_b, 60);
}

#[test]
fn uniform_crossover_takes_every_gene_from_a_parent() {
    let mut rng = ChaChaSource::zero_seeded();

    let parent_a = chromosome_of(&[1.0, 2.0, 3.0, 4.0, 5.0]);
    let parent_b = chromosome_of(&[10.0, 20.0, 30.0, 40.0, 50.0]);

    let child = UniformCrossover.crossover(&mut rng, &parent_a, &parent_b);

    assert_eq!(child.len(), 5);
    for i in 0..child.len() {
        let g = child.gene(i);
        assert!(g == parent_a.gene(i) || g == parent_b.gene(i));
    }
}

/// Runs the library's mutation on `[1, 2, 3, 4, 5]` with a zero-seeded
/// generator and hands back the mutated values.
fn actual(chance: f32, coeff: f32) -> Vec<f32> {
    let mut rng = ChaChaSource::zero_seeded();
    let mut child = chromosome_of(&[1.0, 2.0, 3.0, 4.0, 5.0]);

    GaussianMutation::new(chance.to_bits(), coeff.to_bits()).mutate(&mut rng, &mut child);

    values_of(&child)
}

/// The same mutation computed directly with the `rand` crate's samplers on
/// hardware floats, from the same seed: the library must match it exactly.
fn mutated_by_rand(chance: f32, coeff: f32) -> Vec<f32> {
    let mut rng = ChaCha20Rng::from_seed(Default::default());
    let mut genes = vec![1.0f32, 2.0, 3.0, 4.0, 5.0];
    for gene in genes.iter_mut() {
        let sign: f32 = if rng.random_bool(0.5) { -1.0 } else { 1.0 };
        if rng.random_bool(chance as f64) {
            *gene += sign * coeff * rng.random::<f32>();
        }
    }
    genes
}

#[test]
fn does_not_change_the_original_chromosome() {
    // zero chance, zero coefficient
    let actual = actual(0.0, 0.0);
    let expected = vec![1.0, 2.0, 3.0, 4.0, 5.0];

    assert_eq!(actual, expected);
}

#[test]
fn zero_chance_and_nonzero_coefficient_does_not_change_the_original_chromosome() {
    let actual = actual(0.0, 0.5);
    let expected = vec![1.0, 2.0, 3.0, 4.0, 5.0];

    assert_eq!(actual, expected);
}

#[test]
fn lib_does_not_change_the_original_chromosome() {
    // fifty-fifty chance, zero coefficient
    let actual = actual(0.5, 0.0);
    let expected = vec![1.0, 2.0, 3.0, 4.0, 5.0];

    assert_eq!(actual, expected);
}

#[test]
fn slightly_changes_the_original_chromosome() {
    let actual = actual(0.5, 0.5);
    let original = vec![1.0, 2.0, 3.0, 4.0, 5.0];

    assert_eq!(actual, mutated_by_rand(0.5, 0.5));

    let changed = actual.iter().zip(&original).filter(|(a, o)| a != o).count();
    assert!(changed > 0);
    assert!(changed < original.len());
}

#[test]
fn max_chance_and_zero_coefficient_does_not_change_the_original_chromosome() {
    let actual = actual(1.0, 0.0);
    let expected = vec![1.0, 2.0, 3.0, 4.0, 5.0];

    assert_eq!(actual, expected);
}

#[test]
fn entirely_changes_the_original_chromosome() {
    let actual = actual(1.0, 0.5);
    let original = vec![1.0, 2.0, 3.0, 4.0, 5.0];

    assert_eq!(actual, mutated_by_rand(1.0, 0.5));

    for (a, o) in actual.iter().zip(&original) {
        assert_ne!(a, o);
    }
}

#[test]
fn mutation_matches_the_rand_stream_for_other_chances() {
    for &(chance, coeff) in &[(0.25f32, 1.5f32), (0.8, 3.0), (0.1, 0.5), (0.9999, 2.0)] {
        assert_eq!(actual(chance, coeff), mutated_by_rand(chance, coeff));
    }
}

#[test]
fn evolve_keeps_the_population_size() {
    let mut rng = ChaChaSource::zero_seeded();

    let population = vec![
        TestIndividual::with_chromosome(2.0, vec![1.0, 2.0, 3.0]),
        TestIndividual::with_chromosome(1.0, vec![4.0, 5.0, 6.0]),
        TestIndividual::with_chromosome(4.0, vec![7.0, 8.0, 9.0]),
        TestIndividual::with_chromosome(3.0, vec![10.0, 11.0, 12.0]),
    ];

    let algorithm = GeneticAlgorithm::new(
        RouletteWheelSelection,
        UniformCrossover,
        GaussianMutation::new(0.5f32.to_bits(), 0.5f32.to_bits()),
    );

    for _ in 0..5 {
        let next = algorithm.evolve(&mut rng, &population).unwrap();
        assert_eq!(next.len(), population.len());
    }
}

#[test]
fn evolve_is_reproducible_from_the_same_seed() {
    let population = vec![
        TestIndividual::with_chromosome(2.0, vec![1.0, 2.0, 3.0]),
        TestIndividual::with_chromosome(1.0, vec![4.0, 5.0, 6.0]),
        TestIndividual::with_chromosome(4.0, vec![7.0, 8.0, 9.0]),
    ];

    let algorithm = GeneticAlgorithm::new(
        RouletteWheelSelection,
        UniformCrossover,
        GaussianMutation::new(0.5f32.to_bits(), 3.0f32.to_bits()),
    );

    let mut rng_one = ChaChaSource::zero_seeded();
    let mut rng_two = ChaChaSource::zero_seeded();

    let next_one = algorithm.evolve(&mut rng_one, &population).unwrap();
    let next_two = algorithm.evolve(&mut rng_two, &population).unwrap();

    for (a, b) in next_one.iter().zip(&next_two) {
        assert_eq!(a.chromosome().genes(), b.chromosome().genes());
    }
}

#[test]
fn evolve_rejects_parents_of_different_lengths() {
    let mut rng = ChaChaSource::zero_seeded();

    let population = vec![
        TestIndividual::with_chromosome(1.0, vec![1.0, 2.0]),
        TestIndividual::with_chromosome(1.0, vec![1.0, 2.0, 3.0]),
    ];

    let algorithm = GeneticAlgorithm::new(
        RouletteWheelSelection,
        UniformCrossover,
        GaussianMutation::new(0.0f32.to_bits(), 0.0f32.to_bits()),
    );

    let mut saw_mismatch = false;
    for _ in 0..20 {
        match algorithm.evolve(&mut rng, &population) {
            Err(EvolveError::MismatchedParents) => {
                saw_mismatch = true;
                break;
            }
            Err(other) => panic!("unexpected evolve error: {:?}", other),
            Ok(_) => {}
        }
    }
    assert!(saw_mismatch);
}

#[test]
fn evolve_propagates_selection_errors() {
    let mut rng = ChaChaSource::zero_seeded();

    let population = vec![TestIndividual::with_chromosome(-1.0, vec![1.0])];

    let algorithm = GeneticAlgorithm::new(
        RouletteWheelSelection,
        UniformCrossover,
        GaussianMutation::new(0.0f32.to_bits(), 0.0f32.to_bits()),
    );

    let err = algorithm.evolve(&mut rng, &population).unwrap_err();
    assert_eq!(err, EvolveError::Selection(SelectionError::InvalidWeight));
}

#[test]
fn chromosome_round_trips_through_its_genes() {
    let c = chromosome_of(&[0.5, -1.25, 3.75]);
    assert_eq!(c.len(), 3);
    assert_eq!(f32::from_bits(c.gene(0)), 0.5);
    assert_eq!(f32::from_bits(c.gene(1)), -1.25);
    assert_eq!(f32::from_bits(c.gene(2)), 3.75);
    assert_eq!(values_of(&c), vec![0.5, -1.25, 3.75]);
}
