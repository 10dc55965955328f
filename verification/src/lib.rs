//! Neuroevolution: feed-forward networks evolved by a genetic algorithm.
//!
//! The library evolves populations of fixed-topology feed-forward neural
//! networks through fitness-proportionate selection, uniform crossover and
//! Gaussian mutation, instead of gradient descent. Weights, biases and genes
//! are IEEE 754 binary32 values, carried everywhere as their raw bit
//! patterns (`u32`): the structural logic is fully verified, while the
//! arithmetic itself is delegated to a software implementation of IEEE 754
//! behind a handful of trusted wrappers.

pub mod algorithm;
pub mod chromosome;
pub mod codec;
pub mod crossover;
pub mod individual;
pub mod mutation;
pub mod network;
pub mod random;
pub mod selection;
pub mod single;

pub use algorithm::{EvolveError, GeneticAlgorithm};
pub use chromosome::Chromosome;
pub use crossover::{CrossoverMethod, UniformCrossover};
pub use individual::Individual;
pub use mutation::{GaussianMutation, MutationMethod};
pub use network::{check_topology, DecodeError, Layer, LayerTopology, Network, Neuron, PropagateError, TopologyError};
pub use random::RandomSource;
pub use selection::{RouletteWheelSelection, SelectionError, SelectionMethod};
