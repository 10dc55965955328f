use neuroevolution::{
    DecodeError, Layer, LayerTopology, Network, Neuron, RandomSource, TopologyError,
};
use rand::Rng;
use rand_chacha::rand_core::{RngCore, SeedableRng};
use rand_chacha::ChaCha20Rng;

struct ChaChaSource(ChaCha20Rng);

impl ChaChaSource {
    fn zero_seeded() -> Self {
        ChaChaSource(ChaCha20Rng::from_seed(Default::default()))
    }
}

impl RandomSource for ChaChaSource {
    fn next_u32(&mut self) -> u32 {
        self.0.next_u32()
    }

    fn next_u64(&mut self) -> u64 {
        self.0.next_u64()
    }
}

fn bits_of(values: &[f32]) -> Vec<u32> {
    values.iter().map(|v| v.to_bits()).collect()
}

fn values_of(bits: &[u32]) -> Vec<f32> {
    bits.iter().map(|b| f32::from_bits(*b)).collect()
}

fn topology(widths: &[usize]) -> Vec<LayerTopology> {
    widths.iter().map(|&neurons| LayerTopology { neurons }).collect()
}

#[test]
fn random() {
    let mut rng = ChaChaSource::zero_seeded();
    let neuron = Neuron::random(&mut rng, 4);

    // Verify we're creating random biases
    assert_eq!(f32::from_bits(neuron.bias), 0.35842037);

    // Verify we're creating random weights
    assert_eq!(
        values_of(&neuron.weights),
        vec![0.12689018, 0.79230833, -0.6817162, 0.43828797]
    );
}

#[test]
fn layer_random_structure() {
    let mut rng = ChaChaSource::zero_seeded();
    let input_size = 3;
    let output_size = 2;
    let layer = Layer::random(&mut rng, input_size, output_size);

    // Verify the layer has the correct number of neurons
    assert_eq!(layer.neurons.len(), output_size);

    // Verify each neuron has the correct number of weights
    for neuron in &layer.neurons {
        assert_eq!(neuron.weights.len(), input_size);
    }
}

#[test]
fn layer_random_values() {
    let mut rng = ChaChaSource::zero_seeded();
    let layer = Layer::random(&mut rng, 4, 2);

    // Verify deterministic generation with seeded RNG
    // First neuron's bias should match what Neuron::random generates first
    assert_eq!(f32::from_bits(layer.neurons[0].bias), 0.35842037);

    // First neuron's weights should match deterministic sequence
    assert_eq!(
        values_of(&layer.neurons[0].weights),
        vec![0.12689018, 0.79230833, -0.6817162, 0.43828797]
    );

    // Second neuron should have different values (RNG state has advanced)
    assert_eq!(f32::from_bits(layer.neurons[1].bias), -0.78962564);
}

#[test]
fn propagate() {
    let neuron = Neuron::new(0.5f32.to_bits(), bits_of(&[-0.3, 0.8]));

    // The rectifier floors negative sums at zero
    assert_eq!(f32::from_bits(neuron.propagate(&bits_of(&[-10.0, -10.0]))), 0.0);

    assert_eq!(
        f32::from_bits(neuron.propagate(&bits_of(&[0.5, 1.0]))),
        (-0.3 * 0.5) + (0.8 * 1.0) + 0.5,
    );
}

#[test]
fn network_propagate_folds_through_layers() {
    // one hidden neuron feeding one output neuron, all weights exact
    let hidden = Layer::new(vec![Neuron::new(0.25f32.to_bits(), bits_of(&[0.5, -0.5]))]);
    let output = Layer::new(vec![Neuron::new(0.0f32.to_bits(), bits_of(&[2.0]))]);
    let net = Network::new(vec![hidden, output]);

    let out = net.propagate(bits_of(&[1.0, 0.5])).unwrap();

    // hidden: max(0, 1.0*0.5 + 0.5*(-0.5) + 0.25) = 0.5; output: 2.0 * 0.5
    assert_eq!(values_of(&out), vec![1.0]);
}

#[test]
fn network_propagate_reports_the_first_arity_fault() {
    let good = Layer::new(vec![Neuron::new(0.0f32.to_bits(), bits_of(&[1.0, 1.0]))]);
    let bad = Layer::new(vec![
        Neuron::new(0.0f32.to_bits(), bits_of(&[1.0])),
        Neuron::new(0.0f32.to_bits(), bits_of(&[1.0, 1.0, 1.0])),
    ]);
    let net = Network::new(vec![good, bad]);

    let err = net.propagate(bits_of(&[1.0, 2.0])).unwrap_err();

    assert_eq!(err.layer, 1);
    assert_eq!(err.neuron, 1);
    assert_eq!(err.expected, 3);
    assert_eq!(err.found, 1);
}

#[test]
fn random_network_has_the_topology_shape() {
    let mut rng = ChaChaSource::zero_seeded();
    let widths = topology(&[3, 5, 2]);

    let net = Network::random(&mut rng, &widths).unwrap();

    assert_eq!(net.layers().len(), 2);
    assert_eq!(net.layers()[0].neurons.len(), 5);
    assert_eq!(net.layers()[1].neurons.len(), 2);
    for neuron in &net.layers()[0].neurons {
        assert_eq!(neuron.weights.len(), 3);
    }
    for neuron in &net.layers()[1].neurons {
        assert_eq!(neuron.weights.len(), 5);
    }
}

#[test]
fn random_network_matches_the_rand_stream() {
    // The same seed, drawn directly with the rand crate in the order the
    // network draws: per neuron a bias, then its weights, layer by layer —
    // which is also the order of the flat encoding.
    let mut oracle_rng = ChaCha20Rng::from_seed(Default::default());
    let expected: Vec<f32> =
        (0..(3 + 1) * 4 + (4 + 1) * 2).map(|_| oracle_rng.random_range(-1.0..=1.0)).collect();

    let mut rng = ChaChaSource::zero_seeded();
    let net = Network::random(&mut rng, &topology(&[3, 4, 2])).unwrap();

    assert_eq!(values_of(&net.weights()), expected);
}

#[test]
fn random_rejects_short_topologies() {
    let mut rng = ChaChaSource::zero_seeded();

    let err = Network::random(&mut rng, &topology(&[])).unwrap_err();
    assert_eq!(err, TopologyError::TooFewLayers);

    let err = Network::random(&mut rng, &topology(&[4])).unwrap_err();
    assert_eq!(err, TopologyError::TooFewLayers);
}

#[test]
fn random_rejects_zero_widths() {
    let mut rng = ChaChaSource::zero_seeded();

    let err = Network::random(&mut rng, &topology(&[3, 0, 2])).unwrap_err();
    assert_eq!(err, TopologyError::ZeroWidth);
}

#[test]
fn weights_round_trip_preserves_propagation() {
    let mut rng = ChaChaSource::zero_seeded();
    let widths = topology(&[3, 4, 2]);

    let net = Network::random(&mut rng, &widths).unwrap();
    let flat = net.weights();
    assert_eq!(flat.len(), (3 + 1) * 4 + (4 + 1) * 2);

    let rebuilt = Network::from_weights(&widths, &flat).unwrap();

    let inputs = bits_of(&[0.1, -0.7, 0.4]);
    let out = net.propagate(inputs.clone()).unwrap();
    let out_rebuilt = rebuilt.propagate(inputs).unwrap();
    assert_eq!(out, out_rebuilt);
    assert_eq!(rebuilt.weights(), flat);
}

#[test]
fn weights_are_encoded_bias_first_in_order() {
    let first = Layer::new(vec![
        Neuron::new(0.1f32.to_bits(), bits_of(&[0.2, 0.3])),
        Neuron::new(0.4f32.to_bits(), bits_of(&[0.5, 0.6])),
    ]);
    let second = Layer::new(vec![Neuron::new(0.7f32.to_bits(), bits_of(&[0.8, 0.9]))]);
    let net = Network::new(vec![first, second]);

    assert_eq!(
        values_of(&net.weights()),
        vec![0.1, 0.2, 0.3, 0.4, 0.5, 0.6, 0.7, 0.8, 0.9]
    );
}

#[test]
fn from_weights_rejects_a_short_sequence() {
    let widths = topology(&[2, 1]);

    let err = Network::from_weights(&widths, &bits_of(&[0.1, 0.2])).unwrap_err();

    assert_eq!(
        err,
        DecodeError::MissingWeights { layer: 0, neuron: 0, expected: 2, found: 2 }
    );
}

#[test]
fn from_weights_rejects_leftover_values() {
    let widths = topology(&[2, 1]);

    let err = Network::from_weights(&widths, &bits_of(&[0.1, 0.2, 0.3, 0.4])).unwrap_err();

    assert_eq!(err, DecodeError::ExtraWeights { leftover: 1 });
}

#[test]
fn from_weights_rejects_a_bad_topology() {
    let err = Network::from_weights(&topology(&[4]), &bits_of(&[0.1])).unwrap_err();
    assert_eq!(err, DecodeError::Topology(TopologyError::TooFewLayers));

    let err = Network::from_weights(&topology(&[1, 0]), &vec![]).unwrap_err();
    assert_eq!(err, DecodeError::Topology(TopologyError::ZeroWidth));
}
