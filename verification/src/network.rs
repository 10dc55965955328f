//! The feed-forward inference engine: neurons, layers, networks, random
//! initialization, propagation, and the flat weight encoding.

use vstd::prelude::*;

verus! {

use crate::codec::{
    decode_layer, decode_network, decode_neuron, encode_layer, encode_network, encoded_len,
    lemma_decode_layer_snoc, lemma_encode_layer_push, lemma_encode_network_push,
    lemma_encoded_len_nonneg,
};
use crate::random::{range_sample_bits, sample_in_range, RandomSource};
use crate::single::{
    add_bits, le_bits, mul_bits, sub_bits, is_finite_bits, add_single, le_single, mul_single,
    sub_single, finite_bits, NEG_ONE_BITS, ONE_BITS, TWO_BITS, ZERO_BITS,
};

/// One layer's width in a topology description: first entry the input
/// width, every further entry a layer's neuron count.
#[derive(Clone, Copy, Debug)]
pub struct LayerTopology {
    /// Number of neurons (or, for the first entry, of network inputs).
    pub neurons: usize,
}

/// One neuron: a bias and one weight per input from the previous layer
/// (binary32 bit patterns).
#[derive(Clone, Debug)]
pub struct Neuron {
    /// Bias added to the weighted input sum.
    pub bias: u32,
    /// One weight per input, in input order.
    pub weights: Vec<u32>,
}

/// An ordered sequence of neurons, all sharing the same input arity.
#[derive(Clone, Debug)]
pub struct Layer {
    /// The layer's neurons, in order.
    pub neurons: Vec<Neuron>,
}

/// An ordered sequence of layers; the output of layer `i` feeds layer
/// `i + 1`. Immutable once constructed: propagation never mutates it.
#[derive(Clone, Debug)]
pub struct Network {
    layers: Vec<Layer>,
}

/// The mathematical model of a neuron: its bias and weight sequence.
#[verifier::ext_equal]
pub ghost struct NeuronView {
    /// Bias bit pattern.
    pub bias: u32,
    /// Weight bit patterns, in input order.
    pub weights: Seq<u32>,
}

impl View for Neuron {
    type V = NeuronView;

    open spec fn view(&self) -> NeuronView {
        NeuronView { bias: self.bias, weights: self.weights@ }
    }
}

impl View for Layer {
    type V = Seq<NeuronView>;

    open spec fn view(&self) -> Seq<NeuronView> {
        self.neurons@.map_values(|n: Neuron| n@)
    }
}

impl View for Network {
    type V = Seq<Seq<NeuronView>>;

    closed spec fn view(&self) -> Seq<Seq<NeuronView>> {
        self.layers@.map_values(|l: Layer| l@)
    }
}

/// A topology is admissible when it has at least an input width and one
/// layer, and every width is positive.
pub open spec fn topology_ok(t: Seq<LayerTopology>) -> bool {
    t.len() >= 2 && forall|i: int| 0 <= i < t.len() ==> t[i].neurons >= 1
}

/// Why a topology was rejected.
#[derive(Clone, Copy, Debug, PartialEq, Eq, Structural)]
pub enum TopologyError {
    /// Fewer than two entries: no input width and output layer.
    TooFewLayers,
    /// Some entry asks for zero neurons (or zero inputs).
    ZeroWidth,
}

/// The error an admissibility check of a topology must report, if any.
pub open spec fn topology_failure(t: Seq<LayerTopology>) -> Option<TopologyError> {
    if t.len() < 2 {
        Some(TopologyError::TooFewLayers)
    } else if exists|i: int| 0 <= i < t.len() && t[i].neurons == 0 {
        Some(TopologyError::ZeroWidth)
    } else {
        None
    }
}

/// A network has the shape a topology prescribes: one layer per adjacent
/// pair of widths, with the later width as neuron count and the earlier as
/// every neuron's input arity.
pub open spec fn shape_matches(net: Seq<Seq<NeuronView>>, t: Seq<LayerTopology>) -> bool {
    &&& net.len() + 1 == t.len()
    &&& forall|i: int| 0 <= i < net.len() ==> #[trigger] net[i].len() == t[i + 1].neurons
    &&& forall|i: int, j: int|
        0 <= i < net.len() && 0 <= j < net[i].len() ==> (#[trigger] net[i][j]).weights.len()
            == t[i].neurons
}

/// The binary32 sum of the first `n` products `inputs[k] * weights[k]`,
/// accumulated left to right from zero, exactly as propagation computes it.
pub open spec fn dot_prefix(inputs: Seq<u32>, weights: Seq<u32>, n: int) -> u32
    decreases n,
{
    if n <= 0 {
        ZERO_BITS
    } else {
        add_bits(dot_prefix(inputs, weights, n - 1), mul_bits(inputs[n - 1], weights[n - 1]))
    }
}

/// Rectified linear activation on bit patterns: identity on values at least
/// zero, zero otherwise (a NaN sum also floors to zero).
pub open spec fn relu_bits(x: u32) -> u32 {
    if le_bits(ZERO_BITS, x) {
        x
    } else {
        ZERO_BITS
    }
}

/// A neuron's output: the rectified sum of its bias and the dot product of
/// inputs and weights.
pub open spec fn neuron_output(nv: NeuronView, inputs: Seq<u32>) -> u32 {
    relu_bits(add_bits(nv.bias, dot_prefix(inputs, nv.weights, nv.weights.len() as int)))
}

/// A layer's output: every neuron applied independently to the same inputs.
pub open spec fn layer_output(lv: Seq<NeuronView>, inputs: Seq<u32>) -> Seq<u32> {
    Seq::new(lv.len(), |j: int| neuron_output(lv[j], inputs))
}

/// The vector reaching layer `k`: the inputs folded through the first `k`
/// layers.
pub open spec fn output_after(net: Seq<Seq<NeuronView>>, inputs: Seq<u32>, k: int) -> Seq<u32>
    decreases k,
{
    if k <= 0 {
        inputs
    } else {
        layer_output(net[k - 1], output_after(net, inputs, k - 1))
    }
}

/// The network's output: the inputs folded through every layer in order.
pub open spec fn network_output(net: Seq<Seq<NeuronView>>, inputs: Seq<u32>) -> Seq<u32> {
    output_after(net, inputs, net.len() as int)
}

/// Every neuron of the layer accepts `n_inputs` inputs.
pub open spec fn layer_arity_ok(lv: Seq<NeuronView>, n_inputs: int) -> bool {
    forall|j: int| 0 <= j < lv.len() ==> (#[trigger] lv[j]).weights.len() == n_inputs
}

/// The length of the vector arriving at layer `k` when the network input
/// has length `n0`: the previous layer's neuron count, for inner layers.
pub open spec fn input_len_at(net: Seq<Seq<NeuronView>>, n0: int, k: int) -> int {
    if k == 0 {
        n0
    } else {
        net[k - 1].len() as int
    }
}

/// Every layer's neurons accept exactly the vector that reaches them.
pub open spec fn chain_ok(net: Seq<Seq<NeuronView>>, n0: int) -> bool {
    forall|k: int| 0 <= k < net.len() ==> layer_arity_ok(#[trigger] net[k], input_len_at(net, n0, k))
}

/// A propagation failure: the first neuron whose weight count does not
/// match the vector arriving at its layer.
#[derive(Clone, Copy, Debug, PartialEq, Eq, Structural)]
pub struct PropagateError {
    /// Index of the offending layer.
    pub layer: usize,
    /// Index of the first offending neuron within that layer.
    pub neuron: usize,
    /// The neuron's weight count.
    pub expected: usize,
    /// The length of the vector that arrived at the layer.
    pub found: usize,
}

/// Why a flat weight sequence could not be decoded into a network.
#[derive(Clone, Copy, Debug, PartialEq, Eq, Structural)]
pub enum DecodeError {
    /// The topology itself was inadmissible.
    Topology(TopologyError),
    /// The sequence ran out before this neuron's bias and weights were
    /// filled: it still needed one bias and `expected` weights, but only
    /// `found` values remained.
    MissingWeights { layer: usize, neuron: usize, expected: usize, found: usize },
    /// `leftover` values remained after the last neuron was filled.
    ExtraWeights { leftover: usize },
}

/// Checks a topology's admissibility, reporting exactly what
/// [`topology_failure`] prescribes.
pub fn check_topology(layers: &Vec<LayerTopology>) -> (r: Option<TopologyError>)
    ensures
        r == topology_failure(layers@),
{
    let n = layers.len();
    if n < 2 {
        return Some(TopologyError::TooFewLayers);
    }
    let mut i: usize = 0;
    while i < n
        invariant
            i <= n,
            2 <= n,
            n == layers@.len(),
            forall|q: int| 0 <= q < i ==> layers@[q].neurons >= 1,
        decreases n - i,
    {
        if layers[i].neurons == 0 {
            proof {
                assert(0 <= i < layers@.len() && layers@[i as int].neurons == 0);
            }
            return Some(TopologyError::ZeroWidth);
        }
        i += 1;
    }
    None
}

impl Neuron {
    /// Assembles a neuron from its bias and weights.
    pub fn new(bias: u32, weights: Vec<u32>) -> (r: Neuron)
        ensures
            r@ == (NeuronView { bias, weights: weights@ }),
    {
        Neuron { bias, weights }
    }

    /// This neuron's output for the given inputs: the rectified sum of the
    /// bias and the input-weight dot product.
    pub fn propagate(&self, inputs: &Vec<u32>) -> (r: u32)
        requires
            inputs@.len() == self@.weights.len(),
        ensures
            r == neuron_output(self@, inputs@),
    {
        let n = self.weights.len();
        let mut acc: u32 = ZERO_BITS;
        let mut k: usize = 0;
        while k < n
            invariant
                k <= n,
                n == self@.weights.len(),
                inputs@.len() == n,
                acc == dot_prefix(inputs@, self@.weights, k as int),
            decreases n - k,
        {
            acc = add_single(acc, mul_single(inputs[k], self.weights[k]));
            k += 1;
        }
        let sum = add_single(self.bias, acc);
        if le_single(ZERO_BITS, sum) {
            sum
        } else {
            ZERO_BITS
        }
    }

    /// A neuron with a random bias and `input_size` random weights, each
    /// drawn independently and uniformly from `[-1.0, 1.0]`; the bias is
    /// drawn first.
    pub fn random<R: RandomSource>(rng: &mut R, input_size: usize) -> (r: Neuron)
        ensures
            r@.weights.len() == input_size,
            neuron_sampled(r@),
    {
        let bias = sample_symmetric_unit(rng);
        let mut weights: Vec<u32> = Vec::new();
        let mut k: usize = 0;
        while k < input_size
            invariant
                k <= input_size,
                weights@.len() == k,
                forall|q: int| 0 <= q < k ==> is_symmetric_unit_sample(weights@[q]),
            decreases input_size - k,
        {
            weights.push(sample_symmetric_unit(rng));
            k += 1;
        }
        Neuron { bias, weights }
    }
}

/// Whether a bit pattern is one of the values the uniform draw over
/// `[-1.0, 1.0]` can produce from some random word.
pub open spec fn is_symmetric_unit_sample(r: u32) -> bool {
    exists|w: u32| r == range_sample_bits(NEG_ONE_BITS, sub_bits(ONE_BITS, NEG_ONE_BITS), w)
}

/// Every parameter of the neuron came from the uniform `[-1.0, 1.0]` draw.
pub open spec fn neuron_sampled(nv: NeuronView) -> bool {
    is_symmetric_unit_sample(nv.bias) && forall|q: int|
        0 <= q < nv.weights.len() ==> is_symmetric_unit_sample(#[trigger] nv.weights[q])
}

/// Every parameter of every neuron of the layer came from the uniform
/// `[-1.0, 1.0]` draw.
pub open spec fn all_samples(lv: Seq<NeuronView>) -> bool {
    forall|j: int| 0 <= j < lv.len() ==> neuron_sampled(#[trigger] lv[j])
}

/// One uniform draw from the closed range `[-1.0, 1.0]`.
fn sample_symmetric_unit<R: RandomSource>(rng: &mut R) -> (r: u32)
    ensures
        is_symmetric_unit_sample(r),
{
    match sample_in_range(rng, NEG_ONE_BITS, ONE_BITS) {
        Some(v) => v,
        None => {
            // dead branch: the bounds are finite and ordered, two apart
            let ordered = le_single(NEG_ONE_BITS, ONE_BITS);
            let width = sub_single(ONE_BITS, NEG_ONE_BITS);
            let fin = finite_bits(width);
            proof {
                assert((NEG_ONE_BITS >> 23) & 0xFF != 0xFF) by (bit_vector);
                assert((ONE_BITS >> 23) & 0xFF != 0xFF) by (bit_vector);
                assert((TWO_BITS >> 23) & 0xFF != 0xFF) by (bit_vector);
                assert(false);
            }
            ZERO_BITS
        },
    }
}

impl Layer {
    /// Assembles a layer from its neurons.
    pub fn new(neurons: Vec<Neuron>) -> (r: Layer)
        ensures
            r@ == neurons@.map_values(|n: Neuron| n@),
    {
        Layer { neurons }
    }

    /// This layer's output vector: every neuron applied to the same inputs.
    pub fn propagate(&self, inputs: &Vec<u32>) -> (r: Vec<u32>)
        requires
            layer_arity_ok(self@, inputs@.len() as int),
        ensures
            r@ == layer_output(self@, inputs@),
    {
        let n = self.neurons.len();
        let mut out: Vec<u32> = Vec::new();
        let mut j: usize = 0;
        while j < n
            invariant
                j <= n,
                n == self@.len(),
                layer_arity_ok(self@, inputs@.len() as int),
                out@.len() == j,
                forall|q: int| 0 <= q < j ==> out@[q] == neuron_output(self@[q], inputs@),
            decreases n - j,
        {
            proof {
                assert(self@[j as int] == self.neurons@[j as int]@);
                assert(self@[j as int].weights.len() == inputs@.len());
            }
            out.push(self.neurons[j].propagate(inputs));
            j += 1;
        }
        proof {
            assert(out@ =~= layer_output(self@, inputs@));
        }
        out
    }

    /// A layer of `output_size` random neurons, each with `input_size`
    /// weights, drawn in neuron order.
    pub fn random<R: RandomSource>(rng: &mut R, input_size: usize, output_size: usize) -> (r:
        Layer)
        ensures
            r@.len() == output_size,
            layer_arity_ok(r@, input_size as int),
            all_samples(r@),
    {
        let mut neurons: Vec<Neuron> = Vec::new();
        let mut j: usize = 0;
        while j < output_size
            invariant
                j <= output_size,
                neurons@.len() == j,
                forall|q: int|
                    0 <= q < j ==> (#[trigger] neurons@[q])@.weights.len() == input_size,
                forall|q: int| 0 <= q < j ==> neuron_sampled(#[trigger] neurons@[q]@),
            decreases output_size - j,
        {
            neurons.push(Neuron::random(rng, input_size));
            j += 1;
        }
        let layer = Layer { neurons };
        proof {
            assert forall|q: int| 0 <= q < layer@.len() implies neuron_sampled(
                #[trigger] layer@[q],
            ) by {
                assert(layer@[q] == layer.neurons@[q]@);
            }
        }
        layer
    }
}

impl Network {
    /// Assembles a network directly from its layers, exactly as given.
    pub fn new(layers: Vec<Layer>) -> (r: Network)
        ensures
            r@ == layers@.map_values(|l: Layer| l@),
    {
        Network { layers }
    }

    /// The layers, in order.
    pub fn layers(&self) -> (r: &Vec<Layer>)
        ensures
            r@.map_values(|l: Layer| l@) == self@,
    {
        &self.layers
    }

    /// A network of the shape the topology prescribes, all biases and
    /// weights drawn independently and uniformly from `[-1.0, 1.0]`.
    /// Rejects, before drawing anything, a topology with fewer than two
    /// entries or with a zero width.
    pub fn random<R: RandomSource>(rng: &mut R, layers: &Vec<LayerTopology>) -> (r: Result<
        Network,
        TopologyError,
    >)
        ensures
            r is Err <==> topology_failure(layers@) is Some,
            r matches Err(e) ==> topology_failure(layers@) == Some(e),
            r matches Ok(net) ==> shape_matches(net@, layers@),
            r matches Ok(net) ==> forall|i: int| 0 <= i < net@.len() ==> all_samples(#[trigger] net@[i]),
    {
        let n = layers.len();
        match check_topology(layers) {
            Some(e) => {
                return Err(e);
            },
            None => {},
        }
        let mut built: Vec<Layer> = Vec::new();
        let mut k: usize = 0;
        while k < n - 1
            invariant
                k <= n - 1,
                n == layers@.len(),
                built@.len() == k,
                forall|q: int|
                    0 <= q < k ==> (#[trigger] built@[q])@.len() == layers@[q + 1].neurons,
                forall|q: int|
                    0 <= q < k ==> layer_arity_ok(#[trigger] built@[q]@, layers@[q].neurons as int),
                forall|q: int| 0 <= q < k ==> all_samples(#[trigger] built@[q]@),
            decreases n - 1 - k,
        {
            built.push(Layer::random(rng, layers[k].neurons, layers[k + 1].neurons));
            k += 1;
        }
        let net = Network { layers: built };
        proof {
            assert(net@.len() + 1 == layers@.len());
            assert forall|q: int| 0 <= q < net@.len() implies #[trigger] net@[q].len() == layers@[q
                + 1].neurons by {
                assert(net@[q] == built@[q]@);
            }
            assert forall|q: int, j: int|
                0 <= q < net@.len() && 0 <= j < net@[q].len() implies (#[trigger] net@[q][j]).weights.len()
                == layers@[q].neurons by {
                assert(net@[q] == built@[q]@);
                assert(layer_arity_ok(built@[q]@, layers@[q].neurons as int));
            }
            assert forall|q: int| 0 <= q < net@.len() implies all_samples(#[trigger] net@[q]) by {
                assert(net@[q] == built@[q]@);
            }
        }
        Ok(net)
    }

    /// The flat weight encoding of this network: layers in order, within
    /// each layer neurons in order, each neuron's bias followed by its
    /// weights in order.
    pub fn weights(&self) -> (r: Vec<u32>)
        ensures
            r@ == encode_network(self@),
    {
        let mut out: Vec<u32> = Vec::new();
        let n = self.layers.len();
        let mut k: usize = 0;
        while k < n
            invariant
                k <= n,
                n == self@.len(),
                out@ == encode_network(self@.take(k as int)),
            decreases n - k,
        {
            proof {
                assert(self@[k as int] == self.layers@[k as int]@);
            }
            let m = self.layers[k].neurons.len();
            let mut j: usize = 0;
            while j < m
                invariant
                    j <= m,
                    k < n,
                    n == self@.len(),
                    m == self@[k as int].len(),
                    self@[k as int] == self.layers@[k as int]@,
                    out@ == encode_network(self@.take(k as int)) + encode_layer(
                        self@[k as int].take(j as int),
                    ),
                decreases m - j,
            {
                proof {
                    assert(self@[k as int][j as int] == self.layers@[k as int].neurons@[j as int]@);
                }
                let ghost before = out@;
                let ghost nv = self@[k as int][j as int];
                out.push(self.layers[k].neurons[j].bias);
                let wlen = self.layers[k].neurons[j].weights.len();
                let mut q: usize = 0;
                while q < wlen
                    invariant
                        q <= wlen,
                        k < n,
                        j < m,
                        n == self@.len(),
                        m == self@[k as int].len(),
                        self@[k as int] == self.layers@[k as int]@,
                        self@[k as int][j as int] == self.layers@[k as int].neurons@[j as int]@,
                        nv == self@[k as int][j as int],
                        wlen == nv.weights.len(),
                        out@ == before + seq![nv.bias] + nv.weights.take(q as int),
                    decreases wlen - q,
                {
                    out.push(self.layers[k].neurons[j].weights[q]);
                    proof {
                        assert(nv.weights.take(q as int).push(nv.weights[q as int]) =~= nv.weights.take(
                            q + 1,
                        ));
                    }
                    q += 1;
                }
                proof {
                    lemma_encode_layer_push(self@[k as int].take(j as int), nv);
                    assert(self@[k as int].take(j as int).push(nv) =~= self@[k as int].take(j + 1));
                    assert(nv.weights.take(wlen as int) =~= nv.weights);
                    assert(out@ =~= encode_network(self@.take(k as int)) + encode_layer(
                        self@[k as int].take(j + 1),
                    ));
                }
                j += 1;
            }
            proof {
                lemma_encode_network_push(self@.take(k as int), self@[k as int]);
                assert(self@.take(k as int).push(self@[k as int]) =~= self@.take(k + 1));
                assert(self@[k as int].take(m as int) =~= self@[k as int]);
                assert(out@ =~= encode_network(self@.take(k + 1)));
            }
            k += 1;
        }
        proof {
            assert(self@.take(n as int) =~= self@);
        }
        out
    }

    /// The network the topology prescribes, rebuilt from a flat weight
    /// sequence. Rejects an inadmissible topology before reading anything;
    /// fails if the sequence is exhausted before some neuron's bias and
    /// weights are filled, and fails if values remain unconsumed after the
    /// last neuron. On success the result is exactly the decoding of the
    /// sequence, so encoding it again yields the same sequence.
    pub fn from_weights(layers: &Vec<LayerTopology>, weights: &Vec<u32>) -> (r: Result<
        Network,
        DecodeError,
    >)
        ensures
            topology_failure(layers@) matches Some(e) ==> r == Err::<Network, DecodeError>(
                DecodeError::Topology(e),
            ),
            topology_failure(layers@) is None && weights@.len() < encoded_len(layers@) ==> r is Err
                && r->Err_0 is MissingWeights,
            topology_failure(layers@) is None && weights@.len() == encoded_len(layers@) ==> r is Ok,
            topology_failure(layers@) is None && weights@.len() > encoded_len(layers@) ==> r == Err::<
                Network,
                DecodeError,
            >(
                DecodeError::ExtraWeights {
                    leftover: (weights@.len() - encoded_len(layers@)) as usize,
                },
            ),
            r matches Ok(net) ==> {
                &&& net@ == decode_network(layers@, weights@)
                &&& weights@.len() == encoded_len(layers@)
                &&& topology_failure(layers@) is None
            },
    {
        match check_topology(layers) {
            Some(e) => {
                return Err(DecodeError::Topology(e));
            },
            None => {},
        }
        let n = layers.len();
        let len = weights.len();
        let mut built: Vec<Layer> = Vec::new();
        let mut cursor: usize = 0;
        let mut k: usize = 0;
        proof {
            assert(layers@.skip(0) =~= layers@);
            assert(weights@.skip(0) =~= weights@);
            assert(built@.map_values(|l: Layer| l@) + decode_network(layers@, weights@)
                =~~= decode_network(layers@, weights@));
        }
        while k < n - 1
            invariant
                k <= n - 1,
                2 <= n,
                n == layers@.len(),
                len == weights@.len(),
                cursor <= len,
                built@.len() == k,
                topology_failure(layers@) is None,
                cursor as int + encoded_len(layers@.skip(k as int)) == encoded_len(layers@),
                built@.map_values(|l: Layer| l@) + decode_network(
                    layers@.skip(k as int),
                    weights@.skip(cursor as int),
                ) == decode_network(layers@, weights@),
            decreases n - 1 - k,
        {
            let fan_in = layers[k].neurons;
            let count = layers[k + 1].neurons;
            let ghost layer_start = cursor as int;
            proof {
                assert(layers@.skip(k as int)[0] == layers@[k as int]);
                assert(layers@.skip(k as int)[1] == layers@[k as int + 1]);
                assert(layers@.skip(k as int).drop_first() =~= layers@.skip(k as int + 1));
                lemma_encoded_len_nonneg(layers@.skip(k as int + 1));
            }
            let mut neurons: Vec<Neuron> = Vec::new();
            let mut j: usize = 0;
            while j < count
                invariant
                    j <= count,
                    k < n - 1,
                    2 <= n,
                    n == layers@.len(),
                    len == weights@.len(),
                    cursor <= len,
                    topology_failure(layers@) is None,
                    fan_in == layers@[k as int].neurons,
                    count == layers@[k as int + 1].neurons,
                    cursor as int == layer_start + j * (fan_in + 1),
                    layer_start >= 0,
                    layer_start + (fan_in + 1) * count + encoded_len(layers@.skip(k as int + 1))
                        == encoded_len(layers@),
                    encoded_len(layers@.skip(k as int + 1)) >= 0,
                    neurons@.map_values(|nr: Neuron| nr@) == decode_layer(
                        fan_in as int,
                        j as int,
                        weights@.skip(layer_start),
                    ),
                decreases count - j,
            {
                if len - cursor <= fan_in {
                    proof {
                        assert((j + 1) * (fan_in + 1) <= count * (fan_in + 1))
                            by (nonlinear_arith)
                            requires
                                0 <= j < count && fan_in >= 0,
                        ;
                        assert(count * (fan_in + 1) == (fan_in + 1) * count) by (nonlinear_arith);
                        assert(j * (fan_in + 1) + (fan_in + 1) == (j + 1) * (fan_in + 1))
                            by (nonlinear_arith);
                        assert(len < encoded_len(layers@));
                    }
                    return Err(DecodeError::MissingWeights {
                        layer: k,
                        neuron: j,
                        expected: fan_in,
                        found: len - cursor,
                    });
                }
                let bias = weights[cursor];
                let mut ws: Vec<u32> = Vec::new();
                let mut q: usize = 0;
                while q < fan_in
                    invariant
                        q <= fan_in,
                        cursor + 1 + fan_in <= len,
                        len == weights@.len(),
                        ws@ == weights@.subrange(cursor as int + 1, cursor as int + 1 + q),
                    decreases fan_in - q,
                {
                    ws.push(weights[cursor + 1 + q]);
                    proof {
                        assert(weights@.subrange(cursor as int + 1, cursor as int + 1 + q).push(
                            weights@[cursor as int + 1 + q],
                        ) =~= weights@.subrange(cursor as int + 1, cursor as int + 1 + (q + 1)));
                    }
                    q += 1;
                }
                neurons.push(Neuron { bias, weights: ws });
                proof {
                    let w_layer = weights@.skip(layer_start);
                    assert(j * (fan_in + 1) >= 0 && (j + 1) * (fan_in + 1) == j * (fan_in + 1) + (
                    fan_in + 1)) by (nonlinear_arith)
                        requires
                            j >= 0 && fan_in >= 0,
                    ;
                    assert(w_layer.len() >= (j + 1) * (fan_in + 1));
                    lemma_decode_layer_snoc(fan_in as int, j as int, w_layer);
                    assert(w_layer.skip(j * (fan_in + 1)) =~= weights@.skip(cursor as int));
                    assert(weights@.skip(cursor as int)[0] == weights@[cursor as int]);
                    assert(weights@.skip(cursor as int).subrange(1, 1 + fan_in as int)
                        =~= weights@.subrange(cursor as int + 1, cursor as int + 1 + fan_in as int));
                    assert(decode_neuron(fan_in as int, weights@.skip(cursor as int)) =~= (NeuronView {
                        bias,
                        weights: ws@,
                    }));
                    assert(neurons@.map_values(|nr: Neuron| nr@) =~= decode_layer(
                        fan_in as int,
                        j + 1,
                        w_layer,
                    ));
                }
                cursor = cursor + 1 + fan_in;
                j += 1;
            }
            built.push(Layer { neurons });
            proof {
                let w_layer = weights@.skip(layer_start);
                assert(count * (fan_in + 1) == (fan_in + 1) * count) by (nonlinear_arith);
                assert(w_layer.skip((fan_in + 1) * count as int) =~= weights@.skip(cursor as int));
                assert(decode_network(layers@.skip(k as int), w_layer) == seq![
                    decode_layer(fan_in as int, count as int, w_layer),
                ] + decode_network(layers@.skip(k as int + 1), weights@.skip(cursor as int)));
                assert(built@.last()@ == decode_layer(fan_in as int, count as int, w_layer));
                assert(built@.map_values(|l: Layer| l@) + decode_network(
                    layers@.skip(k as int + 1),
                    weights@.skip(cursor as int),
                ) =~~= decode_network(layers@, weights@));
            }
            k += 1;
        }
        proof {
            assert(layers@.skip(n as int - 1).len() == 1);
            assert(encoded_len(layers@.skip(n as int - 1)) == 0);
            assert(decode_network(layers@.skip(n as int - 1), weights@.skip(cursor as int))
                == Seq::<Seq<NeuronView>>::empty());
        }
        if cursor < len {
            return Err(DecodeError::ExtraWeights { leftover: len - cursor });
        }
        let net = Network { layers: built };
        proof {
            assert(net@ =~~= decode_network(layers@, weights@));
        }
        Ok(net)
    }

    /// The network's output for the given input vector, or the first
    /// neuron whose input arity the arriving vector violates. Arity is
    /// checked per layer, before that layer computes anything.
    pub fn propagate(&self, inputs: Vec<u32>) -> (r: Result<Vec<u32>, PropagateError>)
        ensures
            r is Ok <==> chain_ok(self@, inputs@.len() as int),
            r matches Ok(out) ==> out@ == network_output(self@, inputs@),
            r matches Err(e) ==> {
                &&& e.layer < self@.len()
                &&& e.neuron < self@[e.layer as int].len()
                &&& e.expected == self@[e.layer as int][e.neuron as int].weights.len()
                &&& e.found == input_len_at(self@, inputs@.len() as int, e.layer as int)
                &&& e.expected != e.found
                &&& forall|j: int|
                    0 <= j < e.neuron ==> (#[trigger] self@[e.layer as int][j]).weights.len()
                        == e.found
                &&& forall|k: int|
                    0 <= k < e.layer ==> layer_arity_ok(
                        #[trigger] self@[k],
                        input_len_at(self@, inputs@.len() as int, k),
                    )
            },
    {
        let n = self.layers.len();
        let mut current = inputs;
        let mut k: usize = 0;
        while k < n
            invariant
                k <= n,
                n == self@.len(),
                current@ == output_after(self@, inputs@, k as int),
                current@.len() == input_len_at(self@, inputs@.len() as int, k as int),
                forall|q: int|
                    0 <= q < k ==> layer_arity_ok(
                        #[trigger] self@[q],
                        input_len_at(self@, inputs@.len() as int, q),
                    ),
            decreases n - k,
        {
            proof {
                assert(self@[k as int] == self.layers@[k as int]@);
            }
            let m = self.layers[k].neurons.len();
            let mut j: usize = 0;
            while j < m
                invariant
                    j <= m,
                    k < n,
                    n == self@.len(),
                    m == self@[k as int].len(),
                    self@[k as int] == self.layers@[k as int]@,
                    current@.len() == input_len_at(self@, inputs@.len() as int, k as int),
                    forall|q: int|
                        0 <= q < j ==> (#[trigger] self@[k as int][q]).weights.len()
                            == current@.len(),
                    forall|q: int|
                        0 <= q < k ==> layer_arity_ok(
                            #[trigger] self@[q],
                            input_len_at(self@, inputs@.len() as int, q),
                        ),
                decreases m - j,
            {
                proof {
                    assert(self@[k as int][j as int] == self.layers@[k as int].neurons@[j as int]@);
                }
                let expected = self.layers[k].neurons[j].weights.len();
                if expected != current.len() {
                    return Err(PropagateError {
                        layer: k,
                        neuron: j,
                        expected,
                        found: current.len(),
                    });
                }
                j += 1;
            }
            proof {
                assert(layer_arity_ok(self@[k as int], current@.len() as int));
            }
            current = self.layers[k].propagate(&current);
            proof {
                assert(current@.len() == self@[k as int].len());
            }
            k += 1;
        }
        Ok(current)
    }
}

} // verus!
