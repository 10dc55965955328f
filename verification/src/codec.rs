//! The flat weight encoding: how a structured network maps to the gene
//! sequence of a chromosome, and why decoding inverts encoding.
//!
//! The encoding visits layers in order, within each layer neurons in order,
//! and yields each neuron's bias followed by its weights in order.

use vstd::prelude::*;

verus! {

use crate::network::{
    layer_arity_ok, network_output, shape_matches, LayerTopology, NeuronView,
};

/// A neuron's slice of the encoding: its bias, then its weights in order.
pub open spec fn encode_neuron(nv: NeuronView) -> Seq<u32> {
    seq![nv.bias] + nv.weights
}

/// A layer's slice of the encoding: its neurons' slices, in neuron order.
pub open spec fn encode_layer(lv: Seq<NeuronView>) -> Seq<u32>
    decreases lv.len(),
{
    if lv.len() == 0 {
        Seq::empty()
    } else {
        encode_neuron(lv[0]) + encode_layer(lv.drop_first())
    }
}

/// The whole encoding: the layers' slices, in layer order.
pub open spec fn encode_network(net: Seq<Seq<NeuronView>>) -> Seq<u32>
    decreases net.len(),
{
    if net.len() == 0 {
        Seq::empty()
    } else {
        encode_layer(net[0]) + encode_network(net.drop_first())
    }
}

/// How many values the topology's network encodes to: for every neuron, its
/// input arity plus one for the bias.
pub open spec fn encoded_len(t: Seq<LayerTopology>) -> int
    decreases t.len(),
{
    if t.len() < 2 {
        0
    } else {
        (t[0].neurons + 1) * t[1].neurons + encoded_len(t.drop_first())
    }
}

/// The neuron read from the front of `w`: a bias, then `fan_in` weights.
pub open spec fn decode_neuron(fan_in: int, w: Seq<u32>) -> NeuronView {
    NeuronView { bias: w[0], weights: w.subrange(1, 1 + fan_in) }
}

/// `count` neurons of arity `fan_in` read from the front of `w`, each
/// consuming `fan_in + 1` values.
pub open spec fn decode_layer(fan_in: int, count: int, w: Seq<u32>) -> Seq<NeuronView>
    decreases count,
{
    if count <= 0 {
        Seq::empty()
    } else {
        seq![decode_neuron(fan_in, w)] + decode_layer(fan_in, count - 1, w.skip(fan_in + 1))
    }
}

/// The network the topology prescribes, read from the front of `w`: one
/// layer per adjacent pair of widths.
pub open spec fn decode_network(t: Seq<LayerTopology>, w: Seq<u32>) -> Seq<Seq<NeuronView>>
    decreases t.len(),
{
    if t.len() < 2 {
        Seq::empty()
    } else {
        seq![decode_layer(t[0].neurons as int, t[1].neurons as int, w)] + decode_network(
            t.drop_first(),
            w.skip((t[0].neurons + 1) * t[1].neurons as int),
        )
    }
}

/// An encoding never has negative length.
pub proof fn lemma_encoded_len_nonneg(t: Seq<LayerTopology>)
    ensures
        encoded_len(t) >= 0,
    decreases t.len(),
{
    if t.len() >= 2 {
        lemma_encoded_len_nonneg(t.drop_first());
        assert((t[0].neurons + 1) * t[1].neurons >= 0) by (nonlinear_arith)
            requires
                t[0].neurons >= 0 && t[1].neurons >= 0,
        ;
    }
}

/// Reading one more neuron extends the decoded layer by the neuron at the
/// next offset.
pub proof fn lemma_decode_layer_snoc(fan_in: int, count: int, w: Seq<u32>)
    requires
        fan_in >= 0,
        count >= 0,
        w.len() >= (count + 1) * (fan_in + 1),
    ensures
        decode_layer(fan_in, count + 1, w) == decode_layer(fan_in, count, w).push(
            decode_neuron(fan_in, w.skip(count * (fan_in + 1))),
        ),
    decreases count,
{
    if count == 0 {
        assert(decode_layer(fan_in, 0, w.skip(fan_in + 1)) == Seq::<NeuronView>::empty());
        assert(decode_layer(fan_in, 0, w) == Seq::<NeuronView>::empty());
        assert(0 * (fan_in + 1) == 0) by (nonlinear_arith);
        assert(w.skip(0) =~= w);
        assert(decode_layer(fan_in, 1, w) =~= decode_layer(fan_in, 0, w).push(
            decode_neuron(fan_in, w.skip(0)),
        ));
    } else {
        assert((count + 1) * (fan_in + 1) == count * (fan_in + 1) + (fan_in + 1))
            by (nonlinear_arith);
        assert(count * (fan_in + 1) >= fan_in + 1 && count * (fan_in + 1) >= 0)
            by (nonlinear_arith)
            requires
                count >= 1 && fan_in >= 0,
        ;
        lemma_decode_layer_snoc(fan_in, count - 1, w.skip(fan_in + 1));
        assert(w.skip(fan_in + 1).skip((count - 1) * (fan_in + 1)) =~= w.skip(
            count * (fan_in + 1),
        )) by {
            assert((count - 1) * (fan_in + 1) + (fan_in + 1) == count * (fan_in + 1))
                by (nonlinear_arith);
            assert((count - 1) * (fan_in + 1) >= 0) by (nonlinear_arith)
                requires
                    count >= 1 && fan_in >= 0,
            ;
        }
        assert(decode_layer(fan_in, count + 1, w) =~= decode_layer(fan_in, count, w).push(
            decode_neuron(fan_in, w.skip(count * (fan_in + 1))),
        ));
    }
}

/// Appending a neuron appends its slice to the layer's encoding.
pub proof fn lemma_encode_layer_push(lv: Seq<NeuronView>, nv: NeuronView)
    ensures
        encode_layer(lv.push(nv)) == encode_layer(lv) + encode_neuron(nv),
    decreases lv.len(),
{
    if lv.len() == 0 {
        assert(lv.push(nv)[0] == nv);
        assert(lv.push(nv).drop_first() =~= Seq::<NeuronView>::empty());
        assert(encode_layer(lv.push(nv).drop_first()) == Seq::<u32>::empty());
        assert(encode_layer(lv) == Seq::<u32>::empty());
        assert(encode_layer(lv.push(nv)) =~= encode_layer(lv) + encode_neuron(nv));
    } else {
        assert(lv.push(nv).drop_first() =~= lv.drop_first().push(nv));
        lemma_encode_layer_push(lv.drop_first(), nv);
        assert(lv.push(nv)[0] == lv[0]);
        assert(encode_layer(lv.push(nv)) == encode_neuron(lv[0]) + encode_layer(
            lv.drop_first().push(nv),
        ));
        assert(encode_layer(lv.push(nv)) =~= encode_layer(lv) + encode_neuron(nv));
    }
}

/// Appending a layer appends its slice to the network's encoding.
pub proof fn lemma_encode_network_push(net: Seq<Seq<NeuronView>>, lv: Seq<NeuronView>)
    ensures
        encode_network(net.push(lv)) == encode_network(net) + encode_layer(lv),
    decreases net.len(),
{
    if net.len() == 0 {
        assert(net.push(lv)[0] == lv);
        assert(net.push(lv).drop_first() =~= Seq::<Seq<NeuronView>>::empty());
        assert(encode_network(net.push(lv).drop_first()) == Seq::<u32>::empty());
        assert(encode_network(net) == Seq::<u32>::empty());
        assert(encode_network(net.push(lv)) =~= encode_network(net) + encode_layer(lv));
    } else {
        assert(net.push(lv).drop_first() =~= net.drop_first().push(lv));
        lemma_encode_network_push(net.drop_first(), lv);
        assert(net.push(lv)[0] == net[0]);
        assert(encode_network(net.push(lv)) == encode_layer(net[0]) + encode_network(
            net.drop_first().push(lv),
        ));
        assert(encode_network(net.push(lv)) =~= encode_network(net) + encode_layer(lv));
    }
}

/// A layer of `count` neurons of arity `fan_in` encodes to exactly
/// `count * (fan_in + 1)` values.
pub proof fn lemma_encode_layer_len(lv: Seq<NeuronView>, fan_in: int)
    requires
        fan_in >= 0,
        layer_arity_ok(lv, fan_in),
    ensures
        encode_layer(lv).len() == lv.len() * (fan_in + 1),
    decreases lv.len(),
{
    if lv.len() == 0 {
        assert(0 * (fan_in + 1) == 0) by (nonlinear_arith);
    } else {
        assert(layer_arity_ok(lv.drop_first(), fan_in)) by {
            assert(forall|j: int|
                0 <= j < lv.drop_first().len() ==> lv.drop_first()[j] == lv[j + 1]);
        }
        lemma_encode_layer_len(lv.drop_first(), fan_in);
        assert(encode_neuron(lv[0]).len() == fan_in + 1);
        assert((lv.len() - 1) * (fan_in + 1) + (fan_in + 1) == lv.len() * (fan_in + 1))
            by (nonlinear_arith);
    }
}

/// Decoding inverts encoding for a single layer, whatever follows it.
pub proof fn lemma_decode_encode_layer(lv: Seq<NeuronView>, fan_in: int, rest: Seq<u32>)
    requires
        fan_in >= 0,
        layer_arity_ok(lv, fan_in),
    ensures
        decode_layer(fan_in, lv.len() as int, encode_layer(lv) + rest) == lv,
    decreases lv.len(),
{
    let w = encode_layer(lv) + rest;
    if lv.len() == 0 {
        assert(decode_layer(fan_in, 0, w) =~= lv);
    } else {
        let head = encode_neuron(lv[0]);
        assert(head.len() == 1 + fan_in);
        assert(w =~= head + (encode_layer(lv.drop_first()) + rest));
        assert(w[0] == lv[0].bias);
        assert(w.subrange(1, 1 + fan_in) =~= lv[0].weights);
        assert(decode_neuron(fan_in, w) =~= lv[0]);
        assert(w.skip(fan_in + 1) =~= encode_layer(lv.drop_first()) + rest);
        assert(layer_arity_ok(lv.drop_first(), fan_in)) by {
            assert(forall|j: int|
                0 <= j < lv.drop_first().len() ==> lv.drop_first()[j] == lv[j + 1]);
        }
        lemma_decode_encode_layer(lv.drop_first(), fan_in, rest);
        assert(decode_layer(fan_in, lv.len() as int, w) =~= lv);
    }
}

/// Decoding inverts encoding for a whole network of the topology's shape,
/// and the encoding has exactly the length the topology prescribes.
pub proof fn lemma_decode_encode_network(net: Seq<Seq<NeuronView>>, t: Seq<LayerTopology>)
    requires
        shape_matches(net, t),
    ensures
        encode_network(net).len() == encoded_len(t),
        decode_network(t, encode_network(net)) == net,
    decreases net.len(),
{
    if net.len() == 0 {
        assert(decode_network(t, encode_network(net)) =~= net);
    } else {
        let fan_in = t[0].neurons as int;
        let count = t[1].neurons as int;
        let head = encode_layer(net[0]);
        let tail = encode_network(net.drop_first());
        assert(net[0].len() == count);
        assert(layer_arity_ok(net[0], fan_in));
        lemma_encode_layer_len(net[0], fan_in);
        assert(head.len() == count * (fan_in + 1));
        assert(count * (fan_in + 1) == (fan_in + 1) * count) by (nonlinear_arith);
        let w = encode_network(net);
        assert(w == head + tail);
        // the first decoded layer is the first encoded layer
        lemma_decode_encode_layer(net[0], fan_in, tail);
        assert(decode_layer(fan_in, count, w) == net[0]);
        // the remainder decodes under the shifted topology
        assert(w.skip((fan_in + 1) * count) =~= tail);
        assert(shape_matches(net.drop_first(), t.drop_first())) by {
            assert(forall|i: int|
                0 <= i < net.drop_first().len() ==> net.drop_first()[i] == net[i + 1]);
            assert(forall|i: int|
                0 <= i < t.drop_first().len() ==> t.drop_first()[i] == t[i + 1]);
        }
        lemma_decode_encode_network(net.drop_first(), t.drop_first());
        assert(decode_network(t, w) =~= net);
    }
}

/// Encode/decode round trip: a network of some topology's shape, encoded to
/// its flat weight sequence and decoded back under the same topology, is
/// reproduced exactly, and therefore propagates every input to the very
/// same output.
pub proof fn lemma_weights_round_trip(net: Seq<Seq<NeuronView>>, t: Seq<LayerTopology>)
    requires
        shape_matches(net, t),
    ensures
        decode_network(t, encode_network(net)) == net,
        forall|inputs: Seq<u32>|
            network_output(decode_network(t, encode_network(net)), inputs) == network_output(
                net,
                inputs,
            ),
{
    lemma_decode_encode_network(net, t);
}

} // verus!
