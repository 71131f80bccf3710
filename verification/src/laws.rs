use vstd::prelude::*;
use crate::arith::Arithmetic;
use crate::layer::{accepts, drawn_layer};
use crate::network::{drawn_network, has_shape, reads};
use crate::neuron::{drawn_neuron, NeuronModel};
use crate::topology::{
    draws_before,
    layer_count,
    layer_draws,
    lemma_draws_before_monotonic,
    network_draws,
    neuron_draws,
};

verus! {

/// A neuron depends on no sample beyond the `input + 1` that it draws.
pub proof fn lemma_neuron_reads_its_draws<S>(a: Seq<S>, b: Seq<S>, input: nat)
    requires
        a.len() >= neuron_draws(input),
        b.len() >= neuron_draws(input),
        a.take(neuron_draws(input) as int) == b.take(neuron_draws(input) as int),
    ensures
        drawn_neuron(a, input) == drawn_neuron(b, input),
{
    let n = neuron_draws(input) as int;
    assert forall|i: int| 0 <= i < n implies a[i] == b[i] by {
        assert(a.take(n)[i] == b.take(n)[i]);
    }
    assert(a.subrange(1, n) =~= b.subrange(1, n));
}

/// A layer depends on no sample beyond those that its neurons draw.
pub proof fn lemma_layer_reads_its_draws<S>(a: Seq<S>, b: Seq<S>, input: nat, output: nat)
    requires
        a.len() >= layer_draws(input, output),
        b.len() >= layer_draws(input, output),
        a.take(layer_draws(input, output) as int) == b.take(layer_draws(input, output) as int),
    ensures
        drawn_layer(a, input, output) == drawn_layer(b, input, output),
{
    let per = neuron_draws(input) as int;
    let all = layer_draws(input, output) as int;
    assert forall|i: int| 0 <= i < all implies a[i] == b[i] by {
        assert(a.take(all)[i] == b.take(all)[i]);
    }
    let left = drawn_layer(a, input, output);
    let right = drawn_layer(b, input, output);
    assert forall|j: int| 0 <= j < output implies #[trigger] left[j] == right[j] by {
        assert(0 <= j * per && j * per + per <= all) by (nonlinear_arith)
            requires
                0 <= j < output,
                per >= 1,
                all == output * per,
        ;
        assert(a.skip(j * per).take(per) =~= b.skip(j * per).take(per));
        lemma_neuron_reads_its_draws(a.skip(j * per), b.skip(j * per), input);
    }
}

/// Construction is a function of the topology and of the samples that it
/// draws: two streams that agree on the first `network_draws(widths)`
/// samples give the same network, bias for bias and weight for weight.
pub proof fn lemma_random_is_deterministic<S>(a: Seq<S>, b: Seq<S>, widths: Seq<nat>)
    requires
        a.len() >= network_draws(widths),
        b.len() >= network_draws(widths),
        a.take(network_draws(widths) as int) == b.take(network_draws(widths) as int),
    ensures
        drawn_network(a, widths) == drawn_network(b, widths),
{
    let all = network_draws(widths) as int;
    let left = drawn_network(a, widths);
    let right = drawn_network(b, widths);
    assert forall|k: int| 0 <= k < layer_count(widths) implies #[trigger] left[k] == right[k] by {
        let start = draws_before(widths, k as nat) as int;
        let size = layer_draws(widths[k], widths[k + 1]) as int;
        lemma_draws_before_monotonic(widths, (k + 1) as nat, layer_count(widths));
        assert forall|i: int| 0 <= i < size implies a.skip(start)[i] == b.skip(start)[i] by {
            assert(a.take(all)[start + i] == b.take(all)[start + i]);
        }
        assert(a.skip(start).take(size) =~= b.skip(start).take(size));
        lemma_layer_reads_its_draws(a.skip(start), b.skip(start), widths[k], widths[k + 1]);
    }
}

/// A network drawn for a topology has that topology's shape: one layer per
/// adjacent pair of widths, layer `k` with `widths[k + 1]` neurons of
/// `widths[k]` weights each.
pub proof fn lemma_drawn_network_has_shape<S>(draws: Seq<S>, widths: Seq<nat>)
    requires
        draws.len() >= network_draws(widths),
    ensures
        has_shape(drawn_network(draws, widths), widths),
{
    let net = drawn_network(draws, widths);
    assert forall|k: int| 0 <= k < net.len() implies (#[trigger] net[k]).len() == widths[k + 1]
        && accepts(net[k], widths[k]) by {
        let start = draws_before(widths, k as nat) as int;
        let per = neuron_draws(widths[k]) as int;
        let size = layer_draws(widths[k], widths[k + 1]) as int;
        lemma_draws_before_monotonic(widths, (k + 1) as nat, layer_count(widths));
        assert forall|j: int| 0 <= j < net[k].len() implies (#[trigger] net[k][j]).weights.len()
            == widths[k] by {
            assert(0 <= j * per && j * per + per <= size) by (nonlinear_arith)
                requires
                    0 <= j < widths[k + 1],
                    per >= 1,
                    size == widths[k + 1] * per,
            ;
        }
    }
}

/// Evaluating a network of a topology's shape on as many inputs as the
/// topology's first entry is allowed, and gives as many outputs as its last
/// entry.
pub proof fn lemma_propagation_keeps_dimensions<S, P: Fn(S, S) -> S, A: Fn(S, S) -> S, R: Fn(S) -> S>(
    ops: Arithmetic<S, P, A, R>,
    layers: Seq<Seq<NeuronModel<S>>>,
    widths: Seq<nat>,
    inputs: Seq<S>,
    outputs: Seq<S>,
)
    requires
        widths.len() > 1,
        has_shape(layers, widths),
        inputs.len() == widths[0],
        ops.network_maps(layers, inputs, outputs),
    ensures
        reads(layers, inputs.len()),
        outputs.len() == widths.last(),
{
    let stages = choose|stages: Seq<Seq<S>>| #[trigger]
        ops.running_stages(layers, inputs, stages) && stages.last() == outputs;
    let last = layers.len() - 1;
    assert(ops.layer_maps(layers[last], stages[last], stages[last + 1]));
}

/// The neuron that `draws` would give if the weights were drawn before the
/// bias.
pub open spec fn drawn_neuron_weights_first<S>(draws: Seq<S>, input: nat) -> NeuronModel<S> {
    NeuronModel { bias: draws[input as int], weights: draws.subrange(0, input as int) }
}

/// The order of the draws matters: unless the `input + 1` samples that a
/// neuron draws are all equal, drawing the weights before the bias gives
/// another neuron. Sample `i` and its successor are two that differ.
pub proof fn lemma_draw_order_matters<S>(draws: Seq<S>, input: nat, i: int)
    requires
        draws.len() >= neuron_draws(input),
        0 <= i < input,
        draws[i] != draws[i + 1],
    ensures
        drawn_neuron(draws, input) != drawn_neuron_weights_first(draws, input),
{
    let bias_first = drawn_neuron(draws, input);
    let weights_first = drawn_neuron_weights_first(draws, input);
    assert(weights_first.weights[i] == draws[i]);
}

} // verus!
