use vstd::prelude::*;
use crate::arith::Arithmetic;
use crate::layer::{accepts, drawn_layer, Layer};
use crate::neuron::NeuronModel;
use crate::stream::SampleStream;
use crate::topology::{
    draws_before,
    layer_count,
    lemma_draws_before_monotonic,
    network_draws,
    widths,
    LayerTopology,
};

verus! {

/// Each layer after the first reads exactly what the layer before it gives.
pub open spec fn chained<S>(layers: Seq<Seq<NeuronModel<S>>>) -> bool {
    forall|k: int| 1 <= k < layers.len() ==> accepts(#[trigger] layers[k], layers[k - 1].len())
}

/// There is a first layer, and it reads `width` inputs.
pub open spec fn reads<S>(layers: Seq<Seq<NeuronModel<S>>>, width: nat) -> bool {
    layers.len() >= 1 && accepts(layers[0], width)
}

/// The layers follow the boundary widths: one layer per adjacent pair, layer
/// `k` with `widths[k + 1]` neurons of `widths[k]` weights each.
pub open spec fn has_shape<S>(layers: Seq<Seq<NeuronModel<S>>>, widths: Seq<nat>) -> bool {
    &&& layers.len() == layer_count(widths)
    &&& forall|k: int|
        0 <= k < layers.len() ==> (#[trigger] layers[k]).len() == widths[k + 1] && accepts(
            layers[k],
            widths[k],
        )
}

/// The network that reading `draws` from the front gives: layer `k` is made
/// of the samples that follow those of the layers before it.
pub open spec fn drawn_network<S>(draws: Seq<S>, widths: Seq<nat>) -> Seq<Seq<NeuronModel<S>>> {
    Seq::new(
        layer_count(widths),
        |k: int|
            drawn_layer(draws.skip(draws_before(widths, k as nat) as int), widths[k], widths[k + 1]),
    )
}

/// The mathematical layers behind a vector of layers.
pub open spec fn layer_models<S>(layers: Seq<Layer<S>>) -> Seq<Seq<NeuronModel<S>>> {
    Seq::new(layers.len(), |k: int| layers[k]@)
}

/// An ordered chain of layers, each feeding the next.
pub struct Network<S> {
    layers: Vec<Layer<S>>,
}

impl<S> View for Network<S> {
    type V = Seq<Seq<NeuronModel<S>>>;

    closed spec fn view(&self) -> Seq<Seq<NeuronModel<S>>> {
        layer_models(self.layers@)
    }
}

impl<S> Network<S> {
    #[verifier::type_invariant]
    spec fn inv(&self) -> bool {
        &&& self.layers@.len() >= 1
        &&& chained(layer_models(self.layers@))
    }
}

impl<S: Copy> Network<S> {
    /// Builds one layer per adjacent pair of topology entries, in ascending
    /// order, all from the one stream: layer 0 takes all its samples before
    /// layer 1 takes its first, and within a layer each neuron takes its
    /// bias and then its weights.
    pub fn random(rng: &mut SampleStream<S>, layers: &[LayerTopology]) -> (network: Self)
        requires
            layers@.len() > 1,
            old(rng)@.len() >= network_draws(widths(layers@)),
        ensures
            network@ == drawn_network(old(rng)@, widths(layers@)),
            final(rng)@ == old(rng)@.skip(network_draws(widths(layers@)) as int),
            has_shape(network@, widths(layers@)),
    {
        let ghost w = widths(layers@);
        let count: usize = layers.len() - 1;
        let mut built: Vec<Layer<S>> = Vec::new();
        let mut k: usize = 0;
        while k < count
            invariant
                k <= count,
                count == layers@.len() - 1,
                w == widths(layers@),
                old(rng)@.len() >= network_draws(w),
                built@.len() == k,
                forall|t: int|
                    0 <= t < k ==> (#[trigger] built@[t])@ == drawn_layer(
                        old(rng)@.skip(draws_before(w, t as nat) as int),
                        w[t],
                        w[t + 1],
                    ),
                forall|t: int|
                    0 <= t < k ==> (#[trigger] built@[t])@.len() == w[t + 1] && accepts(
                        built@[t]@,
                        w[t],
                    ),
                rng@ == old(rng)@.skip(draws_before(w, k as nat) as int),
            decreases count - k,
        {
            proof {
                lemma_draws_before_monotonic(w, (k + 1) as nat, count as nat);
            }
            let layer: Layer<S> = Layer::random(rng, layers[k].neurons, layers[k + 1].neurons);
            built.push(layer);
            k = k + 1;
        }
        Network { layers: built }
    }

    /// The layers, first to last.
    pub fn layers(&self) -> (layers: &[Layer<S>])
        ensures
            layer_models(layers@) == self@,
    {
        self.layers.as_slice()
    }

    /// The number of layers, which is never zero.
    pub fn depth(&self) -> (n: usize)
        ensures
            n == self@.len(),
            n >= 1,
    {
        proof {
            use_type_invariant(self);
        }
        self.layers.len()
    }

    /// Tells whether the first layer reads `width` inputs.
    pub fn accepts_width(&self, width: usize) -> (ok: bool)
        ensures
            ok == reads(self@, width as nat),
    {
        proof {
            use_type_invariant(self);
        }
        self.layers[0].accepts_width(width)
    }

    /// The number of values that `propogate` returns: the width of the last
    /// layer.
    pub fn output_width(&self) -> (n: usize)
        ensures
            self@.len() >= 1,
            n == self@.last().len(),
    {
        proof {
            use_type_invariant(self);
        }
        self.layers[self.layers.len() - 1].output_width()
    }

    /// Hands `inputs` through every layer in order: each layer reads what
    /// the layer before it gave, and the last layer's outputs are returned.
    pub fn propogate<P: Fn(S, S) -> S, A: Fn(S, S) -> S, R: Fn(S) -> S>(
        &self,
        inputs: Vec<S>,
        ops: &Arithmetic<S, P, A, R>,
    ) -> (outputs: Vec<S>)
        requires
            reads(self@, inputs@.len()),
            ops.total(),
        ensures
            ops.network_maps(self@, inputs@, outputs@),
            outputs@.len() == self@.last().len(),
    {
        proof {
            use_type_invariant(self);
        }
        let ghost given = inputs@;
        let ghost mut stages: Seq<Seq<S>> = seq![given];
        let mut current: Vec<S> = inputs;
        let mut k: usize = 0;
        while k < self.layers.len()
            invariant
                k <= self.layers@.len(),
                self.layers@.len() >= 1,
                chained(self@),
                accepts(self@[0], given.len()),
                ops.total(),
                ops.running_stages(self@.take(k as int), given, stages),
                stages.last() == current@,
                k > 0 ==> current@.len() == self@[k - 1].len(),
            decreases self.layers@.len() - k,
        {
            assert(self@[k as int] == self.layers@[k as int]@);
            current = self.layers[k].propogate(current, ops);
            proof {
                let grown = stages.push(current@);
                assert forall|t: int| 0 <= t < k + 1 implies ops.layer_maps(
                    self@.take(k + 1)[t],
                    #[trigger] grown[t],
                    grown[t + 1],
                ) by {
                    if t < k {
                    }
                }
                stages = grown;
            }
            k = k + 1;
        }
        proof {
            assert(self@.take(k as int) =~= self@);
        }
        current
    }
}

} // verus!
