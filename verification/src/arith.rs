use vstd::prelude::*;
use crate::neuron::NeuronModel;

verus! {

/// The scalar operations that evaluation is built from.
///
/// Evaluation never inspects a scalar; it only combines scalars through
/// these four members. What a result is worth is therefore stated relative
/// to them: as the values that the operations may return when they are
/// applied in the prescribed order.
pub struct Arithmetic<S, P, A, R> {
    /// The value from which a sum of products starts.
    pub zero: S,
    /// The product of an input and a weight, in that order.
    pub product: P,
    /// The sum of two scalars.
    pub sum: A,
    /// The activation, applied to a neuron's biased sum.
    pub rectify: R,
}

impl<S, P: Fn(S, S) -> S, A: Fn(S, S) -> S, R: Fn(S) -> S> Arithmetic<S, P, A, R> {
    /// Every operation may be applied to every scalar.
    pub open spec fn total(&self) -> bool {
        &&& forall|x: S, y: S| call_requires(self.product, (x, y))
        &&& forall|x: S, y: S| call_requires(self.sum, (x, y))
        &&& forall|x: S| call_requires(self.rectify, (x,))
    }

    /// `after` is a value that adding the product `input * weight` to
    /// `before` may give.
    pub open spec fn adds_term(&self, input: S, weight: S, before: S, after: S) -> bool {
        exists|term: S|
            {
                &&& call_ensures(self.product, (input, weight), term)
                &&& call_ensures(self.sum, (before, term), after)
            }
    }

    /// `sums` are running sums of the products `inputs[i] * weights[i]`:
    /// the first is `zero`, and each next one adds the product at the next
    /// index to the one before it.
    pub open spec fn running_sums(&self, inputs: Seq<S>, weights: Seq<S>, sums: Seq<S>) -> bool {
        &&& sums.len() == inputs.len() + 1
        &&& sums[0] == self.zero
        &&& forall|i: int|
            0 <= i < inputs.len() ==> self.adds_term(
                inputs[i],
                weights[i],
                #[trigger] sums[i],
                sums[i + 1],
            )
    }

    /// `out` is a value that summing the products `inputs[i] * weights[i]`
    /// may give, when the sum starts at `zero` and takes the products in
    /// ascending index order.
    pub open spec fn sums_to(&self, inputs: Seq<S>, weights: Seq<S>, out: S) -> bool {
        exists|sums: Seq<S>| #[trigger] self.running_sums(inputs, weights, sums) && sums.last() == out
    }

    /// `out` is a value that the neuron formula may give: the weighted sum
    /// of the inputs, added to the bias, then rectified.
    pub open spec fn fires(&self, neuron: NeuronModel<S>, inputs: Seq<S>, out: S) -> bool {
        exists|weighted: S, raw: S|
            {
                &&& self.sums_to(inputs, neuron.weights, weighted)
                &&& call_ensures(self.sum, (neuron.bias, weighted), raw)
                &&& call_ensures(self.rectify, (raw,), out)
            }
    }

    /// `outputs` holds, for each neuron of the layer and in the layer's
    /// order, a value that the neuron may give on `inputs`.
    pub open spec fn layer_maps(
        &self,
        layer: Seq<NeuronModel<S>>,
        inputs: Seq<S>,
        outputs: Seq<S>,
    ) -> bool {
        &&& outputs.len() == layer.len()
        &&& forall|j: int|
            0 <= j < layer.len() ==> self.fires(#[trigger] layer[j], inputs, outputs[j])
    }

    /// `stages` are what runs between the layers: the first stage is what
    /// the network is given, and each next one is what the next layer may
    /// give on the stage before it.
    pub open spec fn running_stages(
        &self,
        layers: Seq<Seq<NeuronModel<S>>>,
        inputs: Seq<S>,
        stages: Seq<Seq<S>>,
    ) -> bool {
        &&& stages.len() == layers.len() + 1
        &&& stages[0] == inputs
        &&& forall|k: int|
            0 <= k < layers.len() ==> self.layer_maps(
                layers[k],
                #[trigger] stages[k],
                stages[k + 1],
            )
    }

    /// `outputs` is what the last layer may give when `inputs` is handed
    /// through the layers in order, each layer reading what the one before
    /// it gave.
    pub open spec fn network_maps(
        &self,
        layers: Seq<Seq<NeuronModel<S>>>,
        inputs: Seq<S>,
        outputs: Seq<S>,
    ) -> bool {
        exists|stages: Seq<Seq<S>>| #[trigger]
            self.running_stages(layers, inputs, stages) && stages.last() == outputs
    }
}

} // verus!
