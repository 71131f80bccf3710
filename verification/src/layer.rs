use vstd::prelude::*;
use crate::arith::Arithmetic;
use crate::neuron::{drawn_neuron, Neuron, NeuronModel};
use crate::stream::SampleStream;
use crate::topology::{layer_draws, neuron_draws};

verus! {

/// Every neuron of the layer reads `width` inputs.
pub open spec fn accepts<S>(layer: Seq<NeuronModel<S>>, width: nat) -> bool {
    forall|j: int| 0 <= j < layer.len() ==> (#[trigger] layer[j]).weights.len() == width
}

/// All neurons of the layer read the same number of inputs.
pub open spec fn uniform<S>(layer: Seq<NeuronModel<S>>) -> bool {
    forall|i: int, j: int|
        0 <= i < layer.len() && 0 <= j < layer.len() ==> (#[trigger] layer[i]).weights.len() == (
        #[trigger] layer[j]).weights.len()
}

/// The layer that reading `draws` from the front gives: `output` neurons of
/// `input` weights each, neuron `j` made of the samples that follow those of
/// the neurons before it.
pub open spec fn drawn_layer<S>(draws: Seq<S>, input: nat, output: nat) -> Seq<NeuronModel<S>> {
    Seq::new(output, |j: int| drawn_neuron(draws.skip(j * neuron_draws(input)), input))
}

/// The mathematical neurons behind a vector of neurons.
pub open spec fn models<S>(neurons: Seq<Neuron<S>>) -> Seq<NeuronModel<S>> {
    Seq::new(neurons.len(), |j: int| neurons[j]@)
}

/// An ordered group of neurons that share an input width.
pub struct Layer<S> {
    neurons: Vec<Neuron<S>>,
}

impl<S> View for Layer<S> {
    type V = Seq<NeuronModel<S>>;

    closed spec fn view(&self) -> Seq<NeuronModel<S>> {
        models(self.neurons@)
    }
}

impl<S> Layer<S> {
    #[verifier::type_invariant]
    spec fn inv(&self) -> bool {
        uniform(models(self.neurons@))
    }
}

impl<S: Copy> Layer<S> {
    /// Composes a layer from neurons that all read the same number of inputs.
    pub fn new(neurons: Vec<Neuron<S>>) -> (layer: Self)
        requires
            uniform(models(neurons@)),
        ensures
            layer@ == models(neurons@),
    {
        Layer { neurons }
    }

    /// Builds a layer of `output_size` neurons, each with `input_size`
    /// weights, in index order. Neuron 0 takes all its samples from `rng`
    /// before neuron 1 takes its first.
    pub fn random(rng: &mut SampleStream<S>, input_size: usize, output_size: usize) -> (layer: Self)
        requires
            old(rng)@.len() >= layer_draws(input_size as nat, output_size as nat),
        ensures
            layer@ == drawn_layer(old(rng)@, input_size as nat, output_size as nat),
            final(rng)@ == old(rng)@.skip(
                layer_draws(input_size as nat, output_size as nat) as int,
            ),
            layer@.len() == output_size,
            accepts(layer@, input_size as nat),
    {
        let ghost per_neuron: int = input_size + 1;
        let mut neurons: Vec<Neuron<S>> = Vec::new();
        let mut j: usize = 0;
        while j < output_size
            invariant
                j <= output_size,
                per_neuron == input_size + 1,
                old(rng)@.len() >= output_size * per_neuron,
                neurons@.len() == j,
                forall|t: int|
                    0 <= t < j ==> (#[trigger] neurons@[t])@ == drawn_neuron(
                        old(rng)@.skip(t * per_neuron),
                        input_size as nat,
                    ),
                forall|t: int| 0 <= t < j ==> (#[trigger] neurons@[t])@.weights.len() == input_size,
                rng@ == old(rng)@.skip(j * per_neuron),
            decreases output_size - j,
        {
            proof {
                assert(j * per_neuron + per_neuron <= output_size * per_neuron
                    && (j + 1) * per_neuron == j * per_neuron + per_neuron
                    && 0 <= j * per_neuron) by (nonlinear_arith)
                    requires
                        0 <= j < output_size,
                        per_neuron >= 1,
                ;
            }
            let neuron: Neuron<S> = Neuron::random(input_size, rng);
            neurons.push(neuron);
            j = j + 1;
        }
        proof {
            assert(models(neurons@) =~= drawn_layer(
                old(rng)@,
                input_size as nat,
                output_size as nat,
            ));
        }
        Layer { neurons }
    }

    /// The neurons, in output order.
    pub fn neurons(&self) -> (neurons: &[Neuron<S>])
        ensures
            models(neurons@) == self@,
    {
        self.neurons.as_slice()
    }

    /// The number of neurons, which is the number of outputs.
    pub fn output_width(&self) -> (n: usize)
        ensures
            n == self@.len(),
    {
        self.neurons.len()
    }

    /// Tells whether every neuron of the layer reads `width` inputs.
    pub fn accepts_width(&self, width: usize) -> (ok: bool)
        ensures
            ok == accepts(self@, width as nat),
    {
        proof {
            use_type_invariant(self);
        }
        if self.neurons.len() == 0 {
            true
        } else {
            assert(self@[0] == self.neurons@[0]@);
            self.neurons[0].input_width() == width
        }
    }

    /// Evaluates every neuron on the same `inputs`; output `j` comes from
    /// neuron `j`.
    pub fn propogate<P: Fn(S, S) -> S, A: Fn(S, S) -> S, R: Fn(S) -> S>(
        &self,
        inputs: Vec<S>,
        ops: &Arithmetic<S, P, A, R>,
    ) -> (outputs: Vec<S>)
        requires
            accepts(self@, inputs@.len()),
            ops.total(),
        ensures
            ops.layer_maps(self@, inputs@, outputs@),
    {
        let mut outputs: Vec<S> = Vec::new();
        let mut j: usize = 0;
        while j < self.neurons.len()
            invariant
                j <= self.neurons@.len(),
                accepts(self@, inputs@.len()),
                ops.total(),
                outputs@.len() == j,
                forall|t: int| 0 <= t < j ==> ops.fires(#[trigger] self@[t], inputs@, outputs@[t]),
            decreases self.neurons@.len() - j,
        {
            assert(self@[j as int] == self.neurons@[j as int]@);
            let out: S = self.neurons[j].propogate(inputs.as_slice(), ops);
            outputs.push(out);
            j = j + 1;
        }
        outputs
    }
}

} // verus!
