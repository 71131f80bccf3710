use vstd::prelude::*;
use crate::arith::Arithmetic;
use crate::stream::SampleStream;
use crate::topology::neuron_draws;

verus! {

/// What a neuron is, mathematically: a bias and one weight per input.
pub struct NeuronModel<S> {
    pub bias: S,
    pub weights: Seq<S>,
}

/// A single computational node.
pub struct Neuron<S> {
    bias: S,
    weights: Vec<S>,
}

impl<S> View for Neuron<S> {
    type V = NeuronModel<S>;

    closed spec fn view(&self) -> NeuronModel<S> {
        NeuronModel { bias: self.bias, weights: self.weights@ }
    }
}

/// The neuron that reading `draws` from the front gives: the first sample is
/// the bias, the `input` samples after it are the weights in index order.
pub open spec fn drawn_neuron<S>(draws: Seq<S>, input: nat) -> NeuronModel<S> {
    NeuronModel { bias: draws[0], weights: draws.subrange(1, neuron_draws(input) as int) }
}

impl<S: Copy> Neuron<S> {
    /// Composes a neuron from a bias and its weights.
    pub fn new(bias: S, weights: Vec<S>) -> (neuron: Self)
        ensures
            neuron@ == (NeuronModel { bias, weights: weights@ }),
    {
        Neuron { bias, weights }
    }

    /// Builds a neuron with `input_size` weights from the next
    /// `input_size + 1` samples of `rng`: the bias first, then the weights
    /// in ascending index order.
    pub fn random(input_size: usize, rng: &mut SampleStream<S>) -> (neuron: Self)
        requires
            old(rng)@.len() >= neuron_draws(input_size as nat),
        ensures
            neuron@ == drawn_neuron(old(rng)@, input_size as nat),
            final(rng)@ == old(rng)@.skip(neuron_draws(input_size as nat) as int),
    {
        let bias: S = rng.draw();
        let mut weights: Vec<S> = Vec::new();
        let mut i: usize = 0;
        while i < input_size
            invariant
                i <= input_size,
                old(rng)@.len() >= input_size + 1,
                weights@ == old(rng)@.subrange(1, i + 1),
                rng@ == old(rng)@.skip(i + 1),
            decreases input_size - i,
        {
            let weight: S = rng.draw();
            weights.push(weight);
            i = i + 1;
        }
        Neuron { bias, weights }
    }

    /// The bias.
    pub fn bias(&self) -> (bias: S)
        ensures
            bias == self@.bias,
    {
        self.bias
    }

    /// The weights, one per input, in input order.
    pub fn weights(&self) -> (weights: &[S])
        ensures
            weights@ == self@.weights,
    {
        self.weights.as_slice()
    }

    /// The number of inputs that the neuron reads.
    pub fn input_width(&self) -> (n: usize)
        ensures
            n == self@.weights.len(),
    {
        self.weights.len()
    }

    /// Evaluates the neuron on `inputs`: the weighted sum of the inputs is
    /// added to the bias and the result is rectified.
    pub fn propogate<P: Fn(S, S) -> S, A: Fn(S, S) -> S, R: Fn(S) -> S>(
        &self,
        inputs: &[S],
        ops: &Arithmetic<S, P, A, R>,
    ) -> (out: S)
        requires
            inputs@.len() == self@.weights.len(),
            ops.total(),
        ensures
            ops.fires(self@, inputs@, out),
    {
        let mut weighted: S = ops.zero;
        let ghost mut sums: Seq<S> = seq![ops.zero];
        let mut i: usize = 0;
        while i < inputs.len()
            invariant
                i <= inputs@.len(),
                inputs@.len() == self.weights@.len(),
                ops.total(),
                ops.running_sums(inputs@.take(i as int), self.weights@.take(i as int), sums),
                sums.last() == weighted,
            decreases inputs@.len() - i,
        {
            let term: S = (ops.product)(inputs[i], self.weights[i]);
            let next: S = (ops.sum)(weighted, term);
            proof {
                let grown = sums.push(next);
                assert forall|t: int| 0 <= t < i + 1 implies ops.adds_term(
                    inputs@.take(i + 1)[t],
                    self.weights@.take(i + 1)[t],
                    #[trigger] grown[t],
                    grown[t + 1],
                ) by {
                    if t < i {
                        assert(ops.adds_term(
                            inputs@.take(i as int)[t],
                            self.weights@.take(i as int)[t],
                            sums[t],
                            sums[t + 1],
                        ));
                    }
                }
                sums = grown;
            }
            weighted = next;
            i = i + 1;
        }
        proof {
            assert(inputs@.take(i as int) =~= inputs@);
            assert(self.weights@.take(i as int) =~= self.weights@);
        }
        let raw: S = (ops.sum)(self.bias, weighted);
        let out: S = (ops.rectify)(raw);
        proof {
            assert(call_ensures(ops.sum, (self@.bias, weighted), raw));
        }
        out
    }
}

} // verus!
