use vstd::prelude::*;

verus! {

/// The neuron count at one boundary of a network: the input width first,
/// then the width of each layer in turn.
pub struct LayerTopology {
    pub neurons: usize,
}

/// The neuron counts of a topology as mathematical numbers.
pub open spec fn widths(layers: Seq<LayerTopology>) -> Seq<nat> {
    Seq::new(layers.len(), |k: int| layers[k].neurons as nat)
}

/// Samples that one neuron with `input` weights consumes: its bias and one
/// sample for each weight.
pub open spec fn neuron_draws(input: nat) -> nat {
    input + 1
}

/// Samples that a layer of `output` neurons, each with `input` weights,
/// consumes.
pub open spec fn layer_draws(input: nat, output: nat) -> nat {
    output * neuron_draws(input)
}

/// Samples consumed by the first `k` layers of a network with the given
/// boundary widths, that is, the offset at which layer `k` starts to draw.
pub open spec fn draws_before(widths: Seq<nat>, k: nat) -> nat
    decreases k,
{
    if k == 0 {
        0
    } else {
        draws_before(widths, (k - 1) as nat) + layer_draws(widths[k - 1], widths[k as int])
    }
}

/// The number of layers between the given boundary widths: one for each
/// adjacent pair.
pub open spec fn layer_count(widths: Seq<nat>) -> nat {
    if widths.len() == 0 {
        0
    } else {
        (widths.len() - 1) as nat
    }
}

/// Samples consumed by the whole network with the given boundary widths.
pub open spec fn network_draws(widths: Seq<nat>) -> nat {
    draws_before(widths, layer_count(widths))
}

/// The offsets at which the layers start to draw never decrease.
pub proof fn lemma_draws_before_monotonic(widths: Seq<nat>, i: nat, j: nat)
    requires
        i <= j,
    ensures
        draws_before(widths, i) <= draws_before(widths, j),
    decreases j,
{
    if i < j {
        lemma_draws_before_monotonic(widths, i, (j - 1) as nat);
    }
}

/// Counts the samples that a network of the given topology consumes, or
/// reports that the count does not fit in a `usize`.
pub fn draws_needed(layers: &[LayerTopology]) -> (count: Option<usize>)
    ensures
        match count {
            Some(n) => n == network_draws(widths(layers@)),
            None => network_draws(widths(layers@)) > usize::MAX,
        },
{
    let len: usize = layers.len();
    if len == 0 {
        return Some(0);
    }
    let ghost w = widths(layers@);
    let mut total: usize = 0;
    let mut k: usize = 1;
    while k < len
        invariant
            len == layers@.len(),
            w == widths(layers@),
            1 <= k <= len,
            total == draws_before(w, (k - 1) as nat),
        decreases len - k,
    {
        let input: usize = layers[k - 1].neurons;
        let output: usize = layers[k].neurons;
        proof {
            lemma_draws_before_monotonic(w, k as nat, (len - 1) as nat);
        }
        if output != 0 {
            let layer: Option<usize> = match input.checked_add(1) {
                Some(per_neuron) => output.checked_mul(per_neuron),
                None => None,
            };
            assert(layer is None ==> layer_draws(input as nat, output as nat) > usize::MAX)
                by (nonlinear_arith)
                requires
                    layer is None ==> input + 1 > usize::MAX || output * (input + 1) > usize::MAX,
                    output >= 1,
                    layer_draws(input as nat, output as nat) == output * (input + 1),
            ;
            let sum: Option<usize> = match layer {
                Some(n) => total.checked_add(n),
                None => None,
            };
            match sum {
                Some(n) => {
                    total = n;
                },
                None => {
                    return None;
                },
            }
        } else {
            assert(layer_draws(input as nat, output as nat) == 0) by (nonlinear_arith)
                requires
                    output == 0,
                    layer_draws(input as nat, output as nat) == output * (input + 1),
            ;
        }
        k = k + 1;
    }
    Some(total)
}

} // verus!
