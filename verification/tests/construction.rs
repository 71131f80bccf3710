use approx::Relative;
use neural_network::{draws_needed, Arithmetic, LayerTopology, Network, Neuron, Layer, SampleStream};
use rand::{Rng, RngCore, SeedableRng};
use rand_chacha::ChaCha8Rng;

fn topology(counts: &[usize]) -> Vec<LayerTopology> {
    counts.iter().map(|&neurons| LayerTopology { neurons }).collect()
}

fn sampled_network(rng: &mut dyn RngCore, layers: &[LayerTopology]) -> Network<f32> {
    assert!(layers.len() > 1);
    let needed: usize = draws_needed(layers).unwrap();
    let mut samples: Vec<f32> = Vec::new();
    for _ in 0..needed {
        samples.push(rng.gen_range(-1.0..=1.0));
    }
    let mut stream = SampleStream::new(samples);
    let network = Network::random(&mut stream, layers);
    assert_eq!(stream.remaining(), 0);
    network
}

fn scripted_network(samples: Vec<i64>, counts: &[usize]) -> (Network<i64>, usize) {
    let layers = topology(counts);
    assert!(layers.len() > 1);
    let mut stream = SampleStream::new(samples);
    assert!(stream.remaining() >= draws_needed(&layers).unwrap());
    let network = Network::random(&mut stream, &layers);
    (network, stream.remaining())
}

fn close(given: f32, expected: f32) -> bool {
    Relative::default().eq(&given, &expected)
}

fn all_close(given: &[f32], expected: &[f32]) -> bool {
    Relative::<[f32]>::default().eq(given, expected)
}

#[test]
fn test() {
    let mut rng = ChaCha8Rng::from_seed(Default::default());

    let network = sampled_network(
        &mut rng,
        &[
            LayerTopology { neurons: 3 },
            LayerTopology { neurons: 2 },
            LayerTopology { neurons: 1 },
        ],
    );

    assert_eq!(network.layers().len(), 2);
    assert_eq!(network.layers()[0].neurons().len(), 2);

    assert!(close(network.layers()[0].neurons()[0].bias(), -0.6255188));

    assert!(all_close(
        network.layers()[0].neurons()[0].weights(),
        &[0.67383957, 0.8181262, 0.26284897]
    ));

    assert!(close(network.layers()[0].neurons()[1].bias(), 0.5238807));

    assert!(all_close(
        network.layers()[0].neurons()[1].weights(),
        &[-0.5351684, 0.069369555, -0.7648182]
    ));

    assert_eq!(network.layers()[1].neurons().len(), 1);

    assert!(all_close(
        network.layers()[1].neurons()[0].weights(),
        &[-0.48879623, -0.19277143]
    ));
}

#[test]
fn seeded_network_propagates_by_the_formula() {
    let mut rng = ChaCha8Rng::from_seed(Default::default());
    let network = sampled_network(&mut rng, &topology(&[3, 2, 1]));
    let ops = Arithmetic {
        zero: 0.0f32,
        product: |a: f32, b: f32| a * b,
        sum: |a: f32, b: f32| a + b,
        rectify: |a: f32| a.max(0.0),
    };
    let inputs: Vec<f32> = vec![1.0, 2.0, -0.5];
    assert!(network.accepts_width(inputs.len()));
    let outputs = network.propogate(inputs.clone(), &ops);
    assert_eq!(outputs.len(), 1);

    let mut hidden: Vec<f32> = Vec::new();
    for neuron in network.layers()[0].neurons() {
        let w = neuron.weights();
        let dot = ((0.0 + inputs[0] * w[0]) + inputs[1] * w[1]) + inputs[2] * w[2];
        hidden.push((neuron.bias() + dot).max(0.0));
    }
    let last = &network.layers()[1].neurons()[0];
    let dot = (0.0 + hidden[0] * last.weights()[0]) + hidden[1] * last.weights()[1];
    let expected = (last.bias() + dot).max(0.0);
    assert_eq!(outputs[0].to_bits(), expected.to_bits());
    let between = network.layers()[0].propogate(inputs.clone(), &ops);
    assert!(all_close(&between, &[1.5531487, 0.5098608]));
    assert_eq!(hidden, between);
    assert_eq!(outputs, vec![0.0]);
}

#[test]
fn same_seed_gives_the_same_network() {
    let layers = topology(&[4, 3, 2]);
    let mut first_rng = ChaCha8Rng::seed_from_u64(42);
    let mut second_rng = ChaCha8Rng::seed_from_u64(42);
    let first = sampled_network(&mut first_rng, &layers);
    let second = sampled_network(&mut second_rng, &layers);
    assert_eq!(first.layers().len(), second.layers().len());
    for (a, b) in first.layers().iter().zip(second.layers()) {
        assert_eq!(a.neurons().len(), b.neurons().len());
        for (x, y) in a.neurons().iter().zip(b.neurons()) {
            assert_eq!(x.bias().to_bits(), y.bias().to_bits());
            let xs: Vec<u32> = x.weights().iter().map(|w| w.to_bits()).collect();
            let ys: Vec<u32> = y.weights().iter().map(|w| w.to_bits()).collect();
            assert_eq!(xs, ys);
        }
    }
}

#[test]
fn samples_beyond_those_drawn_do_not_matter() {
    let (short, short_left) = scripted_network(vec![1, 2, 3, 4, 5], &[1, 1, 1]);
    let (long, long_left) = scripted_network(vec![1, 2, 3, 4, 5, 6, 7], &[1, 1, 1]);
    assert_eq!(short_left, 1);
    assert_eq!(long_left, 3);
    for k in 0..2 {
        let a = &short.layers()[k].neurons()[0];
        let b = &long.layers()[k].neurons()[0];
        assert_eq!(a.bias(), b.bias());
        assert_eq!(a.weights(), b.weights());
    }
}

#[test]
fn network_follows_the_draw_order() {
    let samples: Vec<i64> = (1..=12).collect();
    let (network, left) = scripted_network(samples, &[3, 2, 1]);
    assert_eq!(left, 1);
    assert_eq!(network.depth(), 2);

    let first = network.layers()[0].neurons();
    assert_eq!(first.len(), 2);
    assert_eq!(first[0].bias(), 1);
    assert_eq!(first[0].weights(), &[2, 3, 4]);
    assert_eq!(first[1].bias(), 5);
    assert_eq!(first[1].weights(), &[6, 7, 8]);

    let second = network.layers()[1].neurons();
    assert_eq!(second.len(), 1);
    assert_eq!(second[0].bias(), 9);
    assert_eq!(second[0].weights(), &[10, 11]);
}

#[test]
fn network_has_the_shape_of_its_topology() {
    let counts: [usize; 5] = [5, 1, 4, 2, 3];
    let layers = topology(&counts);
    let needed: usize = draws_needed(&layers).unwrap();
    assert_eq!(needed, 1 * 6 + 4 * 2 + 2 * 5 + 3 * 3);
    let (network, left) = scripted_network((0..needed as i64).collect(), &counts);
    assert_eq!(left, 0);
    assert_eq!(network.layers().len(), counts.len() - 1);
    assert_eq!(network.depth(), counts.len() - 1);
    for k in 0..counts.len() - 1 {
        let layer = &network.layers()[k];
        assert_eq!(layer.neurons().len(), counts[k + 1]);
        assert_eq!(layer.output_width(), counts[k + 1]);
        assert!(layer.accepts_width(counts[k]));
        for neuron in layer.neurons() {
            assert_eq!(neuron.weights().len(), counts[k]);
            assert_eq!(neuron.input_width(), counts[k]);
        }
    }
    assert!(network.accepts_width(5));
    assert!(!network.accepts_width(4));
    assert_eq!(network.output_width(), 3);
}

#[test]
fn shortest_topology_gives_one_layer() {
    let (network, left) = scripted_network(vec![7, 8, 9], &[2, 1]);
    assert_eq!(left, 0);
    assert_eq!(network.depth(), 1);
    assert_eq!(network.layers()[0].neurons()[0].bias(), 7);
    assert_eq!(network.layers()[0].neurons()[0].weights(), &[8, 9]);
}

#[test]
fn empty_layer_draws_nothing() {
    let (network, left) = scripted_network(vec![1, 2, 3], &[3, 0, 2]);
    assert_eq!(left, 1);
    assert_eq!(network.depth(), 2);
    assert_eq!(network.layers()[0].neurons().len(), 0);
    assert_eq!(network.layers()[1].neurons().len(), 2);
    assert_eq!(network.layers()[1].neurons()[0].bias(), 1);
    assert_eq!(network.layers()[1].neurons()[0].weights().len(), 0);
    assert_eq!(network.layers()[1].neurons()[1].bias(), 2);
    assert!(network.accepts_width(3));
    assert!(network.accepts_width(8));
}

#[test]
fn neuron_draws_bias_then_weights() {
    let mut stream = SampleStream::new(vec![10i64, 20, 30, 40, 50]);
    let neuron = Neuron::random(3, &mut stream);
    assert_eq!(neuron.bias(), 10);
    assert_eq!(neuron.weights(), &[20, 30, 40]);
    assert_eq!(stream.remaining(), 1);
    assert_eq!(stream.draw(), 50);
}

#[test]
fn drawing_weights_first_gives_another_neuron() {
    let samples: Vec<i64> = vec![10, 20, 30, 40];
    let mut stream = SampleStream::new(samples.clone());
    let neuron = Neuron::random(3, &mut stream);
    let swapped = Neuron::new(samples[3], samples[0..3].to_vec());
    assert_ne!(neuron.bias(), swapped.bias());
    assert_ne!(neuron.weights(), swapped.weights());
}

#[test]
fn neuron_without_inputs_draws_only_its_bias() {
    let mut stream = SampleStream::new(vec![3i64, 4]);
    let neuron = Neuron::random(0, &mut stream);
    assert_eq!(neuron.bias(), 3);
    assert_eq!(neuron.weights().len(), 0);
    assert_eq!(stream.remaining(), 1);
}

#[test]
fn layer_draws_neuron_by_neuron() {
    let mut stream = SampleStream::new((1..=10i64).collect());
    let layer = Layer::random(&mut stream, 2, 3);
    assert_eq!(layer.output_width(), 3);
    assert!(layer.accepts_width(2));
    assert!(!layer.accepts_width(3));
    assert_eq!(layer.neurons()[0].bias(), 1);
    assert_eq!(layer.neurons()[0].weights(), &[2, 3]);
    assert_eq!(layer.neurons()[1].bias(), 4);
    assert_eq!(layer.neurons()[1].weights(), &[5, 6]);
    assert_eq!(layer.neurons()[2].bias(), 7);
    assert_eq!(layer.neurons()[2].weights(), &[8, 9]);
    assert_eq!(stream.remaining(), 1);
}

#[test]
fn layer_is_composed_from_given_neurons() {
    let layer = Layer::new(vec![Neuron::new(1i64, vec![2, 3]), Neuron::new(4, vec![5, 6])]);
    assert_eq!(layer.output_width(), 2);
    assert!(layer.accepts_width(2));
    assert_eq!(layer.neurons()[1].bias(), 4);
    assert_eq!(layer.neurons()[1].weights(), &[5, 6]);
}

#[test]
fn stream_hands_out_samples_in_order() {
    let mut stream = SampleStream::new(vec![5u8, 6, 7]);
    assert_eq!(stream.remaining(), 3);
    assert_eq!(stream.draw(), 5);
    assert_eq!(stream.draw(), 6);
    assert_eq!(stream.remaining(), 1);
    assert_eq!(stream.draw(), 7);
    assert_eq!(stream.remaining(), 0);
}

#[test]
fn draws_are_counted_layer_by_layer() {
    assert_eq!(draws_needed(&topology(&[3, 2, 1])), Some(2 * 4 + 1 * 3));
    assert_eq!(draws_needed(&topology(&[2, 1])), Some(3));
    assert_eq!(draws_needed(&topology(&[0, 4])), Some(4));
    assert_eq!(draws_needed(&topology(&[4, 0])), Some(0));
    assert_eq!(draws_needed(&topology(&[7])), Some(0));
    assert_eq!(draws_needed(&topology(&[])), Some(0));
}

#[test]
fn draw_count_that_does_not_fit_is_reported() {
    assert_eq!(draws_needed(&topology(&[usize::MAX, 1])), None);
    assert_eq!(draws_needed(&topology(&[usize::MAX, 0])), Some(0));
    assert_eq!(draws_needed(&topology(&[usize::MAX - 1, 1])), Some(usize::MAX));
    assert_eq!(draws_needed(&topology(&[usize::MAX - 1, 1, 1])), None);
    assert_eq!(draws_needed(&topology(&[usize::MAX / 2, 3])), None);
    assert_eq!(draws_needed(&topology(&[1, 1, usize::MAX])), None);
}
