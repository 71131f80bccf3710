//! A feedforward neural network whose construction and evaluation are
//! verified for every scalar type.
//!
//! The library never computes with scalars itself. Construction reads them
//! from a [`SampleStream`] in a fixed order: layer by layer, within a layer
//! neuron by neuron, within a neuron the bias and then the weights.
//! Evaluation combines them through the operations of an [`Arithmetic`].
//! The contracts therefore hold whatever number type and whatever sampler
//! stand behind the two.
//!
//! Each type is seen through a mathematical model: a [`SampleStream`] as the
//! sequence of samples not yet drawn, a [`Neuron`] as a [`NeuronModel`], a
//! [`Layer`] as a sequence of neuron models and a [`Network`] as a sequence
//! of layers. The module `laws` proves what holds across functions.

pub mod arith;
pub mod laws;
pub mod layer;
pub mod network;
pub mod neuron;
pub mod stream;
pub mod topology;

pub use arith::Arithmetic;
pub use layer::Layer;
pub use network::Network;
pub use neuron::{Neuron, NeuronModel};
pub use stream::SampleStream;
pub use topology::{draws_needed, LayerTopology};
