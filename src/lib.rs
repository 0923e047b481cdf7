//! A small multilayer perceptron for 28x28 grayscale images: the integer side
//! of the network (shapes, labels, bookkeeping, the neuron-image layout) with
//! its contracts.

pub mod evaluation;
pub mod network;
pub mod utils;
