//! A fully connected feed-forward neural network with a hand-written
//! backward pass, an Adam optimiser, elastic-net and max-norm regularisation,
//! inverted dropout, mini-batches, learning-rate schedules and early stopping.
//!
//! The engine is generic over the numbers it computes with (see [`scalar`])
//! and comes with a fixed-point scalar of its own (see [`fixed`]). Every
//! function that changes a network says what it makes of the network's
//! mathematical model ([`network::state::NetworkModel`]): the contract of
//! `forward`, `backward`, `Batch::update` and the functions built on them is
//! an equation between the model after the call and a function of the model
//! before it. Where chance has a part, in the initial weights, in dropout
//! and in the choice of samples to show, the contracts say what holds for
//! every outcome.

pub mod activations;
pub mod dataset;
pub mod fixed;
pub mod monitor;
pub mod network;
pub mod random;
pub mod scalar;
