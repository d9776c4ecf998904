//! The network's state and its mathematical model.

use vstd::prelude::*;
use crate::activations::Activation;
use crate::network::optimizations::adam::{Adam, AdamHyperParams};
use crate::network::optimizations::batch::Batch;
use crate::network::optimizations::early_stopping::EarlyStopping;
use crate::network::optimizations::learning_rate::LearningRate;
use crate::network::optimizations::regularization::{Dropout, Regularization};
use crate::network::utils::{
    rows,
    planes,
    layered,
    weight_shaped,
    all_equal,
    all_equal_2d,
    all_equal_3d,
    all_initial_weights,
    zeros_2d_vec,
    random_3d_vec,
    is_layered,
    is_weight_shaped,
};
use crate::random::thread_rng;
use crate::scalar::{Scalar, spec_zero, spec_one};

verus! {

/// Why a network could not be made.
#[derive(Clone, Copy, Debug, PartialEq, Eq)]
pub enum NetworkError {
    /// A layer was given an activation that the catalog does not know.
    UnknownActivation,
    /// The number of activations is not the number of layers after the input
    /// layer.
    LayerActivationCountMismatch,
    /// The number of stored parameters is not the number of biases and
    /// weights of the composition.
    ParameterCountMismatch,
}

/// What is fixed before training starts.
pub struct HyperParams<S> {
    /// The number of neurons of each layer, the input layer first.
    pub composition: Vec<usize>,
    /// One activation for each layer after the input layer.
    pub activations: Vec<Activation>,
    pub regularization: Regularization<S>,
    pub learning_rate: LearningRate<S>,
    pub optimizer: AdamHyperParams<S>,
    /// The number of samples per mini-batch.
    pub batch_size: usize,
    pub early_stopping: EarlyStopping<S>,
}

/// A network: its parameters, what the last forward and backward pass left
/// behind, the state of its optimiser and mini-batch, and its settings.
pub struct Network<S> {
    /// Per layer, one row of incoming weights per neuron.
    pub weights: Vec<Vec<Vec<S>>>,
    pub biases: Vec<Vec<S>>,
    /// The weighted sums of the last forward pass, before activation.
    pub net_inputs: Vec<Vec<S>>,
    /// The activated outputs of the last forward pass.
    pub outputs: Vec<Vec<S>>,
    /// The error signal of each neuron from the last backward pass.
    pub costs: Vec<Vec<S>>,
    pub optimizer: Adam<S>,
    /// One factor per neuron of every layer, the input layer included.
    pub dropout_mask: Vec<Vec<S>>,
    pub batch: Batch<S>,
    /// The validation accuracy after each epoch so far.
    pub performance: Vec<S>,
    pub hyper_params: HyperParams<S>,
}

/// The network as mathematics: every tensor a sequence, every setting a value.
pub struct NetworkModel<S> {
    pub composition: Seq<usize>,
    pub activations: Seq<Activation>,
    pub regularization: Regularization<S>,
    pub learning_rate: LearningRate<S>,
    pub adam: AdamHyperParams<S>,
    pub batch_size: usize,
    pub early_stopping: EarlyStopping<S>,
    pub weights: Seq<Seq<Seq<S>>>,
    pub biases: Seq<Seq<S>>,
    pub net_inputs: Seq<Seq<S>>,
    pub outputs: Seq<Seq<S>>,
    pub costs: Seq<Seq<S>>,
    pub iteration: i32,
    pub moment_1_weights: Seq<Seq<Seq<S>>>,
    pub moment_1_biases: Seq<Seq<S>>,
    pub moment_2_weights: Seq<Seq<Seq<S>>>,
    pub moment_2_biases: Seq<Seq<S>>,
    pub dropout_mask: Seq<Seq<S>>,
    pub weight_updates: Seq<Seq<Seq<S>>>,
    pub bias_updates: Seq<Seq<S>>,
    pub performance: Seq<S>,
}

impl<S> NetworkModel<S> {
    /// The number of layers after the input layer.
    pub open spec fn depth(self) -> int {
        self.weights.len() as int
    }

    /// Every tensor has the shape that the composition prescribes, and every
    /// layer has its activation.
    pub open spec fn wf(self) -> bool {
        &&& self.activations.len() + 1 == self.composition.len()
        &&& weight_shaped(self.weights, self.composition)
        &&& layered(self.biases, self.composition, 1)
        &&& layered(self.net_inputs, self.composition, 1)
        &&& layered(self.outputs, self.composition, 1)
        &&& layered(self.costs, self.composition, 1)
        &&& weight_shaped(self.moment_1_weights, self.composition)
        &&& layered(self.moment_1_biases, self.composition, 1)
        &&& weight_shaped(self.moment_2_weights, self.composition)
        &&& layered(self.moment_2_biases, self.composition, 1)
        &&& layered(self.dropout_mask, self.composition, 0)
        &&& weight_shaped(self.weight_updates, self.composition)
        &&& layered(self.bias_updates, self.composition, 1)
    }
}

impl<S> View for Network<S> {
    type V = NetworkModel<S>;

    open spec fn view(&self) -> NetworkModel<S> {
        NetworkModel {
            composition: self.hyper_params.composition@,
            activations: self.hyper_params.activations@,
            regularization: self.hyper_params.regularization,
            learning_rate: self.hyper_params.learning_rate,
            adam: self.hyper_params.optimizer,
            batch_size: self.hyper_params.batch_size,
            early_stopping: self.hyper_params.early_stopping,
            weights: planes(self.weights),
            biases: rows(self.biases),
            net_inputs: rows(self.net_inputs),
            outputs: rows(self.outputs),
            costs: rows(self.costs),
            iteration: self.optimizer.iteration,
            moment_1_weights: planes(self.optimizer.moment_1.weights),
            moment_1_biases: rows(self.optimizer.moment_1.biases),
            moment_2_weights: planes(self.optimizer.moment_2.weights),
            moment_2_biases: rows(self.optimizer.moment_2.biases),
            dropout_mask: rows(self.dropout_mask),
            weight_updates: planes(self.batch.weight_updates),
            bias_updates: rows(self.batch.bias_updates),
            performance: self.performance@,
        }
    }
}

impl<S> Network<S> {
    /// Every tensor has the shape that the composition prescribes.
    pub open spec fn wf(&self) -> bool {
        self@.wf()
    }
}

impl<S: Scalar> NetworkModel<S> {
    /// The state of a new network: it is untrained and its biases are zero.
    pub open spec fn is_fresh(self) -> bool {
        &&& self.is_untrained()
        &&& all_equal_2d(self.biases, spec_zero::<S>())
    }

    /// The state of a network that has not been trained yet, whatever its
    /// weights and biases: no iteration done, no accuracy recorded, every
    /// other tensor zero but the output layer's dropout mask, which is one.
    pub open spec fn is_untrained(self) -> bool {
        &&& self.iteration == 0
        &&& self.performance.len() == 0
        &&& all_equal_2d(self.net_inputs, spec_zero::<S>())
        &&& all_equal_2d(self.outputs, spec_zero::<S>())
        &&& all_equal_2d(self.costs, spec_zero::<S>())
        &&& all_equal_3d(self.moment_1_weights, spec_zero::<S>())
        &&& all_equal_2d(self.moment_1_biases, spec_zero::<S>())
        &&& all_equal_3d(self.moment_2_weights, spec_zero::<S>())
        &&& all_equal_2d(self.moment_2_biases, spec_zero::<S>())
        &&& all_equal_3d(self.weight_updates, spec_zero::<S>())
        &&& all_equal_2d(self.bias_updates, spec_zero::<S>())
        &&& forall|layer: int|
            0 <= layer && layer + 1 < self.dropout_mask.len() ==> all_equal(
                #[trigger] self.dropout_mask[layer],
                spec_zero::<S>(),
            )
        &&& self.dropout_mask.len() > 0 ==> all_equal(
            self.dropout_mask[self.dropout_mask.len() - 1],
            spec_one::<S>(),
        )
    }
}

/// In a well-formed network the weights of layer `layer` form a matrix with
/// one row per neuron of the layer and one column per neuron of the layer
/// before it, and the layer's biases, net inputs, outputs and costs have one
/// entry per neuron of the layer.
pub proof fn lemma_shapes<S>(model: NetworkModel<S>, layer: int, neuron: int)
    requires
        model.wf(),
        0 <= layer < model.composition.len() - 1,
        0 <= neuron < model.composition[layer + 1],
    ensures
        model.depth() == model.composition.len() - 1,
        model.weights[layer].len() == model.composition[layer + 1],
        model.weights[layer][neuron].len() == model.composition[layer],
        model.biases[layer].len() == model.composition[layer + 1],
        model.net_inputs[layer].len() == model.composition[layer + 1],
        model.outputs[layer].len() == model.composition[layer + 1],
        model.costs[layer].len() == model.composition[layer + 1],
{
}

impl<S> Network<S> {
    /// Whether every tensor has the shape that the composition prescribes.
    pub fn is_well_formed(&self) -> (r: bool)
        ensures
            r == self.wf(),
    {
        let composition = self.hyper_params.composition.as_slice();
        composition.len() >= 1 && self.hyper_params.activations.len() == composition.len() - 1
            && is_weight_shaped(&self.weights, composition) && is_layered(
            &self.biases,
            composition,
            1,
        ) && is_layered(&self.net_inputs, composition, 1) && is_layered(
            &self.outputs,
            composition,
            1,
        ) && is_layered(&self.costs, composition, 1) && is_weight_shaped(
            &self.optimizer.moment_1.weights,
            composition,
        ) && is_layered(&self.optimizer.moment_1.biases, composition, 1) && is_weight_shaped(
            &self.optimizer.moment_2.weights,
            composition,
        ) && is_layered(&self.optimizer.moment_2.biases, composition, 1) && is_layered(
            &self.dropout_mask,
            composition,
            0,
        ) && is_weight_shaped(&self.batch.weight_updates, composition) && is_layered(
            &self.batch.bias_updates,
            composition,
            1,
        )
    }
}

impl<S: Scalar> Network<S> {
    /// A new network for the given hyper-parameters, with random weights
    /// between `-1` and `1`. It is refused where the number of activations is
    /// not the number of layers after the input layer.
    pub fn new(hyper_params: HyperParams<S>) -> (r: Result<Self, NetworkError>)
        ensures
            match r {
                Ok(network) => {
                    &&& hyper_params.activations@.len() + 1 == hyper_params.composition@.len()
                    &&& network.hyper_params == hyper_params
                    &&& network.wf()
                    &&& network@.is_fresh()
                    &&& all_initial_weights(network@.weights)
                },
                Err(error) => {
                    &&& hyper_params.activations@.len() + 1 != hyper_params.composition@.len()
                    &&& error == NetworkError::LayerActivationCountMismatch
                },
            },
    {
        if hyper_params.composition.len() == 0 || hyper_params.composition.len() - 1
            != hyper_params.activations.len() {
            return Err(NetworkError::LayerActivationCountMismatch);
        }
        let mut rng = thread_rng();
        let composition = hyper_params.composition.as_slice();
        let network = Self {
            weights: random_3d_vec(&mut rng, composition),
            biases: zeros_2d_vec(composition, 1),
            net_inputs: zeros_2d_vec(composition, 1),
            outputs: zeros_2d_vec(composition, 1),
            costs: zeros_2d_vec(composition, 1),
            optimizer: Adam::new(composition),
            dropout_mask: Dropout::init_mask(composition),
            batch: Batch::new(composition),
            performance: Vec::new(),
            hyper_params,
        };
        proof {
            let mask = network.dropout_mask;
            assert forall|layer: int| 0 <= layer && layer + 1 < rows(mask).len() implies all_equal(
                #[trigger] rows(mask)[layer],
                spec_zero::<S>(),
            ) by {
                assert(rows(mask)[layer] == mask@[layer]@);
            }
        }
        Ok(network)
    }
}

} // verus!
