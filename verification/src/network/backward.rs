//! The backward pass: the error signal of every neuron, then for every
//! parameter its gradient, its Adam moments and the value it proposes to the
//! mini-batch.

use vstd::prelude::*;
use crate::scalar::{Scalar, spec_zero, zero};
use crate::network::state::{Network, NetworkModel};
use crate::network::utils::rows;
use crate::network::optimizations::adam::{spec_moment_1, spec_moment_2, spec_corrected, spec_step};
use crate::network::optimizations::regularization::{
    Regularization,
    spec_elastic_net,
    spec_l2_norm,
    spec_clipped,
};

verus! {

/// What the first `count` neurons of the layer downstream send back to the
/// neuron `neuron`: the sum of `rows[j][neuron] * costs[j]`, added up from
/// the left, starting at zero.
pub open spec fn spec_weighted_cost<S: Scalar>(
    rows: Seq<Seq<S>>,
    costs: Seq<S>,
    neuron: int,
    count: nat,
) -> S
    decreases count,
{
    if count == 0 {
        spec_zero::<S>()
    } else {
        spec_weighted_cost(rows, costs, neuron, (count - 1) as nat).spec_add(
            rows[count - 1][neuron].spec_mul(costs[count - 1]),
        )
    }
}

/// The gradient of a weight: `(cost + penalty) * slope * source`.
pub open spec fn spec_gradient<S: Scalar>(cost: S, penalty: S, slope: S, source: S) -> S {
    cost.spec_add(penalty).spec_mul(slope).spec_mul(source)
}

/// The gradient of a bias: `(cost + penalty) * slope`.
pub open spec fn spec_bias_gradient<S: Scalar>(cost: S, penalty: S, slope: S) -> S {
    cost.spec_add(penalty).spec_mul(slope)
}

impl<S: Scalar> NetworkModel<S> {
    /// The error signal of the output layer: output minus target.
    pub open spec fn output_costs(self, targets: Seq<S>) -> Seq<S> {
        let last = self.outputs.len() - 1;
        Seq::new(self.outputs[last].len(), |neuron: int| self.outputs[last][neuron].spec_sub(targets[neuron]))
    }

    /// The error signal of layer `layer`: that of the output layer for the
    /// last layer, else the signal of the next layer sent back through the
    /// next layer's weights.
    pub open spec fn costs_layer(self, targets: Seq<S>, layer: int) -> Seq<S>
        decreases self.outputs.len() - layer,
    {
        if layer >= self.outputs.len() - 1 {
            self.output_costs(targets)
        } else {
            let downstream = self.costs_layer(targets, layer + 1);
            Seq::new(
                self.outputs[layer].len(),
                |neuron: int|
                    spec_weighted_cost(
                        self.weights[layer + 1],
                        downstream,
                        neuron,
                        self.weights[layer + 1].len(),
                    ),
            )
        }
    }

    /// The network after the error signals have been computed for `targets`
    /// from the outputs it holds.
    pub open spec fn compute_costs(self, targets: Seq<S>) -> Self {
        NetworkModel {
            costs: Seq::new(self.costs.len(), |layer: int| self.costs_layer(targets, layer)),
            ..self
        }
    }

    /// The vector that fed layer `layer`: the inputs, or the outputs held for
    /// the layer before it.
    pub open spec fn source(self, inputs: Seq<S>, layer: int) -> Seq<S> {
        if layer <= 0 {
            inputs
        } else {
            self.outputs[layer - 1]
        }
    }

    /// The derivative of a neuron's activation at its net input.
    pub open spec fn slope(self, layer: int, neuron: int) -> S {
        self.activations[layer].spec_derivative(self.net_inputs[layer][neuron])
    }

    /// The gradient of the weight that joins neuron `neuron` of layer
    /// `layer` to entry `k` of the layer's source.
    pub open spec fn weight_gradient(self, inputs: Seq<S>, layer: int, neuron: int, k: int) -> S {
        spec_gradient(
            self.costs[layer][neuron],
            spec_elastic_net(self.regularization.elastic_net.weights, self.weights[layer][neuron][k]),
            self.slope(layer, neuron),
            self.source(inputs, layer)[k],
        )
    }

    /// The gradient of the bias of neuron `neuron` of layer `layer`.
    pub open spec fn bias_gradient(self, layer: int, neuron: int) -> S {
        spec_bias_gradient(
            self.costs[layer][neuron],
            spec_elastic_net(self.regularization.elastic_net.biases, self.biases[layer][neuron]),
            self.slope(layer, neuron),
        )
    }

    /// What a backward pass makes of one weight: its first moment, its second
    /// moment and its entry in the mini-batch accumulator. The accumulator
    /// gains the value that the Adam step proposes for the weight and is then
    /// clipped by the norm of the weight's row.
    pub open spec fn stepped_weight(self, inputs: Seq<S>, layer: int, neuron: int, k: int) -> (
        S,
        S,
        S,
    ) {
        let gradient = self.weight_gradient(inputs, layer, neuron, k);
        let moment_1 = spec_moment_1(
            self.moment_1_weights[layer][neuron][k],
            self.adam.beta_1,
            gradient,
        );
        let moment_2 = spec_moment_2(
            self.moment_2_weights[layer][neuron][k],
            self.adam.beta_2,
            gradient,
        );
        let proposed = spec_step(
            self.weights[layer][neuron][k],
            self.learning_rate.alpha,
            spec_corrected(moment_1, self.adam.beta_1, self.iteration),
            spec_corrected(moment_2, self.adam.beta_2, self.iteration),
            self.adam.epsilon,
        );
        let update = spec_clipped(
            self.weight_updates[layer][neuron][k].spec_add(proposed),
            spec_l2_norm(self.weights[layer][neuron]),
            self.regularization.max_norm_constraint,
        );
        (moment_1, moment_2, update)
    }

    /// What a backward pass makes of one bias: its first moment, its second
    /// moment and its entry in the mini-batch accumulator.
    pub open spec fn stepped_bias(self, layer: int, neuron: int) -> (S, S, S) {
        let gradient = self.bias_gradient(layer, neuron);
        let moment_1 = spec_moment_1(self.moment_1_biases[layer][neuron], self.adam.beta_1, gradient);
        let moment_2 = spec_moment_2(self.moment_2_biases[layer][neuron], self.adam.beta_2, gradient);
        let proposed = spec_step(
            self.biases[layer][neuron],
            self.learning_rate.alpha,
            spec_corrected(moment_1, self.adam.beta_1, self.iteration),
            spec_corrected(moment_2, self.adam.beta_2, self.iteration),
            self.adam.epsilon,
        );
        (moment_1, moment_2, self.bias_updates[layer][neuron].spec_add(proposed))
    }

    /// The three matrices that a backward pass writes for layer `layer`.
    pub open spec fn stepped_weights(self, inputs: Seq<S>, layer: int) -> (
        Seq<Seq<S>>,
        Seq<Seq<S>>,
        Seq<Seq<S>>,
    ) {
        let width = self.weights[layer].len();
        (
            Seq::new(
                width,
                |neuron: int|
                    Seq::new(
                        self.weights[layer][neuron].len(),
                        |k: int| self.stepped_weight(inputs, layer, neuron, k).0,
                    ),
            ),
            Seq::new(
                width,
                |neuron: int|
                    Seq::new(
                        self.weights[layer][neuron].len(),
                        |k: int| self.stepped_weight(inputs, layer, neuron, k).1,
                    ),
            ),
            Seq::new(
                width,
                |neuron: int|
                    Seq::new(
                        self.weights[layer][neuron].len(),
                        |k: int| self.stepped_weight(inputs, layer, neuron, k).2,
                    ),
            ),
        )
    }

    /// The three vectors that a backward pass writes for layer `layer`.
    pub open spec fn stepped_biases(self, layer: int) -> (Seq<S>, Seq<S>, Seq<S>) {
        let width = self.weights[layer].len();
        (
            Seq::new(width, |neuron: int| self.stepped_bias(layer, neuron).0),
            Seq::new(width, |neuron: int| self.stepped_bias(layer, neuron).1),
            Seq::new(width, |neuron: int| self.stepped_bias(layer, neuron).2),
        )
    }

    /// The network after the backward pass over layer `layer`: the layer's
    /// moments and accumulator entries are new, all else is as before. The
    /// weights and biases themselves do not move.
    pub open spec fn backward_pass(self, layer: int, inputs: Seq<S>) -> Self {
        let weights = self.stepped_weights(inputs, layer);
        let biases = self.stepped_biases(layer);
        NetworkModel {
            moment_1_weights: self.moment_1_weights.update(layer, weights.0),
            moment_2_weights: self.moment_2_weights.update(layer, weights.1),
            weight_updates: self.weight_updates.update(layer, weights.2),
            moment_1_biases: self.moment_1_biases.update(layer, biases.0),
            moment_2_biases: self.moment_2_biases.update(layer, biases.1),
            bias_updates: self.bias_updates.update(layer, biases.2),
            ..self
        }
    }

    /// The network after the backward passes over the layers from the last
    /// one down to `layer`.
    pub open spec fn backward_from(self, inputs: Seq<S>, layer: int) -> Self
        decreases self.weights.len() - layer,
    {
        if layer >= self.weights.len() {
            self
        } else {
            self.backward_from(inputs, layer + 1).backward_pass(layer, inputs)
        }
    }

    /// The network after a whole backward pass: error signals first, then
    /// every layer from the last to the first.
    pub open spec fn backward(self, inputs: Seq<S>, targets: Seq<S>) -> Self {
        self.compute_costs(targets).backward_from(inputs, 0)
    }
}

/// Whether two networks agree on all but the optimiser's moments and the
/// mini-batch accumulator.
pub open spec fn same_outside_optimizer<S>(a: NetworkModel<S>, b: NetworkModel<S>) -> bool {
    &&& a.composition == b.composition
    &&& a.activations == b.activations
    &&& a.regularization == b.regularization
    &&& a.learning_rate == b.learning_rate
    &&& a.adam == b.adam
    &&& a.batch_size == b.batch_size
    &&& a.early_stopping == b.early_stopping
    &&& a.weights == b.weights
    &&& a.biases == b.biases
    &&& a.net_inputs == b.net_inputs
    &&& a.outputs == b.outputs
    &&& a.costs == b.costs
    &&& a.iteration == b.iteration
    &&& a.dropout_mask == b.dropout_mask
    &&& a.performance == b.performance
}

/// The backward passes over the layers move the moments and the mini-batch
/// accumulator and nothing else: weights and biases stay until the
/// mini-batch ends.
pub proof fn lemma_backward_from_keeps<S: Scalar>(model: NetworkModel<S>, inputs: Seq<S>, layer: int)
    ensures
        same_outside_optimizer(model.backward_from(inputs, layer), model),
    decreases model.weights.len() - layer,
{
    if layer < model.weights.len() {
        lemma_backward_from_keeps(model, inputs, layer + 1);
    }
}

impl<S: Scalar> Network<S> {
    /// Computes every neuron's error signal from the outputs of the last
    /// forward pass.
    pub fn compute_costs(&mut self, targets: &[S])
        requires
            old(self).wf(),
            old(self)@.depth() > 0 ==> targets@.len() == old(self)@.composition[old(self)@.depth()],
        ensures
            final(self)@ == old(self)@.compute_costs(targets@),
            final(self).wf(),
    {
        let ghost model = self@;
        let depth = self.outputs.len();
        let mut layer: usize = depth;
        while layer > 0
            invariant
                layer <= depth,
                depth == model.outputs.len(),
                depth > 0 ==> targets@.len() == model.composition[depth as int],
                model.wf(),
                model == old(self)@,
                self.wf(),
                self@ == (NetworkModel { costs: self@.costs, ..model }),
                forall|done: int|
                    layer <= done < depth ==> #[trigger] self@.costs[done] == model.costs_layer(
                        targets@,
                        done,
                    ),
            decreases layer,
        {
            layer -= 1;
            proof {
                assert(self@.outputs[layer as int] == self.outputs@[layer as int]@);
                assert(self@.costs[layer as int].len() == self@.outputs[layer as int].len());
            }
            let width = self.outputs[layer].len();
            let mut costs: Vec<S> = Vec::new();
            let mut neuron: usize = 0;
            if layer == depth - 1 {
                while neuron < width
                    invariant
                        neuron <= width,
                        layer == depth - 1,
                        depth == model.outputs.len(),
                        width == model.outputs[layer as int].len(),
                        width == targets@.len(),
                        model.wf(),
                        self.wf(),
                        self@ == (NetworkModel { costs: self@.costs, ..model }),
                        costs@.len() == neuron,
                        forall|n: int|
                            0 <= n < neuron ==> #[trigger] costs@[n] == model.outputs[layer as int][n].spec_sub(
                                targets@[n],
                            ),
                    decreases width - neuron,
                {
                    proof {
                        assert(self@.outputs[layer as int] == self.outputs@[layer as int]@);
                    }
                    costs.push(self.outputs[layer][neuron].sub(targets[neuron]));
                    neuron += 1;
                }
                proof {
                    assert(costs@ =~= model.costs_layer(targets@, layer as int));
                }
            } else {
                let ghost downstream = model.costs_layer(targets@, layer + 1);
                proof {
                    assert(self@.costs[layer + 1] == downstream);
                    assert(self@.weights[layer + 1] == rows(self.weights@[layer + 1]));
                }
                let count = self.weights[layer + 1].len();
                while neuron < width
                    invariant
                        neuron <= width,
                        layer + 1 < depth,
                        depth == model.outputs.len(),
                        width == model.outputs[layer as int].len(),
                        count == model.weights[layer + 1].len(),
                        model.wf(),
                        self.wf(),
                        self@ == (NetworkModel { costs: self@.costs, ..model }),
                        self@.costs[layer + 1] == downstream,
                        costs@.len() == neuron,
                        forall|n: int|
                            0 <= n < neuron ==> #[trigger] costs@[n] == spec_weighted_cost(
                                model.weights[layer + 1],
                                downstream,
                                n,
                                count as nat,
                            ),
                    decreases width - neuron,
                {
                    let mut cost: S = zero();
                    let mut index: usize = 0;
                    while index < count
                        invariant
                            index <= count,
                            neuron < width,
                            layer + 1 < depth,
                            depth == model.outputs.len(),
                            width == model.outputs[layer as int].len(),
                            count == model.weights[layer + 1].len(),
                            model.wf(),
                            self.wf(),
                            self@ == (NetworkModel { costs: self@.costs, ..model }),
                            self@.costs[layer + 1] == downstream,
                            cost == spec_weighted_cost(
                                model.weights[layer + 1],
                                downstream,
                                neuron as int,
                                index as nat,
                            ),
                        decreases count - index,
                    {
                        proof {
                            assert(self@.weights[layer + 1][index as int]
                                == self.weights@[layer + 1]@[index as int]@);
                            assert(self@.costs[layer + 1] == self.costs@[layer + 1]@);
                            assert(self@.costs[layer + 1].len() == count);
                        }
                        cost = cost.add(
                            self.weights[layer + 1][index][neuron].mul(self.costs[layer + 1][index]),
                        );
                        index += 1;
                    }
                    costs.push(cost);
                    neuron += 1;
                }
                proof {
                    assert(costs@ =~= model.costs_layer(targets@, layer as int));
                }
            }
            let ghost before = self@;
            self.costs[layer] = costs;
            proof {
                assert(self@.costs =~= before.costs.update(layer as int, costs@));
            }
        }
        proof {
            assert(self@.costs =~= model.compute_costs(targets@).costs);
        }
    }

    /// The backward pass over one layer: every weight and bias of the layer
    /// gets its gradient, its moments move, and the value the Adam step
    /// proposes for it is added to the mini-batch accumulator.
    pub fn backward_pass(&mut self, layer: usize, inputs: &[S])
        requires
            old(self).wf(),
            layer < old(self)@.depth(),
            inputs@.len() == old(self)@.composition[0],
        ensures
            final(self)@ == old(self)@.backward_pass(layer as int, inputs@),
            final(self).wf(),
    {
        let ghost model = self@;
        proof {
            assert(self@.weights[layer as int] == rows(self.weights@[layer as int]));
        }
        let width = self.weights[layer].len();
        let mut moment_1_weights: Vec<Vec<S>> = Vec::new();
        let mut moment_2_weights: Vec<Vec<S>> = Vec::new();
        let mut weight_updates: Vec<Vec<S>> = Vec::new();
        let mut moment_1_biases: Vec<S> = Vec::new();
        let mut moment_2_biases: Vec<S> = Vec::new();
        let mut bias_updates: Vec<S> = Vec::new();
        let mut neuron: usize = 0;
        while neuron < width
            invariant
                neuron <= width,
                layer < model.depth(),
                width == model.weights[layer as int].len(),
                inputs@.len() == model.composition[0],
                model.wf(),
                self@ == model,
                moment_1_weights@.len() == neuron,
                moment_2_weights@.len() == neuron,
                weight_updates@.len() == neuron,
                moment_1_biases@.len() == neuron,
                moment_2_biases@.len() == neuron,
                bias_updates@.len() == neuron,
                forall|n: int|
                    0 <= n < neuron ==> (#[trigger] moment_1_weights@[n])@ == model.stepped_weights(
                        inputs@,
                        layer as int,
                    ).0[n],
                forall|n: int|
                    0 <= n < neuron ==> (#[trigger] moment_2_weights@[n])@ == model.stepped_weights(
                        inputs@,
                        layer as int,
                    ).1[n],
                forall|n: int|
                    0 <= n < neuron ==> (#[trigger] weight_updates@[n])@ == model.stepped_weights(
                        inputs@,
                        layer as int,
                    ).2[n],
                forall|n: int|
                    0 <= n < neuron ==> #[trigger] moment_1_biases@[n] == model.stepped_bias(
                        layer as int,
                        n,
                    ).0,
                forall|n: int|
                    0 <= n < neuron ==> #[trigger] moment_2_biases@[n] == model.stepped_bias(
                        layer as int,
                        n,
                    ).1,
                forall|n: int|
                    0 <= n < neuron ==> #[trigger] bias_updates@[n] == model.stepped_bias(
                        layer as int,
                        n,
                    ).2,
            decreases width - neuron,
        {
            proof {
                assert(self@.weights[layer as int] == rows(self.weights@[layer as int]));
                assert(self@.weights[layer as int][neuron as int]
                    == self.weights@[layer as int]@[neuron as int]@);
                assert(self@.net_inputs[layer as int] == self.net_inputs@[layer as int]@);
                assert(self@.costs[layer as int] == self.costs@[layer as int]@);
                assert(self@.biases[layer as int] == self.biases@[layer as int]@);
                assert(self@.moment_1_biases[layer as int]
                    == self.optimizer.moment_1.biases@[layer as int]@);
                assert(self@.moment_2_biases[layer as int]
                    == self.optimizer.moment_2.biases@[layer as int]@);
                assert(self@.bias_updates[layer as int] == self.batch.bias_updates@[layer as int]@);
                assert(self@.moment_1_weights[layer as int] == rows(
                    self.optimizer.moment_1.weights@[layer as int],
                ));
                assert(self@.moment_2_weights[layer as int] == rows(
                    self.optimizer.moment_2.weights@[layer as int],
                ));
                assert(self@.weight_updates[layer as int] == rows(
                    self.batch.weight_updates@[layer as int],
                ));
                assert(self@.moment_1_weights[layer as int][neuron as int]
                    == self.optimizer.moment_1.weights@[layer as int]@[neuron as int]@);
                assert(self@.moment_2_weights[layer as int][neuron as int]
                    == self.optimizer.moment_2.weights@[layer as int]@[neuron as int]@);
                assert(self@.weight_updates[layer as int][neuron as int]
                    == self.batch.weight_updates@[layer as int]@[neuron as int]@);
                if layer > 0 {
                    assert(self@.outputs[layer - 1] == self.outputs@[layer - 1]@);
                }
            }
            let slope = self.hyper_params.activations[layer].derivative(
                self.net_inputs[layer][neuron],
            );
            let norm = Regularization::compute_l2_norm(self.weights[layer][neuron].as_slice());
            let cost = self.costs[layer][neuron];
            let len = self.weights[layer][neuron].len();
            let mut row_moment_1: Vec<S> = Vec::new();
            let mut row_moment_2: Vec<S> = Vec::new();
            let mut row_updates: Vec<S> = Vec::new();
            let mut k: usize = 0;
            while k < len
                invariant
                    k <= len,
                    neuron < width,
                    layer < model.depth(),
                    width == model.weights[layer as int].len(),
                    len == model.weights[layer as int][neuron as int].len(),
                    len == model.composition[layer as int],
                    inputs@.len() == model.composition[0],
                    model.wf(),
                    self@ == model,
                    slope == model.slope(layer as int, neuron as int),
                    norm == spec_l2_norm(model.weights[layer as int][neuron as int]),
                    cost == model.costs[layer as int][neuron as int],
                    row_moment_1@.len() == k,
                    row_moment_2@.len() == k,
                    row_updates@.len() == k,
                    forall|i: int|
                        0 <= i < k ==> #[trigger] row_moment_1@[i] == model.stepped_weight(
                            inputs@,
                            layer as int,
                            neuron as int,
                            i,
                        ).0,
                    forall|i: int|
                        0 <= i < k ==> #[trigger] row_moment_2@[i] == model.stepped_weight(
                            inputs@,
                            layer as int,
                            neuron as int,
                            i,
                        ).1,
                    forall|i: int|
                        0 <= i < k ==> #[trigger] row_updates@[i] == model.stepped_weight(
                            inputs@,
                            layer as int,
                            neuron as int,
                            i,
                        ).2,
                decreases len - k,
            {
                proof {
                    assert(self@.weights[layer as int] == rows(self.weights@[layer as int]));
                    assert(self@.weights[layer as int][neuron as int]
                        == self.weights@[layer as int]@[neuron as int]@);
                    assert(self@.moment_1_weights[layer as int] == rows(
                        self.optimizer.moment_1.weights@[layer as int],
                    ));
                    assert(self@.moment_2_weights[layer as int] == rows(
                        self.optimizer.moment_2.weights@[layer as int],
                    ));
                    assert(self@.weight_updates[layer as int] == rows(
                        self.batch.weight_updates@[layer as int],
                    ));
                    assert(self@.moment_1_weights[layer as int][neuron as int]
                        == self.optimizer.moment_1.weights@[layer as int]@[neuron as int]@);
                    assert(self@.moment_2_weights[layer as int][neuron as int]
                        == self.optimizer.moment_2.weights@[layer as int]@[neuron as int]@);
                    assert(self@.weight_updates[layer as int][neuron as int]
                        == self.batch.weight_updates@[layer as int]@[neuron as int]@);
                    if layer > 0 {
                        assert(self@.outputs[layer - 1] == self.outputs@[layer - 1]@);
                        assert(self@.outputs[layer - 1].len() == len);
                    }
                }
                let weight = self.weights[layer][neuron][k];
                let source = if layer == 0 {
                    inputs[k]
                } else {
                    self.outputs[layer - 1][k]
                };
                let penalty = Self::elastic_net_regularization(
                    &self.hyper_params.regularization.elastic_net.weights,
                    weight,
                );
                let gradient = cost.add(penalty).mul(slope).mul(source);
                let mut moment_1 = self.optimizer.moment_1.weights[layer][neuron][k];
                let mut moment_2 = self.optimizer.moment_2.weights[layer][neuron][k];
                let (corrected_1, corrected_2) = Self::compute_moments(
                    &mut moment_1,
                    &mut moment_2,
                    &self.hyper_params.optimizer,
                    &gradient,
                    &self.optimizer.iteration,
                );
                let proposed = weight.sub(
                    self.hyper_params.learning_rate.alpha.mul(corrected_1).div(
                        corrected_2.sqrt().add(self.hyper_params.optimizer.epsilon),
                    ),
                );
                let mut update = self.batch.weight_updates[layer][neuron][k].add(proposed);
                if self.hyper_params.regularization.max_norm_constraint.less(norm) {
                    update = update.mul(self.hyper_params.regularization.max_norm_constraint.div(norm));
                }
                row_moment_1.push(moment_1);
                row_moment_2.push(moment_2);
                row_updates.push(update);
                k += 1;
            }
            let bias = self.biases[layer][neuron];
            let penalty = Self::elastic_net_regularization(
                &self.hyper_params.regularization.elastic_net.biases,
                bias,
            );
            let gradient = cost.add(penalty).mul(slope);
            let mut moment_1 = self.optimizer.moment_1.biases[layer][neuron];
            let mut moment_2 = self.optimizer.moment_2.biases[layer][neuron];
            let (corrected_1, corrected_2) = Self::compute_moments(
                &mut moment_1,
                &mut moment_2,
                &self.hyper_params.optimizer,
                &gradient,
                &self.optimizer.iteration,
            );
            let proposed = bias.sub(
                self.hyper_params.learning_rate.alpha.mul(corrected_1).div(
                    corrected_2.sqrt().add(self.hyper_params.optimizer.epsilon),
                ),
            );
            let update = self.batch.bias_updates[layer][neuron].add(proposed);
            proof {
                assert(row_moment_1@ =~= model.stepped_weights(inputs@, layer as int).0[neuron as int]);
                assert(row_moment_2@ =~= model.stepped_weights(inputs@, layer as int).1[neuron as int]);
                assert(row_updates@ =~= model.stepped_weights(inputs@, layer as int).2[neuron as int]);
            }
            moment_1_weights.push(row_moment_1);
            moment_2_weights.push(row_moment_2);
            weight_updates.push(row_updates);
            moment_1_biases.push(moment_1);
            moment_2_biases.push(moment_2);
            bias_updates.push(update);
            neuron += 1;
        }
        let ghost stepped_weights = model.stepped_weights(inputs@, layer as int);
        let ghost stepped_biases = model.stepped_biases(layer as int);
        proof {
            assert(rows(moment_1_weights) =~= stepped_weights.0);
            assert(rows(moment_2_weights) =~= stepped_weights.1);
            assert(rows(weight_updates) =~= stepped_weights.2);
            assert(moment_1_biases@ =~= stepped_biases.0);
            assert(moment_2_biases@ =~= stepped_biases.1);
            assert(bias_updates@ =~= stepped_biases.2);
            assert(self@.moment_1_weights.len() == model.depth());
            assert(self@.moment_2_weights.len() == model.depth());
            assert(self@.weight_updates.len() == model.depth());
            assert(self@.moment_1_biases.len() == model.depth());
            assert(self@.moment_2_biases.len() == model.depth());
            assert(self@.bias_updates.len() == model.depth());
        }
        self.optimizer.moment_1.weights[layer] = moment_1_weights;
        self.optimizer.moment_2.weights[layer] = moment_2_weights;
        self.batch.weight_updates[layer] = weight_updates;
        self.optimizer.moment_1.biases[layer] = moment_1_biases;
        self.optimizer.moment_2.biases[layer] = moment_2_biases;
        self.batch.bias_updates[layer] = bias_updates;
        proof {
            let target = model.backward_pass(layer as int, inputs@);
            assert(self@.moment_1_weights =~= target.moment_1_weights);
            assert(self@.moment_2_weights =~= target.moment_2_weights);
            assert(self@.weight_updates =~= target.weight_updates);
            assert(self@.moment_1_biases =~= target.moment_1_biases);
            assert(self@.moment_2_biases =~= target.moment_2_biases);
            assert(self@.bias_updates =~= target.bias_updates);
        }
    }

    /// One backward pass: the error signals for `targets`, then every layer
    /// from the last to the first.
    pub fn backward(&mut self, inputs: &[S], targets: &[S])
        requires
            old(self).wf(),
            inputs@.len() == old(self)@.composition[0],
            old(self)@.depth() > 0 ==> targets@.len() == old(self)@.composition[old(self)@.depth()],
        ensures
            final(self)@ == old(self)@.backward(inputs@, targets@),
            final(self).wf(),
    {
        self.compute_costs(targets);
        let ghost model = self@;
        let depth = self.outputs.len();
        let mut layer: usize = depth;
        while layer > 0
            invariant
                layer <= depth,
                depth == model.depth(),
                model.wf(),
                self.wf(),
                inputs@.len() == model.composition[0],
                self@.composition == model.composition,
                self@.depth() == model.depth(),
                self@ == model.backward_from(inputs@, layer as int),
            decreases layer,
        {
            layer -= 1;
            self.backward_pass(layer, inputs);
        }
    }
}

} // verus!
