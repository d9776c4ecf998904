//! The mini-batch accumulator.

use vstd::prelude::*;
use crate::scalar::{Scalar, spec_zero, spec_from_count, zero, from_count};
use crate::network::state::{Network, NetworkModel};
use crate::network::utils::{
    zeros_2d_vec,
    zeros_3d_vec,
    rows,
    planes,
    layered,
    weight_shaped,
    all_equal_2d,
    all_equal_3d,
};

verus! {

/// The sum, over the samples of the current mini-batch, of the value each
/// sample proposes for each parameter.
pub struct Batch<S> {
    pub weight_updates: Vec<Vec<Vec<S>>>,
    pub bias_updates: Vec<Vec<S>>,
}

impl<S: Scalar> NetworkModel<S> {
    /// The network after a mini-batch of `chunk_size` samples has been
    /// averaged in: every weight and bias is its accumulated entry divided by
    /// `chunk_size`, and the accumulator is zero again.
    pub open spec fn batch_update(self, chunk_size: usize) -> Self {
        let divisor = spec_from_count::<S>(chunk_size);
        NetworkModel {
            weights: Seq::new(
                self.weights.len(),
                |layer: int|
                    Seq::new(
                        self.weights[layer].len(),
                        |neuron: int|
                            Seq::new(
                                self.weights[layer][neuron].len(),
                                |k: int| self.weight_updates[layer][neuron][k].spec_div(divisor),
                            ),
                    ),
            ),
            weight_updates: Seq::new(
                self.weights.len(),
                |layer: int|
                    Seq::new(
                        self.weights[layer].len(),
                        |neuron: int|
                            Seq::new(self.weights[layer][neuron].len(), |k: int| spec_zero::<S>()),
                    ),
            ),
            biases: Seq::new(
                self.biases.len(),
                |layer: int|
                    Seq::new(
                        self.biases[layer].len(),
                        |neuron: int| self.bias_updates[layer][neuron].spec_div(divisor),
                    ),
            ),
            bias_updates: Seq::new(
                self.biases.len(),
                |layer: int| Seq::new(self.biases[layer].len(), |neuron: int| spec_zero::<S>()),
            ),
            ..self
        }
    }
}

impl<S: Scalar> Batch<S> {
    /// An empty accumulator for the given composition.
    pub fn new(composition: &[usize]) -> (r: Self)
        ensures
            weight_shaped(planes(r.weight_updates), composition@),
            layered(rows(r.bias_updates), composition@, 1),
            all_equal_3d(planes(r.weight_updates), spec_zero::<S>()),
            all_equal_2d(rows(r.bias_updates), spec_zero::<S>()),
    {
        Self { weight_updates: zeros_3d_vec(composition), bias_updates: zeros_2d_vec(composition, 1) }
    }

    /// Ends a mini-batch of `chunk_size` samples: the mean of what the
    /// samples proposed becomes the new value of every weight and bias, and
    /// the accumulator is cleared.
    pub fn update(network: &mut Network<S>, chunk_size: usize)
        requires
            old(network).wf(),
        ensures
            final(network)@ == old(network)@.batch_update(chunk_size),
            final(network).wf(),
    {
        let ghost model = network@;
        let ghost target = model.batch_update(chunk_size);
        let divisor: S = from_count(chunk_size);
        let depth = network.weights.len();
        let mut layer: usize = 0;
        while layer < depth
            invariant
                layer <= depth,
                depth == model.depth(),
                model.wf(),
                model == old(network)@,
                target == model.batch_update(chunk_size),
                divisor == spec_from_count::<S>(chunk_size),
                network.wf(),
                network@ == (NetworkModel {
                    weights: network@.weights,
                    weight_updates: network@.weight_updates,
                    biases: network@.biases,
                    bias_updates: network@.bias_updates,
                    ..model
                }),
                forall|done: int|
                    0 <= done < layer ==> #[trigger] network@.weights[done] == target.weights[done],
                forall|done: int|
                    0 <= done < layer ==> #[trigger] network@.weight_updates[done]
                        == target.weight_updates[done],
                forall|done: int|
                    0 <= done < layer ==> #[trigger] network@.biases[done] == target.biases[done],
                forall|done: int|
                    0 <= done < layer ==> #[trigger] network@.bias_updates[done]
                        == target.bias_updates[done],
                forall|open: int|
                    layer <= open < depth ==> #[trigger] network@.weight_updates[open]
                        == model.weight_updates[open],
                forall|open: int|
                    layer <= open < depth ==> #[trigger] network@.bias_updates[open]
                        == model.bias_updates[open],
            decreases depth - layer,
        {
            proof {
                assert(network@.weight_updates[layer as int] == model.weight_updates[layer as int]);
                assert(network@.bias_updates[layer as int] == model.bias_updates[layer as int]);
                assert(network@.weight_updates[layer as int] == rows(
                    network.batch.weight_updates@[layer as int],
                ));
                assert(network@.bias_updates[layer as int] == network.batch.bias_updates@[layer as int]@);
                assert(model.weights[layer as int].len() == model.weight_updates[layer as int].len());
                assert(model.biases[layer as int].len() == model.bias_updates[layer as int].len());
            }
            let width = network.batch.weight_updates[layer].len();
            let mut weights: Vec<Vec<S>> = Vec::new();
            let mut weight_updates: Vec<Vec<S>> = Vec::new();
            let mut biases: Vec<S> = Vec::new();
            let mut bias_updates: Vec<S> = Vec::new();
            let mut neuron: usize = 0;
            while neuron < width
                invariant
                    neuron <= width,
                    layer < depth,
                    depth == model.depth(),
                    model.wf(),
                    target == model.batch_update(chunk_size),
                    divisor == spec_from_count::<S>(chunk_size),
                    network.wf(),
                    layer < network.batch.weight_updates@.len(),
                    layer < network.batch.bias_updates@.len(),
                    width == network.batch.weight_updates@[layer as int]@.len(),
                    width == model.weights[layer as int].len(),
                    width == model.biases[layer as int].len(),
                    network@.weight_updates[layer as int] == model.weight_updates[layer as int],
                    network@.bias_updates[layer as int] == model.bias_updates[layer as int],
                    network@.weight_updates[layer as int] == rows(
                        network.batch.weight_updates@[layer as int],
                    ),
                    network@.bias_updates[layer as int] == network.batch.bias_updates@[layer as int]@,
                    weights@.len() == neuron,
                    weight_updates@.len() == neuron,
                    biases@.len() == neuron,
                    bias_updates@.len() == neuron,
                    forall|n: int|
                        0 <= n < neuron ==> (#[trigger] weights@[n])@
                            == target.weights[layer as int][n],
                    forall|n: int|
                        0 <= n < neuron ==> (#[trigger] weight_updates@[n])@
                            == target.weight_updates[layer as int][n],
                    forall|n: int|
                        0 <= n < neuron ==> #[trigger] biases@[n] == target.biases[layer as int][n],
                    forall|n: int|
                        0 <= n < neuron ==> #[trigger] bias_updates@[n]
                            == target.bias_updates[layer as int][n],
                decreases width - neuron,
            {
                proof {
                    assert(model.weight_updates[layer as int][neuron as int]
                        == network.batch.weight_updates@[layer as int]@[neuron as int]@);
                    assert(model.weights[layer as int][neuron as int].len()
                        == model.weight_updates[layer as int][neuron as int].len());
                }
                let len = network.batch.weight_updates[layer][neuron].len();
                let mut row: Vec<S> = Vec::new();
                let mut row_updates: Vec<S> = Vec::new();
                let mut k: usize = 0;
                while k < len
                    invariant
                        k <= len,
                        neuron < width,
                        layer < depth,
                        depth == model.depth(),
                        divisor == spec_from_count::<S>(chunk_size),
                        model.wf(),
                        width == model.weights[layer as int].len(),
                        layer < network.batch.weight_updates@.len(),
                        neuron < network.batch.weight_updates@[layer as int]@.len(),
                        len == network.batch.weight_updates@[layer as int]@[neuron as int]@.len(),
                        len == model.weights[layer as int][neuron as int].len(),
                        model.weight_updates[layer as int][neuron as int]
                            == network.batch.weight_updates@[layer as int]@[neuron as int]@,
                        row@.len() == k,
                        row_updates@.len() == k,
                        forall|i: int|
                            0 <= i < k ==> #[trigger] row@[i]
                                == model.weight_updates[layer as int][neuron as int][i].spec_div(
                                divisor,
                            ),
                        forall|i: int| 0 <= i < k ==> #[trigger] row_updates@[i] == spec_zero::<S>(),
                    decreases len - k,
                {
                    row.push(network.batch.weight_updates[layer][neuron][k].div(divisor));
                    row_updates.push(zero());
                    k += 1;
                }
                proof {
                    assert(row@ =~= target.weights[layer as int][neuron as int]);
                    assert(row_updates@ =~= target.weight_updates[layer as int][neuron as int]);
                }
                weights.push(row);
                weight_updates.push(row_updates);
                biases.push(network.batch.bias_updates[layer][neuron].div(divisor));
                bias_updates.push(zero());
                neuron += 1;
            }
            proof {
                assert(rows(weights) =~= target.weights[layer as int]);
                assert(rows(weight_updates) =~= target.weight_updates[layer as int]);
                assert(biases@ =~= target.biases[layer as int]);
                assert(bias_updates@ =~= target.bias_updates[layer as int]);
                assert(network@.weights.len() == depth);
                assert(network@.biases.len() == depth);
                assert(network@.weight_updates.len() == depth);
                assert(network@.bias_updates.len() == depth);
            }
            let ghost before = network@;
            network.weights[layer] = weights;
            network.batch.weight_updates[layer] = weight_updates;
            network.biases[layer] = biases;
            network.batch.bias_updates[layer] = bias_updates;
            proof {
                assert(network@.weights =~= before.weights.update(layer as int, rows(weights)));
                assert(network@.weight_updates =~= before.weight_updates.update(
                    layer as int,
                    rows(weight_updates),
                ));
                assert(network@.biases =~= before.biases.update(layer as int, biases@));
                assert(network@.bias_updates =~= before.bias_updates.update(
                    layer as int,
                    bias_updates@,
                ));
            }
            layer += 1;
        }
        proof {
            assert(network@.weights =~= target.weights);
            assert(network@.weight_updates =~= target.weight_updates);
            assert(network@.biases =~= target.biases);
            assert(network@.bias_updates =~= target.bias_updates);
        }
    }
}

} // verus!
