//! Elastic-net and max-norm regularisation, and dropout.

use vstd::prelude::*;
use crate::scalar::{Scalar, spec_zero, spec_one, zero, one};
use crate::network::state::{Network, NetworkModel};
use crate::network::utils::{zeros_2d_vec, filled, rows, layered, all_equal};
use crate::random::{thread_rng, random_below};

verus! {

/// The weights of the L1 and the L2 penalty.
pub struct ElasticNetRegularizer<S> {
    pub l1: S,
    pub l2: S,
}

/// The penalties on the weights and on the biases.
pub struct ElasticNetRegularization<S> {
    pub weights: ElasticNetRegularizer<S>,
    pub biases: ElasticNetRegularizer<S>,
}

/// The probability with which a neuron is dropped while training.
pub struct Dropout<S> {
    pub input_layer: S,
    pub hidden_layer: S,
}

/// All of regularisation: the penalties, the dropout rates and the largest
/// norm that a row of weights may have before its updates are scaled down.
pub struct Regularization<S> {
    pub elastic_net: ElasticNetRegularization<S>,
    pub dropout_rate: Dropout<S>,
    pub max_norm_constraint: S,
}

/// The elastic-net penalty of a parameter: `l1 * |value| + l2 * value^2`.
pub open spec fn spec_elastic_net<S: Scalar>(regularizer: ElasticNetRegularizer<S>, value: S) -> S {
    regularizer.l1.spec_mul(value.spec_abs()).spec_add(regularizer.l2.spec_mul(value.spec_powi(2)))
}

/// The sum of the squares of the first `n` entries, added up from the left,
/// starting at zero.
pub open spec fn spec_square_sum<S: Scalar>(weights: Seq<S>, n: nat) -> S
    decreases n,
{
    if n == 0 {
        spec_zero::<S>()
    } else {
        spec_square_sum(weights, (n - 1) as nat).spec_add(weights[n - 1].spec_powi(2))
    }
}

/// The Euclidean norm of a vector.
pub open spec fn spec_l2_norm<S: Scalar>(weights: Seq<S>) -> S {
    spec_square_sum(weights, weights.len()).spec_sqrt()
}

/// An accumulated update after max-norm clipping: scaled by
/// `constraint / norm` where the norm exceeds the constraint, else unchanged.
pub open spec fn spec_clipped<S: Scalar>(update: S, norm: S, constraint: S) -> S {
    if constraint.spec_less(norm) {
        update.spec_mul(constraint.spec_div(norm))
    } else {
        update
    }
}

/// The number of equally likely draws a dropout decision is made from.
pub open spec fn draw_range() -> u64 {
    0x20_0000_0000_0000
}

/// Whether the neuron stays for the draw: the draw, as a fraction of the
/// range, is below the probability `1 - rate` of staying.
pub open spec fn spec_keeps<S: Scalar>(draw: u64, rate: S) -> bool {
    S::spec_from_ratio(draw as i64, 0x20_0000_0000_0000).spec_less(spec_one::<S>().spec_sub(rate))
}

/// The mask entry for a draw: nothing for a dropped neuron, and for one that
/// stays `1 / (1 - rate)`, so that the expected net input is unchanged. It is
/// computed as the product of zero or one with that factor.
pub open spec fn spec_mask_entry<S: Scalar>(draw: u64, rate: S) -> S {
    let kept = if spec_keeps(draw, rate) {
        spec_one::<S>()
    } else {
        spec_zero::<S>()
    };
    kept.spec_mul(spec_one::<S>().spec_div(spec_one::<S>().spec_sub(rate)))
}

impl<S: Scalar> NetworkModel<S> {
    /// The dropout rate of a layer of the mask: the input layer has its own,
    /// the hidden layers share one.
    pub open spec fn dropout_rate(self, mask_layer: int) -> S {
        if mask_layer == 0 {
            self.regularization.dropout_rate.input_layer
        } else {
            self.regularization.dropout_rate.hidden_layer
        }
    }

    /// The network with a mask made from one draw per neuron. The output
    /// layer's mask stays as it is.
    pub open spec fn with_mask(self, draws: Seq<Seq<u64>>) -> Self {
        NetworkModel {
            dropout_mask: Seq::new(
                self.dropout_mask.len(),
                |layer: int|
                    if layer + 1 < self.dropout_mask.len() {
                        Seq::new(
                            self.dropout_mask[layer].len(),
                            |neuron: int|
                                spec_mask_entry(draws[layer][neuron], self.dropout_rate(layer)),
                        )
                    } else {
                        self.dropout_mask[layer]
                    },
            ),
            ..self
        }
    }

    /// The network with every neuron active: each mask entry before the
    /// output layer is one. The output layer's mask stays as it is.
    pub open spec fn all_active(self) -> Self {
        NetworkModel {
            dropout_mask: Seq::new(
                self.dropout_mask.len(),
                |layer: int|
                    if layer + 1 < self.dropout_mask.len() {
                        Seq::new(self.dropout_mask[layer].len(), |neuron: int| spec_one::<S>())
                    } else {
                        self.dropout_mask[layer]
                    },
            ),
            ..self
        }
    }
}

/// One draw per neuron of every layer before the last, each within the range.
pub open spec fn draws_fit<S>(draws: Seq<Seq<u64>>, mask: Seq<Seq<S>>) -> bool {
    &&& draws.len() + 1 >= mask.len()
    &&& forall|layer: int|
        0 <= layer && layer + 1 < mask.len() ==> (#[trigger] draws[layer]).len() == mask[layer].len()
    &&& forall|layer: int, neuron: int|
        0 <= layer && layer + 1 < mask.len() && 0 <= neuron < mask[layer].len() ==> (
        #[trigger] draws[layer][neuron]) < draw_range()
}

impl<S: Scalar> Dropout<S> {
    /// The mask of a new network: one for every neuron of the output layer,
    /// zero for all others.
    pub fn init_mask(composition: &[usize]) -> (r: Vec<Vec<S>>)
        ensures
            layered(rows(r), composition@, 0),
            forall|layer: int|
                0 <= layer && layer + 1 < r@.len() ==> all_equal(
                    (#[trigger] r@[layer])@,
                    spec_zero::<S>(),
                ),
            r@.len() > 0 ==> all_equal(r@[r@.len() - 1]@, spec_one::<S>()),
    {
        let mut dropout_mask: Vec<Vec<S>> = zeros_2d_vec(composition, 0);
        let layers = dropout_mask.len();
        if layers > 0 {
            let ghost before = dropout_mask@;
            proof {
                assert forall|layer: int| 0 <= layer < layers implies all_equal(
                    (#[trigger] before[layer])@,
                    spec_zero::<S>(),
                ) && before[layer]@.len() == composition@[layer] by {
                    assert(rows(dropout_mask)[layer] == before[layer]@);
                }
            }
            let width = dropout_mask[layers - 1].len();
            dropout_mask[layers - 1] = filled(one(), width);
            proof {
                assert forall|layer: int| 0 <= layer < rows(dropout_mask).len() implies (
                #[trigger] rows(dropout_mask)[layer]).len() == composition@[layer + 0] by {
                    assert(rows(dropout_mask)[layer] == dropout_mask@[layer]@);
                    if layer < layers - 1 {
                        assert(dropout_mask@[layer] == before[layer]);
                    }
                }
                assert forall|layer: int| 0 <= layer && layer + 1 < dropout_mask@.len() implies all_equal(
                    (#[trigger] dropout_mask@[layer])@,
                    spec_zero::<S>(),
                ) by {
                    assert(dropout_mask@[layer] == before[layer]);
                }
            }
        }
        dropout_mask
    }

    /// The mask entry that a draw gives at a dropout rate.
    pub fn mask_entry(draw: u64, rate: S) -> (r: S)
        requires
            draw < draw_range(),
        ensures
            r == spec_mask_entry(draw, rate),
    {
        let keeps = S::from_ratio(draw as i64, 0x20_0000_0000_0000).less(one::<S>().sub(rate));
        let kept: S = if keeps {
            one()
        } else {
            zero()
        };
        kept.mul(one::<S>().div(one::<S>().sub(rate)))
    }

    /// Sets the mask of every layer before the output layer from one draw per
    /// neuron.
    pub fn set_mask(network: &mut Network<S>, draws: &Vec<Vec<u64>>)
        requires
            draws_fit(rows(*draws), old(network)@.dropout_mask),
        ensures
            final(network)@ == old(network)@.with_mask(rows(*draws)),
    {
        let ghost model = network@;
        let ghost target = model.with_mask(rows(*draws));
        let layers = network.dropout_mask.len();
        let mut layer: usize = 0;
        while layer + 1 < layers
            invariant
                layers == model.dropout_mask.len(),
                layer + 1 <= layers || layer == 0,
                target == model.with_mask(rows(*draws)),
                draws_fit(rows(*draws), model.dropout_mask),
                network@ == (NetworkModel { dropout_mask: network@.dropout_mask, ..model }),
                network@.dropout_mask.len() == layers,
                forall|done: int|
                    0 <= done < layer ==> #[trigger] network@.dropout_mask[done]
                        == target.dropout_mask[done],
                forall|open: int|
                    layer <= open < layers ==> #[trigger] network@.dropout_mask[open]
                        == model.dropout_mask[open],
            decreases layers - layer,
        {
            proof {
                assert(network@.dropout_mask[layer as int] == network.dropout_mask@[layer as int]@);
                assert(rows(*draws)[layer as int] == draws@[layer as int]@);
            }
            let width = network.dropout_mask[layer].len();
            let mut mask: Vec<S> = Vec::new();
            let mut neuron: usize = 0;
            while neuron < width
                invariant
                    neuron <= width,
                    layer + 1 < layers,
                    layers == model.dropout_mask.len(),
                    width == model.dropout_mask[layer as int].len(),
                    draws_fit(rows(*draws), model.dropout_mask),
                    rows(*draws)[layer as int] == draws@[layer as int]@,
                    layer < draws@.len(),
                    network@ == (NetworkModel { dropout_mask: network@.dropout_mask, ..model }),
                    mask@.len() == neuron,
                    forall|n: int|
                        0 <= n < neuron ==> #[trigger] mask@[n] == spec_mask_entry(
                            rows(*draws)[layer as int][n],
                            model.dropout_rate(layer as int),
                        ),
                decreases width - neuron,
            {
                proof {
                    assert(rows(*draws)[layer as int][neuron as int] < draw_range());
                }
                let rate = if layer == 0 {
                    network.hyper_params.regularization.dropout_rate.input_layer
                } else {
                    network.hyper_params.regularization.dropout_rate.hidden_layer
                };
                mask.push(Self::mask_entry(draws[layer][neuron], rate));
                neuron += 1;
            }
            proof {
                assert(mask@ =~= target.dropout_mask[layer as int]);
            }
            let ghost before = network@;
            network.dropout_mask[layer] = mask;
            proof {
                assert(network@.dropout_mask =~= before.dropout_mask.update(layer as int, mask@));
            }
            layer += 1;
        }
        proof {
            assert(network@.dropout_mask =~= target.dropout_mask);
        }
    }

    /// Draws a new mask: every neuron before the output layer is dropped with
    /// the rate of its layer. Which neurons are dropped is left to chance;
    /// `set_mask` says what the mask is for each outcome.
    pub fn generate_mask(network: &mut Network<S>)
        ensures
            exists|draws: Seq<Seq<u64>>|
                draws_fit(draws, old(network)@.dropout_mask) && final(network)@ == old(
                    network,
                )@.with_mask(draws),
    {
        let mut rng = thread_rng();
        let layers = network.dropout_mask.len();
        let mut draws: Vec<Vec<u64>> = Vec::new();
        let mut layer: usize = 0;
        while layer < layers
            invariant
                layer <= layers,
                layers == network.dropout_mask@.len(),
                draws@.len() == layer,
                forall|l: int|
                    0 <= l < layer ==> (#[trigger] draws@[l])@.len() == network.dropout_mask@[l]@.len(),
                forall|l: int, n: int|
                    0 <= l < layer && 0 <= n < draws@[l]@.len() ==> (#[trigger] draws@[l]@[n])
                        < draw_range(),
            decreases layers - layer,
        {
            let width = network.dropout_mask[layer].len();
            let mut row: Vec<u64> = Vec::new();
            let mut neuron: usize = 0;
            while neuron < width
                invariant
                    neuron <= width,
                    row@.len() == neuron,
                    forall|n: int| 0 <= n < neuron ==> (#[trigger] row@[n]) < draw_range(),
                decreases width - neuron,
            {
                row.push(random_below(&mut rng, 0x20_0000_0000_0000));
                neuron += 1;
            }
            draws.push(row);
            layer += 1;
        }
        proof {
            assert forall|l: int| 0 <= l && l + 1 < network@.dropout_mask.len() implies (
            #[trigger] rows(draws)[l]).len() == network@.dropout_mask[l].len() by {
                assert(rows(draws)[l] == draws@[l]@);
                assert(network@.dropout_mask[l] == network.dropout_mask@[l]@);
            }
            assert forall|l: int, n: int|
                0 <= l && l + 1 < network@.dropout_mask.len() && 0 <= n
                    < network@.dropout_mask[l].len() implies (#[trigger] rows(draws)[l][n])
                < draw_range() by {
                assert(rows(draws)[l] == draws@[l]@);
                assert(network@.dropout_mask[l] == network.dropout_mask@[l]@);
                assert(draws@[l]@[n] < draw_range());
            }
        }
        Self::set_mask(network, &draws);
    }

    /// Makes every neuron active: each mask entry before the output layer
    /// becomes one.
    pub fn set_all_active_mask(network: &mut Network<S>)
        ensures
            final(network)@ == old(network)@.all_active(),
    {
        let ghost model = network@;
        let ghost target = model.all_active();
        let layers = network.dropout_mask.len();
        let mut layer: usize = 0;
        while layer + 1 < layers
            invariant
                layers == model.dropout_mask.len(),
                layer + 1 <= layers || layer == 0,
                target == model.all_active(),
                network@ == (NetworkModel { dropout_mask: network@.dropout_mask, ..model }),
                network@.dropout_mask.len() == layers,
                forall|done: int|
                    0 <= done < layer ==> #[trigger] network@.dropout_mask[done]
                        == target.dropout_mask[done],
                forall|open: int|
                    layer <= open < layers ==> #[trigger] network@.dropout_mask[open]
                        == model.dropout_mask[open],
            decreases layers - layer,
        {
            proof {
                assert(network@.dropout_mask[layer as int] == network.dropout_mask@[layer as int]@);
            }
            let width = network.dropout_mask[layer].len();
            let mask: Vec<S> = filled(one(), width);
            proof {
                assert(mask@ =~= target.dropout_mask[layer as int]);
            }
            let ghost before = network@;
            network.dropout_mask[layer] = mask;
            proof {
                assert(network@.dropout_mask =~= before.dropout_mask.update(layer as int, mask@));
            }
            layer += 1;
        }
        proof {
            assert(network@.dropout_mask =~= target.dropout_mask);
        }
    }
}

impl<S: Scalar> Network<S> {
    /// The elastic-net penalty of a parameter.
    pub fn elastic_net_regularization(regularizer: &ElasticNetRegularizer<S>, value: S) -> (r: S)
        ensures
            r == spec_elastic_net(*regularizer, value),
    {
        regularizer.l1.mul(value.abs()).add(regularizer.l2.mul(value.powi(2)))
    }
}

impl<S: Scalar> Regularization<S> {
    /// The Euclidean norm of a vector.
    pub fn compute_l2_norm(weights: &[S]) -> (r: S)
        ensures
            r == spec_l2_norm(weights@),
    {
        let mut sum_of_squares: S = zero();
        let mut index: usize = 0;
        while index < weights.len()
            invariant
                index <= weights@.len(),
                sum_of_squares == spec_square_sum(weights@, index as nat),
            decreases weights@.len() - index,
        {
            sum_of_squares = sum_of_squares.add(weights[index].powi(2));
            index += 1;
        }
        sum_of_squares.sqrt()
    }
}

} // verus!
