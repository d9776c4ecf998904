//! The forward pass.

use vstd::prelude::*;
use crate::scalar::{Scalar, spec_zero, zero};
use crate::network::state::{Network, NetworkModel};

verus! {

/// The sum of the first `n` products `a[i] * b[i]`, added up from the left,
/// starting at zero.
pub open spec fn spec_dot_prefix<S: Scalar>(a: Seq<S>, b: Seq<S>, n: nat) -> S
    decreases n,
{
    if n == 0 {
        spec_zero::<S>()
    } else {
        spec_dot_prefix(a, b, (n - 1) as nat).spec_add(a[n - 1].spec_mul(b[n - 1]))
    }
}

/// The dot product of two vectors, over the length of the shorter one.
pub open spec fn spec_dot_product<S: Scalar>(a: Seq<S>, b: Seq<S>) -> S {
    spec_dot_prefix(a, b, if a.len() <= b.len() { a.len() } else { b.len() })
}

/// A neuron's weighted sum: `dot(source, row) * mask + bias`.
pub open spec fn spec_net_input<S: Scalar>(source: Seq<S>, row: Seq<S>, mask: S, bias: S) -> S {
    spec_dot_product(source, row).spec_mul(mask).spec_add(bias)
}

impl<S: Scalar> NetworkModel<S> {
    /// The net inputs and the outputs of layer `layer` when `inputs` is fed
    /// to the network. Layer 0 reads `inputs`, every other layer the outputs
    /// of the layer before it. Each neuron is scaled by its own entry in the
    /// dropout mask, which lists the input layer first.
    pub open spec fn forward_layer(self, inputs: Seq<S>, layer: int) -> (Seq<S>, Seq<S>)
        decreases layer,
    {
        let source = if layer <= 0 {
            inputs
        } else {
            self.forward_layer(inputs, layer - 1).1
        };
        let net_inputs = Seq::new(
            self.weights[layer].len(),
            |neuron: int|
                spec_net_input(
                    source,
                    self.weights[layer][neuron],
                    self.dropout_mask[layer + 1][neuron],
                    self.biases[layer][neuron],
                ),
        );
        let outputs = Seq::new(
            net_inputs.len(),
            |neuron: int| self.activations[layer].spec_apply(net_inputs[neuron]),
        );
        (net_inputs, outputs)
    }

    /// The network after a forward pass on `inputs`: the net inputs and the
    /// outputs of every layer are new, all else is as before.
    pub open spec fn forward(self, inputs: Seq<S>) -> Self {
        NetworkModel {
            net_inputs: Seq::new(
                self.weights.len(),
                |layer: int| self.forward_layer(inputs, layer).0,
            ),
            outputs: Seq::new(self.weights.len(), |layer: int| self.forward_layer(inputs, layer).1),
            ..self
        }
    }
}

/// Whether two networks agree on all that a forward pass reads: weights,
/// biases, dropout mask and activations.
pub open spec fn same_parameters<S>(a: NetworkModel<S>, b: NetworkModel<S>) -> bool {
    &&& a.weights == b.weights
    &&& a.biases == b.biases
    &&& a.dropout_mask == b.dropout_mask
    &&& a.activations == b.activations
}

/// A forward pass is a function of the weights, the biases, the dropout mask,
/// the activations and the inputs: two networks that agree on the first four
/// compute the same net inputs and outputs from the same inputs, whatever
/// else they hold.
pub proof fn lemma_forward_is_function_of_parameters<S: Scalar>(
    a: NetworkModel<S>,
    b: NetworkModel<S>,
    inputs: Seq<S>,
    layer: int,
)
    requires
        same_parameters(a, b),
    ensures
        a.forward_layer(inputs, layer) == b.forward_layer(inputs, layer),
    decreases layer,
{
    if layer > 0 {
        lemma_forward_is_function_of_parameters(a, b, inputs, layer - 1);
    }
    assert(a.forward_layer(inputs, layer).0 =~= b.forward_layer(inputs, layer).0);
    assert(a.forward_layer(inputs, layer).1 =~= b.forward_layer(inputs, layer).1);
}

/// Two forward passes on the same inputs leave the same net inputs and
/// outputs, and a forward pass forgets the one before it.
pub proof fn lemma_forward_overwrites<S: Scalar>(
    a: NetworkModel<S>,
    b: NetworkModel<S>,
    inputs: Seq<S>,
)
    requires
        same_parameters(a, b),
    ensures
        a.forward(inputs).net_inputs == b.forward(inputs).net_inputs,
        a.forward(inputs).outputs == b.forward(inputs).outputs,
{
    assert forall|layer: int| a.forward_layer(inputs, layer) == b.forward_layer(inputs, layer) by {
        lemma_forward_is_function_of_parameters(a, b, inputs, layer);
    }
    assert(a.forward(inputs).net_inputs =~= b.forward(inputs).net_inputs);
    assert(a.forward(inputs).outputs =~= b.forward(inputs).outputs);
}

impl<S: Scalar> Network<S> {
    /// The dot product of two vectors, over the length of the shorter one.
    pub fn dot_product(factors_1: &[S], factors_2: &[S]) -> (r: S)
        ensures
            r == spec_dot_product(factors_1@, factors_2@),
    {
        let len = if factors_1.len() <= factors_2.len() {
            factors_1.len()
        } else {
            factors_2.len()
        };
        let mut sum: S = zero();
        let mut index: usize = 0;
        while index < len
            invariant
                index <= len,
                len <= factors_1@.len(),
                len <= factors_2@.len(),
                sum == spec_dot_prefix(factors_1@, factors_2@, index as nat),
            decreases len - index,
        {
            sum = sum.add(factors_1[index].mul(factors_2[index]));
            index += 1;
        }
        sum
    }

    /// Feeds `inputs` through the network and keeps every layer's net inputs
    /// and outputs.
    pub fn forward(&mut self, inputs: &[S])
        requires
            old(self).wf(),
            inputs@.len() == old(self)@.composition[0],
        ensures
            final(self)@ == old(self)@.forward(inputs@),
            final(self).wf(),
    {
        let ghost model = self@;
        let depth = self.weights.len();
        let mut layer: usize = 0;
        while layer < depth
            invariant
                layer <= depth,
                depth == model.weights.len(),
                model.wf(),
                model == old(self)@,
                self.wf(),
                self@ == (NetworkModel { net_inputs: self@.net_inputs, outputs: self@.outputs, ..model }),
                forall|done: int|
                    0 <= done < layer ==> #[trigger] self@.net_inputs[done] == model.forward_layer(
                        inputs@,
                        done,
                    ).0,
                forall|done: int|
                    0 <= done < layer ==> #[trigger] self@.outputs[done] == model.forward_layer(
                        inputs@,
                        done,
                    ).1,
            decreases depth - layer,
        {
            let width = self.weights[layer].len();
            let mut net_inputs: Vec<S> = Vec::new();
            let mut outputs: Vec<S> = Vec::new();
            let ghost source = if layer == 0 {
                inputs@
            } else {
                self@.outputs[layer - 1]
            };
            let mut neuron: usize = 0;
            while neuron < width
                invariant
                    neuron <= width,
                    layer < depth,
                    depth == model.weights.len(),
                    width == model.weights[layer as int].len(),
                    model.wf(),
                    self.wf(),
                    self@ == (NetworkModel {
                        net_inputs: self@.net_inputs,
                        outputs: self@.outputs,
                        ..model
                    }),
                    source == if layer == 0 {
                        inputs@
                    } else {
                        self@.outputs[layer - 1]
                    },
                    net_inputs@.len() == neuron,
                    outputs@.len() == neuron,
                    forall|n: int|
                        0 <= n < neuron ==> #[trigger] net_inputs@[n] == spec_net_input(
                            source,
                            model.weights[layer as int][n],
                            model.dropout_mask[layer + 1][n],
                            model.biases[layer as int][n],
                        ),
                    forall|n: int|
                        0 <= n < neuron ==> #[trigger] outputs@[n]
                            == model.activations[layer as int].spec_apply(net_inputs@[n]),
                decreases width - neuron,
            {
                proof {
                    assert(self@.weights[layer as int][neuron as int] == self.weights@[layer as int]@[neuron as int]@);
                    assert(self@.dropout_mask[layer + 1].len() == width);
                    assert(self@.biases[layer as int].len() == width);
                    if layer > 0 {
                        assert(self@.outputs[layer - 1] == self.outputs@[layer - 1]@);
                    }
                }
                let dot = if layer == 0 {
                    Self::dot_product(inputs, self.weights[layer][neuron].as_slice())
                } else {
                    Self::dot_product(
                        self.outputs[layer - 1].as_slice(),
                        self.weights[layer][neuron].as_slice(),
                    )
                };
                let net_input = dot.mul(self.dropout_mask[layer + 1][neuron]).add(
                    self.biases[layer][neuron],
                );
                let output = self.hyper_params.activations[layer].apply(net_input);
                net_inputs.push(net_input);
                outputs.push(output);
                neuron += 1;
            }
            proof {
                assert(source == if layer == 0 {
                    inputs@
                } else {
                    model.forward_layer(inputs@, layer - 1).1
                });
                assert(net_inputs@ =~= model.forward_layer(inputs@, layer as int).0);
                assert(outputs@ =~= model.forward_layer(inputs@, layer as int).1);
            }
            proof {
                assert(self@.net_inputs[layer as int].len() == width);
                assert(self@.outputs[layer as int].len() == width);
            }
            let ghost before = self@;
            self.net_inputs[layer] = net_inputs;
            self.outputs[layer] = outputs;
            proof {
                assert(self@.net_inputs =~= before.net_inputs.update(layer as int, net_inputs@));
                assert(self@.outputs =~= before.outputs.update(layer as int, outputs@));
            }
            layer += 1;
        }
        proof {
            assert(self@.net_inputs =~= model.forward(inputs@).net_inputs);
            assert(self@.outputs =~= model.forward(inputs@).outputs);
        }
    }
}

} // verus!
