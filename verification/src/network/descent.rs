//! Gradient sanity in fixed-point arithmetic: the first Adam step never moves
//! a parameter along its gradient, and one step of training a single layer
//! on one sample never moves an output away from its target.
//!
//! A step can be rounded down to nothing, so the movement is strict only
//! where the step is plain to see; the last lemma says when that is.

use vstd::prelude::*;
use crate::activations::{Activation, ActivationType};
use crate::fixed::{
    Fixed,
    scale,
    lemma_mul_sign,
    lemma_mul_order,
    lemma_div_sign,
    lemma_unit_is_neutral,
    lemma_power_in_unit_interval,
    lemma_sqrt_is_not_negative,
};
use crate::scalar::{Scalar, spec_zero, spec_one, spec_from_count};
use crate::network::forward::{
    spec_dot_prefix,
    spec_dot_product,
    spec_net_input,
    lemma_forward_is_function_of_parameters,
};
use crate::network::optimizations::adam::{spec_moment_1, spec_moment_2, spec_corrected, spec_step};
use crate::network::optimizations::regularization::{
    ElasticNetRegularizer,
    spec_elastic_net,
    spec_l2_norm,
};
use crate::network::state::NetworkModel;
use crate::network::utils::{all_equal, all_equal_2d, all_equal_3d};

verus! {

/// What the first Adam step proposes for a parameter whose moments are still
/// zero.
pub open spec fn spec_first_step(
    parameter: Fixed,
    gradient: Fixed,
    alpha: Fixed,
    beta_1: Fixed,
    beta_2: Fixed,
    epsilon: Fixed,
    iteration: i32,
) -> Fixed {
    spec_step(
        parameter,
        alpha,
        spec_corrected(spec_moment_1(spec_zero::<Fixed>(), beta_1, gradient), beta_1, iteration),
        spec_corrected(spec_moment_2(spec_zero::<Fixed>(), beta_2, gradient), beta_2, iteration),
        epsilon,
    )
}

/// Whether the optimiser's settings are in their ranges: a learning rate and
/// an epsilon that are not negative, and decay rates between zero and one.
pub open spec fn adam_in_range(alpha: Fixed, beta_1: Fixed, beta_2: Fixed, epsilon: Fixed) -> bool {
    &&& 0 <= alpha.raw
    &&& 0 <= epsilon.raw
    &&& 0 <= beta_1.raw <= scale()
    &&& 0 <= beta_2.raw <= scale()
}

/// The first Adam step never moves a parameter along its gradient: where the
/// gradient is not negative the proposed value is at most the parameter, and
/// where it is not positive at least the parameter.
pub proof fn lemma_first_step_descends(
    parameter: Fixed,
    gradient: Fixed,
    alpha: Fixed,
    beta_1: Fixed,
    beta_2: Fixed,
    epsilon: Fixed,
    iteration: i32,
)
    requires
        adam_in_range(alpha, beta_1, beta_2, epsilon),
        0 <= iteration,
    ensures
        0 <= gradient.raw ==> spec_first_step(
            parameter,
            gradient,
            alpha,
            beta_1,
            beta_2,
            epsilon,
            iteration,
        ).raw <= parameter.raw,
        gradient.raw <= 0 ==> parameter.raw <= spec_first_step(
            parameter,
            gradient,
            alpha,
            beta_1,
            beta_2,
            epsilon,
            iteration,
        ).raw,
{
    let zero = spec_zero::<Fixed>();
    let one = spec_one::<Fixed>();
    assert(zero.raw == 0 && one.raw == scale());
    // the first moment has the sign of the gradient
    let kept = beta_1.spec_mul(zero);
    lemma_mul_sign(beta_1, zero);
    assert(kept.raw == 0);
    let weight = one.spec_sub(beta_1);
    assert(0 <= weight.raw);
    let moment_1 = spec_moment_1(zero, beta_1, gradient);
    lemma_mul_sign(weight, gradient);
    assert(0 <= gradient.raw ==> 0 <= moment_1.raw);
    assert(gradient.raw <= 0 ==> moment_1.raw <= 0);
    // so has the corrected first moment
    lemma_power_in_unit_interval(beta_1, iteration as nat);
    let divisor_1 = one.spec_sub(beta_1.spec_powi(iteration));
    assert(0 <= divisor_1.raw);
    let corrected_1 = spec_corrected(moment_1, beta_1, iteration);
    lemma_div_sign(moment_1, divisor_1);
    // the step's divisor is not negative
    let corrected_2 = spec_corrected(spec_moment_2(zero, beta_2, gradient), beta_2, iteration);
    lemma_sqrt_is_not_negative(corrected_2);
    let divisor = corrected_2.spec_sqrt().spec_add(epsilon);
    assert(0 <= divisor.raw);
    // so the step has the sign of the gradient
    let scaled = alpha.spec_mul(corrected_1);
    lemma_mul_sign(alpha, corrected_1);
    lemma_div_sign(scaled, divisor);
}

/// Whether the network is a single layer of leaky rectifiers that has not
/// trained yet, without penalties, dropout or clipping, and with the
/// optimiser's settings in their ranges.
pub open spec fn is_plain_single_layer(model: NetworkModel<Fixed>) -> bool {
    &&& model.wf()
    &&& model.composition.len() == 2
    &&& model.activations[0].kind == ActivationType::LeakyRelu
    &&& model.regularization.elastic_net.weights.l1.raw == 0
    &&& model.regularization.elastic_net.weights.l2.raw == 0
    &&& model.regularization.elastic_net.biases.l1.raw == 0
    &&& model.regularization.elastic_net.biases.l2.raw == 0
    &&& adam_in_range(
        model.learning_rate.alpha,
        model.adam.beta_1,
        model.adam.beta_2,
        model.adam.epsilon,
    )
    &&& 0 <= model.iteration < i32::MAX
    &&& all_equal_3d(model.moment_1_weights, spec_zero::<Fixed>())
    &&& all_equal_3d(model.moment_2_weights, spec_zero::<Fixed>())
    &&& all_equal_2d(model.moment_1_biases, spec_zero::<Fixed>())
    &&& all_equal_2d(model.moment_2_biases, spec_zero::<Fixed>())
    &&& all_equal_3d(model.weight_updates, spec_zero::<Fixed>())
    &&& all_equal_2d(model.bias_updates, spec_zero::<Fixed>())
    &&& all_equal(model.dropout_mask[1], spec_one::<Fixed>())
    &&& forall|neuron: int|
        0 <= neuron < model.weights[0].len() ==> !model.regularization.max_norm_constraint.spec_less(
            spec_l2_norm(#[trigger] model.weights[0][neuron]),
        )
}

/// A penalty whose weights are zero is zero.
proof fn lemma_no_penalty(regularizer: ElasticNetRegularizer<Fixed>, value: Fixed)
    requires
        regularizer.l1.raw == 0,
        regularizer.l2.raw == 0,
    ensures
        spec_elastic_net(regularizer, value).raw == 0,
{
    assert(0 * value.spec_abs().raw == 0);
    assert(0 * value.spec_powi(2).raw == 0);
}

/// A leaky rectifier keeps the order of its arguments, and its slope is
/// positive.
proof fn lemma_leaky_relu_order(smaller: Fixed, larger: Fixed)
    requires
        smaller.raw <= larger.raw,
    ensures
        (Activation { kind: ActivationType::LeakyRelu }).spec_apply(smaller).raw <= (Activation {
            kind: ActivationType::LeakyRelu,
        }).spec_apply(larger).raw,
        0 < (Activation { kind: ActivationType::LeakyRelu }).spec_derivative(smaller).raw,
{
    let slope = Fixed::spec_from_ratio(1, 100);
    assert(1 * scale() == scale());
    assert(0x1_0000_0000int / 100 == 42949672);
    assert(slope.raw == 42949672);
    assert(spec_zero::<Fixed>().raw == 0);
    assert(spec_one::<Fixed>().raw == scale());
    lemma_mul_sign(slope, smaller);
    lemma_mul_sign(slope, larger);
    lemma_mul_order(smaller, larger, slope);
}

/// A dot product does not grow where none of its products grows.
proof fn lemma_dot_order(source: Seq<Fixed>, lower: Seq<Fixed>, upper: Seq<Fixed>, n: nat)
    requires
        forall|k: int|
            0 <= k < n ==> (#[trigger] source[k].spec_mul(lower[k])).raw <= source[k].spec_mul(
                upper[k],
            ).raw,
    ensures
        spec_dot_prefix(source, lower, n).raw <= spec_dot_prefix(source, upper, n).raw,
    decreases n,
{
    if n > 0 {
        lemma_dot_order(source, lower, upper, (n - 1) as nat);
        assert(source[n - 1].spec_mul(lower[n - 1]).raw <= source[n - 1].spec_mul(upper[n - 1]).raw);
    }
}

/// The output of a neuron does not grow where neither its bias nor any of
/// the products of a weight with its input grows.
proof fn lemma_output_order(
    source: Seq<Fixed>,
    lower: Seq<Fixed>,
    lower_bias: Fixed,
    upper: Seq<Fixed>,
    upper_bias: Fixed,
)
    requires
        lower.len() == upper.len(),
        lower_bias.raw <= upper_bias.raw,
        forall|k: int|
            0 <= k < lower.len() ==> (#[trigger] source[k].spec_mul(lower[k])).raw <= source[k].spec_mul(
                upper[k],
            ).raw,
    ensures
        (Activation { kind: ActivationType::LeakyRelu }).spec_apply(
            spec_net_input(source, lower, spec_one::<Fixed>(), lower_bias),
        ).raw <= (Activation { kind: ActivationType::LeakyRelu }).spec_apply(
            spec_net_input(source, upper, spec_one::<Fixed>(), upper_bias),
        ).raw,
{
    let n: nat = if source.len() <= lower.len() {
        source.len()
    } else {
        lower.len()
    };
    lemma_dot_order(source, lower, upper, n);
    lemma_unit_is_neutral(spec_dot_product(source, lower));
    lemma_unit_is_neutral(spec_dot_product(source, upper));
    assert(spec_one::<Fixed>() == Fixed::unit());
    lemma_leaky_relu_order(
        spec_net_input(source, lower, spec_one::<Fixed>(), lower_bias),
        spec_net_input(source, upper, spec_one::<Fixed>(), upper_bias),
    );
}

impl NetworkModel<Fixed> {
    /// The gradient of a weight of a single layer, from the outputs that a
    /// forward pass on `inputs` gives.
    spec fn plain_weight_gradient(
        self,
        inputs: Seq<Fixed>,
        targets: Seq<Fixed>,
        neuron: int,
        k: int,
    ) -> Fixed {
        let forwarded = self.forward_layer(inputs, 0);
        forwarded.1[neuron].spec_sub(targets[neuron]).spec_add(
            spec_elastic_net(self.regularization.elastic_net.weights, self.weights[0][neuron][k]),
        ).spec_mul(self.activations[0].spec_derivative(forwarded.0[neuron])).spec_mul(inputs[k])
    }

    /// The gradient of a bias of a single layer, from the outputs that a
    /// forward pass on `inputs` gives.
    spec fn plain_bias_gradient(self, inputs: Seq<Fixed>, targets: Seq<Fixed>, neuron: int) -> Fixed {
        let forwarded = self.forward_layer(inputs, 0);
        forwarded.1[neuron].spec_sub(targets[neuron]).spec_add(
            spec_elastic_net(self.regularization.elastic_net.biases, self.biases[0][neuron]),
        ).spec_mul(self.activations[0].spec_derivative(forwarded.0[neuron]))
    }
}

/// After a mini-batch of one sample the parameters of a plain single layer
/// are what the first Adam step proposes for them; the rest of what a
/// forward pass reads is as before.
proof fn lemma_plain_step(
    model: NetworkModel<Fixed>,
    inputs: Seq<Fixed>,
    targets: Seq<Fixed>,
    neuron: int,
)
    requires
        is_plain_single_layer(model),
        inputs.len() == model.composition[0],
        targets.len() == model.composition[1],
        0 <= neuron < model.composition[1],
    ensures
        ({
            let trained = model.train_chunk(seq![inputs], seq![targets], 0, 1);
            &&& trained.weights.len() == 1
            &&& trained.weights[0].len() == model.weights[0].len()
            &&& trained.weights[0][neuron].len() == model.weights[0][neuron].len()
            &&& trained.dropout_mask == model.dropout_mask
            &&& trained.activations == model.activations
            &&& trained.biases[0][neuron] == spec_first_step(
                model.biases[0][neuron],
                model.plain_bias_gradient(inputs, targets, neuron),
                model.learning_rate.alpha,
                model.adam.beta_1,
                model.adam.beta_2,
                model.adam.epsilon,
                (model.iteration + 1) as i32,
            )
            &&& forall|k: int|
                0 <= k < model.weights[0][neuron].len() ==> #[trigger] trained.weights[0][neuron][k]
                    == spec_first_step(
                    model.weights[0][neuron][k],
                    model.plain_weight_gradient(inputs, targets, neuron, k),
                    model.learning_rate.alpha,
                    model.adam.beta_1,
                    model.adam.beta_2,
                    model.adam.epsilon,
                    (model.iteration + 1) as i32,
                )
        }),
{
    let samples = seq![inputs];
    let answers = seq![targets];
    let counted = NetworkModel { iteration: (model.iteration + 1) as i32, ..model };
    let forwarded = counted.forward(inputs);
    let costed = forwarded.compute_costs(targets);
    let stepped = costed.backward_pass(0, inputs);
    let trained = stepped.batch_update(1);
    assert(samples[0] == inputs && answers[0] == targets);
    assert(model.train_samples(samples, answers, 0, 1) == model.train_samples(
        samples,
        answers,
        0,
        0,
    ).train_sample(samples[0], answers[0]));
    assert(model.train_samples(samples, answers, 0, 0) == model);
    assert(costed.backward_from(inputs, 1) == costed);
    assert(costed.backward_from(inputs, 0) == costed.backward_from(inputs, 1).backward_pass(0, inputs));
    assert(model.train_chunk(samples, answers, 0, 1) == trained);
    lemma_forward_is_function_of_parameters(counted, model, inputs, 0);
    assert(forwarded.outputs[0] == model.forward_layer(inputs, 0).1);
    assert(forwarded.net_inputs[0] == model.forward_layer(inputs, 0).0);
    assert(costed.costs[0] == forwarded.output_costs(targets));
    assert(spec_from_count::<Fixed>(1) == Fixed::unit());
    assert(spec_zero::<Fixed>().raw == 0);
    let bias_step = costed.stepped_bias(0, neuron);
    assert(costed.bias_gradient(0, neuron) == model.plain_bias_gradient(inputs, targets, neuron));
    assert(model.moment_1_biases[0][neuron] == spec_zero::<Fixed>());
    assert(model.moment_2_biases[0][neuron] == spec_zero::<Fixed>());
    assert(model.bias_updates[0][neuron] == spec_zero::<Fixed>());
    lemma_unit_is_neutral(bias_step.2);
    assert(trained.biases[0][neuron] == bias_step.2.spec_div(spec_from_count::<Fixed>(1)));
    assert forall|k: int|
        0 <= k < model.weights[0][neuron].len() implies #[trigger] trained.weights[0][neuron][k]
        == spec_first_step(
        model.weights[0][neuron][k],
        model.plain_weight_gradient(inputs, targets, neuron, k),
        model.learning_rate.alpha,
        model.adam.beta_1,
        model.adam.beta_2,
        model.adam.epsilon,
        (model.iteration + 1) as i32,
    ) by {
        let weight_step = costed.stepped_weight(inputs, 0, neuron, k);
        assert(costed.weight_gradient(inputs, 0, neuron, k) == model.plain_weight_gradient(
            inputs,
            targets,
            neuron,
            k,
        ));
        assert(model.moment_1_weights[0][neuron][k] == spec_zero::<Fixed>());
        assert(model.moment_2_weights[0][neuron][k] == spec_zero::<Fixed>());
        assert(model.weight_updates[0][neuron][k] == spec_zero::<Fixed>());
        assert(!model.regularization.max_norm_constraint.spec_less(
            spec_l2_norm(model.weights[0][neuron]),
        ));
        lemma_unit_is_neutral(weight_step.2);
        assert(trained.weights[0][neuron][k] == weight_step.2.spec_div(spec_from_count::<Fixed>(1)));
    }
}

/// How one step of training a plain single layer on one sample moves what a
/// neuron's output is made from: where the output is at or above its target,
/// neither the bias nor any product of an input with its weight grows, and
/// where it is at or below, none of them shrinks.
proof fn lemma_plain_step_order(
    model: NetworkModel<Fixed>,
    inputs: Seq<Fixed>,
    targets: Seq<Fixed>,
    neuron: int,
)
    requires
        is_plain_single_layer(model),
        inputs.len() == model.composition[0],
        targets.len() == model.composition[1],
        0 <= neuron < model.composition[1],
    ensures
        ({
            let trained = model.train_chunk(seq![inputs], seq![targets], 0, 1);
            let row = model.weights[0][neuron];
            let bias = model.biases[0][neuron];
            let new_row = trained.weights[0][neuron];
            let new_bias = trained.biases[0][neuron];
            let one = spec_one::<Fixed>();
            let before = model.forward(inputs).outputs[0][neuron];
            let leaky = Activation { kind: ActivationType::LeakyRelu };
            &&& new_row.len() == row.len()
            &&& model.forward(inputs).net_inputs[0][neuron] == spec_net_input(inputs, row, one, bias)
            &&& trained.forward(inputs).net_inputs[0][neuron] == spec_net_input(
                inputs,
                new_row,
                one,
                new_bias,
            )
            &&& before == leaky.spec_apply(spec_net_input(inputs, row, one, bias))
            &&& trained.forward(inputs).outputs[0][neuron] == leaky.spec_apply(
                spec_net_input(inputs, new_row, one, new_bias),
            )
            &&& targets[neuron].raw <= before.raw ==> new_bias.raw <= bias.raw && forall|k: int|
                0 <= k < row.len() ==> (#[trigger] inputs[k].spec_mul(new_row[k])).raw
                    <= inputs[k].spec_mul(row[k]).raw
            &&& before.raw <= targets[neuron].raw ==> bias.raw <= new_bias.raw && forall|k: int|
                0 <= k < row.len() ==> (#[trigger] inputs[k].spec_mul(row[k])).raw
                    <= inputs[k].spec_mul(new_row[k]).raw
        }),
{
    let trained = model.train_chunk(seq![inputs], seq![targets], 0, 1);
    lemma_plain_step(model, inputs, targets, neuron);
    let row = model.weights[0][neuron];
    let bias = model.biases[0][neuron];
    let new_row = trained.weights[0][neuron];
    let new_bias = trained.biases[0][neuron];
    let one = spec_one::<Fixed>();
    let before = model.forward(inputs).outputs[0][neuron];
    let after = trained.forward(inputs).outputs[0][neuron];
    let net = model.forward_layer(inputs, 0).0[neuron];
    assert(model.dropout_mask[1][neuron] == one);
    assert(before == model.activations[0].spec_apply(spec_net_input(inputs, row, one, bias)));
    assert(after == model.activations[0].spec_apply(spec_net_input(inputs, new_row, one, new_bias)));
    assert(model.activations[0] == Activation { kind: ActivationType::LeakyRelu });
    let cost = before.spec_sub(targets[neuron]);
    let slope = model.activations[0].spec_derivative(net);
    lemma_leaky_relu_order(net, net);
    lemma_no_penalty(model.regularization.elastic_net.biases, bias);
    let bias_signal = cost.spec_add(spec_elastic_net(model.regularization.elastic_net.biases, bias));
    assert(bias_signal == cost);
    lemma_mul_sign(cost, slope);
    lemma_first_step_descends(
        bias,
        model.plain_bias_gradient(inputs, targets, neuron),
        model.learning_rate.alpha,
        model.adam.beta_1,
        model.adam.beta_2,
        model.adam.epsilon,
        (model.iteration + 1) as i32,
    );
    assert forall|k: int| 0 <= k < row.len() implies (targets[neuron].raw <= before.raw ==> (
    #[trigger] inputs[k].spec_mul(new_row[k])).raw <= inputs[k].spec_mul(row[k]).raw) && (before.raw
        <= targets[neuron].raw ==> inputs[k].spec_mul(row[k]).raw <= inputs[k].spec_mul(
        new_row[k],
    ).raw) by {
        lemma_no_penalty(model.regularization.elastic_net.weights, row[k]);
        let signal = cost.spec_add(spec_elastic_net(model.regularization.elastic_net.weights, row[k]));
        assert(signal == cost);
        lemma_mul_sign(cost.spec_mul(slope), inputs[k]);
        lemma_first_step_descends(
            row[k],
            model.plain_weight_gradient(inputs, targets, neuron, k),
            model.learning_rate.alpha,
            model.adam.beta_1,
            model.adam.beta_2,
            model.adam.epsilon,
            (model.iteration + 1) as i32,
        );
        if new_row[k].raw <= row[k].raw {
            lemma_mul_order(new_row[k], row[k], inputs[k]);
        }
        if row[k].raw <= new_row[k].raw {
            lemma_mul_order(row[k], new_row[k], inputs[k]);
        }
    }
}

/// One step of training a plain single layer on one sample never moves an
/// output away from its target: the output does not rise where it is at or
/// above its target, and does not fall where it is at or below it.
pub proof fn lemma_step_moves_output_toward_target(
    model: NetworkModel<Fixed>,
    inputs: Seq<Fixed>,
    targets: Seq<Fixed>,
    neuron: int,
)
    requires
        is_plain_single_layer(model),
        inputs.len() == model.composition[0],
        targets.len() == model.composition[1],
        0 <= neuron < model.composition[1],
    ensures
        ({
            let before = model.forward(inputs).outputs[0][neuron];
            let after = model.train_chunk(seq![inputs], seq![targets], 0, 1).forward(
                inputs,
            ).outputs[0][neuron];
            &&& targets[neuron].raw <= before.raw ==> after.raw <= before.raw
            &&& before.raw <= targets[neuron].raw ==> before.raw <= after.raw
        }),
{
    let trained = model.train_chunk(seq![inputs], seq![targets], 0, 1);
    lemma_plain_step_order(model, inputs, targets, neuron);
    let row = model.weights[0][neuron];
    let bias = model.biases[0][neuron];
    let new_row = trained.weights[0][neuron];
    let new_bias = trained.biases[0][neuron];
    let before = model.forward(inputs).outputs[0][neuron];
    if targets[neuron].raw <= before.raw {
        lemma_output_order(inputs, new_row, new_bias, row, bias);
    }
    if before.raw <= targets[neuron].raw {
        lemma_output_order(inputs, row, bias, new_row, new_bias);
    }
}

/// Whether the step on one sample is plain to see at a neuron: the
/// rectifier passes the neuron's net input on as it is, before the step and
/// after it, neither net input is at the end of the scalar's range, and the
/// step on the neuron's bias has not been rounded down to nothing.
pub open spec fn step_is_plain_to_see(
    model: NetworkModel<Fixed>,
    inputs: Seq<Fixed>,
    targets: Seq<Fixed>,
    neuron: int,
) -> bool {
    let trained = model.train_chunk(seq![inputs], seq![targets], 0, 1);
    let net = model.forward(inputs).net_inputs[0][neuron];
    let new_net = trained.forward(inputs).net_inputs[0][neuron];
    &&& 0 <= net.raw < i64::MAX
    &&& 0 <= new_net.raw < i64::MAX
    &&& trained.biases[0][neuron] != model.biases[0][neuron]
}

/// One step of training a plain single layer on one sample moves an output
/// strictly toward its target wherever the step is plain to see: the output
/// falls where it is above its target and rises where it is below.
pub proof fn lemma_step_moves_output_strictly_toward_target(
    model: NetworkModel<Fixed>,
    inputs: Seq<Fixed>,
    targets: Seq<Fixed>,
    neuron: int,
)
    requires
        is_plain_single_layer(model),
        inputs.len() == model.composition[0],
        targets.len() == model.composition[1],
        0 <= neuron < model.composition[1],
        step_is_plain_to_see(model, inputs, targets, neuron),
    ensures
        ({
            let before = model.forward(inputs).outputs[0][neuron];
            let after = model.train_chunk(seq![inputs], seq![targets], 0, 1).forward(
                inputs,
            ).outputs[0][neuron];
            &&& targets[neuron].raw < before.raw ==> after.raw < before.raw
            &&& before.raw < targets[neuron].raw ==> before.raw < after.raw
        }),
{
    let trained = model.train_chunk(seq![inputs], seq![targets], 0, 1);
    lemma_plain_step_order(model, inputs, targets, neuron);
    let row = model.weights[0][neuron];
    let bias = model.biases[0][neuron];
    let new_row = trained.weights[0][neuron];
    let new_bias = trained.biases[0][neuron];
    let before = model.forward(inputs).outputs[0][neuron];
    let n: nat = if inputs.len() <= row.len() {
        inputs.len()
    } else {
        row.len()
    };
    let dot = spec_dot_product(inputs, row);
    let new_dot = spec_dot_product(inputs, new_row);
    lemma_unit_is_neutral(dot);
    lemma_unit_is_neutral(new_dot);
    assert(spec_one::<Fixed>() == Fixed::unit());
    assert(spec_zero::<Fixed>().raw == 0);
    if targets[neuron].raw < before.raw {
        lemma_dot_order(inputs, new_row, row, n);
    }
    if before.raw < targets[neuron].raw {
        lemma_dot_order(inputs, row, new_row, n);
    }
}

} // verus!
