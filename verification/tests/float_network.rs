use neural_net::activations::{Activation, ActivationType};
use neural_net::dataset::{Data, Dataset};
use neural_net::monitor::{monitor, rank, showcase, statistics};
use neural_net::network::optimizations::batch::Batch;
use neural_net::network::train::Outcome;
use neural_net::network::optimizations::adam::AdamHyperParams;
use neural_net::network::optimizations::early_stopping::EarlyStopping;
use neural_net::network::optimizations::learning_rate::{Decay, DecayMethod, LearningRate, Restart};
use neural_net::network::optimizations::regularization::{
    Dropout, ElasticNetRegularization, ElasticNetRegularizer, Regularization,
};
use neural_net::network::state::{HyperParams, Network, NetworkError};
use neural_net::scalar::Scalar;

#[derive(Clone, Copy, Debug, PartialEq)]
struct F(f64);

// Each operation says what it returns by a twin of its own. The twins are
// never run; they return what the operation returns.
impl Scalar for F {
    fn spec_from_ratio(num: i64, den: i64) -> Self {
        Self::from_ratio(num, den)
    }

    fn spec_add(self, rhs: Self) -> Self {
        self.add(rhs)
    }

    fn spec_sub(self, rhs: Self) -> Self {
        self.sub(rhs)
    }

    fn spec_mul(self, rhs: Self) -> Self {
        self.mul(rhs)
    }

    fn spec_div(self, rhs: Self) -> Self {
        self.div(rhs)
    }

    fn spec_neg(self) -> Self {
        self.neg()
    }

    fn spec_abs(self) -> Self {
        self.abs()
    }

    fn spec_sqrt(self) -> Self {
        self.sqrt()
    }

    fn spec_powi(self, exponent: i32) -> Self {
        self.powi(exponent)
    }

    fn spec_exp(self) -> Self {
        self.exp()
    }

    fn spec_less(self, rhs: Self) -> bool {
        self.less(rhs)
    }

    fn spec_less_eq(self, rhs: Self) -> bool {
        self.less_eq(rhs)
    }

    fn spec_equals(self, rhs: Self) -> bool {
        self.equals(rhs)
    }

    fn from_ratio(num: i64, den: i64) -> Self {
        F(num as f64 / den as f64)
    }

    fn add(self, rhs: Self) -> Self {
        F(self.0 + rhs.0)
    }

    fn sub(self, rhs: Self) -> Self {
        F(self.0 - rhs.0)
    }

    fn mul(self, rhs: Self) -> Self {
        F(self.0 * rhs.0)
    }

    fn div(self, rhs: Self) -> Self {
        F(self.0 / rhs.0)
    }

    fn neg(self) -> Self {
        F(-self.0)
    }

    fn abs(self) -> Self {
        F(self.0.abs())
    }

    fn sqrt(self) -> Self {
        F(self.0.sqrt())
    }

    fn powi(self, exponent: i32) -> Self {
        F(self.0.powi(exponent))
    }

    fn exp(self) -> Self {
        F(self.0.exp())
    }

    fn less(self, rhs: Self) -> bool {
        self.0 < rhs.0
    }

    fn less_eq(self, rhs: Self) -> bool {
        self.0 <= rhs.0
    }

    fn equals(self, rhs: Self) -> bool {
        self.0 == rhs.0
    }
}

fn hyper_params(composition: Vec<usize>, kinds: &[ActivationType]) -> HyperParams<F> {
    HyperParams {
        composition,
        activations: Activation::get(kinds),
        regularization: Regularization {
            elastic_net: ElasticNetRegularization {
                weights: ElasticNetRegularizer { l1: F(0.0), l2: F(0.0) },
                biases: ElasticNetRegularizer { l1: F(0.0), l2: F(0.0) },
            },
            dropout_rate: Dropout { input_layer: F(0.0), hidden_layer: F(0.0) },
            max_norm_constraint: F(8.0),
        },
        learning_rate: LearningRate { alpha: F(0.01), restart: None, decay: None },
        optimizer: AdamHyperParams { beta_1: F(0.9), beta_2: F(0.999), epsilon: F(1e-8) },
        batch_size: 2,
        early_stopping: EarlyStopping { stability_threshold: F(5e-3), patience: 3 },
    }
}

fn values(row: &[F]) -> Vec<f64> {
    row.iter().map(|value| value.0).collect()
}

fn scalars(row: &[f64]) -> Vec<F> {
    row.iter().map(|value| F(*value)).collect()
}

fn single_neuron() -> Network<F> {
    // one bias, then the two weights of the only neuron
    Network::load(
        hyper_params(vec![2, 1], &[ActivationType::LeakyRelu]),
        &scalars(&[0.25, 0.5, 1.0]),
    )
    .unwrap()
}

fn activate(network: &mut Network<F>) {
    Dropout::set_all_active_mask(network);
}

#[test]
fn new_network_has_the_shapes_of_its_composition() {
    let network = Network::new(hyper_params(
        vec![3, 4, 2],
        &[ActivationType::LeakyRelu, ActivationType::Sigmoid],
    ))
    .unwrap();
    assert!(network.is_well_formed());
    assert_eq!(network.weights.len(), 2);
    assert_eq!(network.weights[0].len(), 4);
    assert!(network.weights[0].iter().all(|row| row.len() == 3));
    assert_eq!(network.weights[1].len(), 2);
    assert!(network.weights[1].iter().all(|row| row.len() == 4));
    for tensor in [&network.biases, &network.net_inputs, &network.outputs, &network.costs] {
        assert_eq!(tensor.len(), 2);
        assert_eq!(tensor[0].len(), 4);
        assert_eq!(tensor[1].len(), 2);
        assert!(tensor.iter().all(|layer| layer.iter().all(|value| value.0 == 0.0)));
    }
    assert_eq!(network.optimizer.moment_1.weights[0].len(), 4);
    assert_eq!(network.optimizer.moment_2.biases[1].len(), 2);
    assert_eq!(network.batch.weight_updates[1][0].len(), 4);
    assert_eq!(network.dropout_mask.len(), 3);
    assert_eq!(values(&network.dropout_mask[0]), vec![0.0; 3]);
    assert_eq!(values(&network.dropout_mask[1]), vec![0.0; 4]);
    assert_eq!(values(&network.dropout_mask[2]), vec![1.0, 1.0]);
    assert_eq!(network.optimizer.iteration, 0);
    assert!(network.performance.is_empty());
    assert_eq!(network.weight_count(), Some(20));
    assert_eq!(network.bias_count(), Some(6));
}

#[test]
fn new_network_starts_with_weights_between_minus_one_and_one() {
    let network = Network::new(hyper_params(
        vec![30, 20, 5],
        &[ActivationType::LeakyRelu, ActivationType::Sigmoid],
    ))
    .unwrap();
    let mut distinct = Vec::new();
    for layer in &network.weights {
        for row in layer {
            for weight in row {
                assert!(-1.0 <= weight.0 && weight.0 <= 1.0);
                if !distinct.contains(&weight.0) {
                    distinct.push(weight.0);
                }
            }
        }
    }
    assert!(distinct.len() > 100);
    assert!(distinct.iter().any(|weight| *weight < 0.0));
    assert!(distinct.iter().any(|weight| *weight > 0.0));
}

#[test]
fn new_network_refuses_a_wrong_number_of_activations() {
    let result = Network::new(hyper_params(vec![3, 4, 2], &[ActivationType::LeakyRelu]));
    assert!(matches!(result, Err(NetworkError::LayerActivationCountMismatch)));
    let empty = Network::new(hyper_params(vec![], &[]));
    assert!(matches!(empty, Err(NetworkError::LayerActivationCountMismatch)));
}

#[test]
fn activations_go_by_their_names() {
    assert_eq!(ActivationType::from_name("sigmoid"), Ok(ActivationType::Sigmoid));
    assert_eq!(ActivationType::from_name("leaky_relu"), Ok(ActivationType::LeakyRelu));
    assert_eq!(ActivationType::from_name("leaky_relu_steep"), Ok(ActivationType::LeakyReluSteep));
    assert_eq!(ActivationType::from_name("binary_step"), Ok(ActivationType::BinaryStep));
    assert_eq!(ActivationType::from_name("softmax"), Err(NetworkError::UnknownActivation));
    assert_eq!(ActivationType::from_name(""), Err(NetworkError::UnknownActivation));
    let resolved = Activation::named(&["tanh", "gelu", "elu", "swish"]).unwrap();
    let kinds: Vec<ActivationType> = resolved.iter().map(|activation| activation.kind).collect();
    assert_eq!(
        kinds,
        vec![ActivationType::Tanh, ActivationType::Gelu, ActivationType::Elu, ActivationType::Swish]
    );
    assert!(matches!(
        Activation::named(&["tanh", "relu6"]),
        Err(NetworkError::UnknownActivation)
    ));
}

#[test]
fn activations_have_their_numeric_forms() {
    let apply = |kind: ActivationType, x: f64| Activation { kind }.apply(F(x)).0;
    let slope = |kind: ActivationType, x: f64| Activation { kind }.derivative(F(x)).0;
    assert_eq!(apply(ActivationType::Sigmoid, 0.0), 0.5);
    assert_eq!(slope(ActivationType::Sigmoid, 0.0), 0.25);
    assert_eq!(apply(ActivationType::Sigmoid, 2.0), 1.0 / (1.0 + (-2.0f64).exp()));
    assert_eq!(apply(ActivationType::Tanh, 0.0), 0.0);
    assert!((apply(ActivationType::Tanh, 0.7) - 0.7f64.tanh()).abs() < 1e-15);
    assert!((slope(ActivationType::Tanh, 0.7) - (1.0 - 0.7f64.tanh().powi(2))).abs() < 1e-15);
    assert_eq!(apply(ActivationType::Swish, 0.0), 0.0);
    assert_eq!(slope(ActivationType::Swish, 0.0), 0.5);
    assert_eq!(apply(ActivationType::LeakyRelu, 3.0), 3.0);
    assert_eq!(apply(ActivationType::LeakyRelu, -3.0), -0.03);
    assert_eq!(slope(ActivationType::LeakyRelu, 3.0), 1.0);
    assert_eq!(slope(ActivationType::LeakyRelu, -3.0), 0.01);
    assert_eq!(slope(ActivationType::LeakyRelu, 0.0), 1.0);
    assert_eq!(apply(ActivationType::LeakyReluSteep, -3.0), 0.1 * -3.0);
    assert_eq!(slope(ActivationType::LeakyReluSteep, -3.0), 0.1);
    assert_eq!(apply(ActivationType::Elu, 2.0), 2.0);
    assert_eq!(apply(ActivationType::Elu, -1.0), (-1.0f64).exp() - 1.0);
    assert_eq!(slope(ActivationType::Elu, -1.0), (-1.0f64).exp());
    assert_eq!(slope(ActivationType::Elu, 1.0), 1.0);
    assert_eq!(apply(ActivationType::BinaryStep, 0.0), 1.0);
    assert_eq!(apply(ActivationType::BinaryStep, -0.5), 0.0);
    assert_eq!(slope(ActivationType::BinaryStep, 4.0), 0.0);
    assert_eq!(apply(ActivationType::Gelu, 0.0), 0.0);
    assert_eq!(slope(ActivationType::Gelu, 0.0), 0.5);
    let inner = 0.797_884_560_802_865_4 * (0.044_715 * 1.0 + 1.0);
    assert!((apply(ActivationType::Gelu, 1.0) - 0.5 * (1.0 + f64::tanh(inner))).abs() < 1e-15);
    assert!((apply(ActivationType::Gelu, 1.0) - 0.841_191_990_608).abs() < 1e-9);
    let step = 1e-6;
    for kind in [ActivationType::Gelu, ActivationType::Swish, ActivationType::Sigmoid] {
        for x in [-1.5, -0.3, 0.4, 2.0] {
            let numeric = (apply(kind, x + step) - apply(kind, x - step)) / (2.0 * step);
            assert!((slope(kind, x) - numeric).abs() < 1e-6);
        }
    }
}

#[test]
fn forward_computes_the_weighted_sums_and_outputs() {
    // biases of the two neurons, then their rows of weights
    let parameters = scalars(&[0.5, -1.0, 1.0, 2.0, -3.0, 0.25]);
    let mut network =
        Network::load(hyper_params(vec![2, 2], &[ActivationType::LeakyRelu]), &parameters).unwrap();
    network.forward(&[F(1.0), F(2.0)]);
    assert_eq!(values(&network.net_inputs[0]), vec![5.5, -3.5]);
    assert_eq!(values(&network.outputs[0]), vec![5.5, -0.035]);
}

#[test]
fn forward_scales_each_neuron_by_its_own_mask_entry() {
    let parameters = scalars(&[0.5, -1.0, 1.0, 2.0, -3.0, 0.25]);
    let mut network =
        Network::load(hyper_params(vec![2, 2], &[ActivationType::LeakyRelu]), &parameters).unwrap();
    network.dropout_mask[1] = scalars(&[0.0, 2.0]);
    network.dropout_mask[0] = scalars(&[7.0, 9.0]);
    network.forward(&[F(1.0), F(2.0)]);
    assert_eq!(values(&network.net_inputs[0]), vec![0.5, -2.5 * 2.0 - 1.0]);
}

#[test]
fn forward_feeds_each_layer_with_the_outputs_of_the_one_before() {
    let mut network = Network::load(
        hyper_params(vec![1, 2, 1], &[ActivationType::LeakyRelu, ActivationType::LeakyRelu]),
        &scalars(&[1.0, -1.0, 0.5, 2.0, -2.0, 3.0, 4.0]),
    )
    .unwrap();
    activate(&mut network);
    network.forward(&[F(1.0)]);
    // hidden: 2 * 1 + 1 = 3 and -2 * 1 - 1 = -3 -> -0.03
    assert_eq!(values(&network.outputs[0]), vec![3.0, -0.03]);
    // output: 3 * 3 + 4 * -0.03 + 0.5
    assert_eq!(values(&network.net_inputs[1]), vec![0.0 + 3.0 * 3.0 + 4.0 * -0.03 + 0.5]);
}

#[test]
fn forward_is_a_function_of_parameters_and_inputs() {
    let parameters = scalars(&[0.5, -1.0, 1.0, 2.0, -3.0, 0.25]);
    let mut first =
        Network::load(hyper_params(vec![2, 2], &[ActivationType::Sigmoid]), &parameters).unwrap();
    let mut second =
        Network::load(hyper_params(vec![2, 2], &[ActivationType::Sigmoid]), &parameters).unwrap();
    activate(&mut first);
    activate(&mut second);
    second.forward(&[F(9.0), F(-4.0)]);
    second.optimizer.iteration = 7;
    first.forward(&[F(0.3), F(0.8)]);
    second.forward(&[F(0.3), F(0.8)]);
    assert_eq!(first.outputs, second.outputs);
    assert_eq!(first.net_inputs, second.net_inputs);
    first.forward(&[F(0.3), F(0.8)]);
    assert_eq!(first.outputs, second.outputs);
}

#[test]
fn costs_are_output_minus_target_and_flow_back_through_the_weights() {
    let mut network = Network::load(
        hyper_params(vec![1, 2, 2], &[ActivationType::LeakyRelu, ActivationType::LeakyRelu]),
        &scalars(&[0.0, 0.0, 0.0, 0.0, 1.0, 2.0, 1.0, 2.0, 3.0, 4.0]),
    )
    .unwrap();
    activate(&mut network);
    network.forward(&[F(1.0)]);
    assert_eq!(values(&network.outputs[1]), vec![5.0, 11.0]);
    network.compute_costs(&[F(1.0), F(0.0)]);
    assert_eq!(values(&network.costs[1]), vec![4.0, 11.0]);
    // hidden neuron n: sum over the output neurons j of weight[j][n] * cost[j]
    assert_eq!(values(&network.costs[0]), vec![1.0 * 4.0 + 3.0 * 11.0, 2.0 * 4.0 + 4.0 * 11.0]);
}

#[test]
fn backward_pass_moves_moments_and_accumulator_by_the_formulas() {
    let mut network = single_neuron();
    network.hyper_params.regularization.elastic_net.weights =
        ElasticNetRegularizer { l1: F(0.1), l2: F(0.01) };
    activate(&mut network);
    network.optimizer.iteration = 1;
    network.forward(&[F(1.0), F(2.0)]);
    assert_eq!(network.outputs[0][0].0, 2.75);
    network.backward(&[F(1.0), F(2.0)], &[F(1.0)]);
    let cost = 2.75 - 1.0;
    assert_eq!(network.costs[0][0].0, cost);
    let weights = [0.5f64, 1.0];
    let inputs = [1.0f64, 2.0];
    for k in 0..2 {
        let penalty = 0.1 * weights[k].abs() + 0.01 * weights[k].powi(2);
        let gradient = (cost + penalty) * 1.0 * inputs[k];
        let moment_1 = 0.9 * 0.0 + (1.0 - 0.9) * gradient;
        let moment_2 = 0.999 * 0.0 + (1.0 - 0.999) * gradient.powi(2);
        let corrected_1 = moment_1 / (1.0 - 0.9f64.powi(1));
        let corrected_2 = moment_2 / (1.0 - 0.999f64.powi(1));
        let proposed = weights[k] - 0.01 * corrected_1 / (corrected_2.sqrt() + 1e-8);
        assert_eq!(network.optimizer.moment_1.weights[0][0][k].0, moment_1);
        assert_eq!(network.optimizer.moment_2.weights[0][0][k].0, moment_2);
        assert_eq!(network.batch.weight_updates[0][0][k].0, 0.0 + proposed);
        assert!((proposed - (weights[k] - 0.01)).abs() < 1e-8);
    }
    let gradient = (cost + 0.0) * 1.0;
    let moment_1 = (1.0 - 0.9) * gradient;
    let moment_2 = (1.0 - 0.999) * gradient.powi(2);
    let proposed = 0.25
        - 0.01 * (moment_1 / (1.0 - 0.9f64.powi(1)))
            / ((moment_2 / (1.0 - 0.999f64.powi(1))).sqrt() + 1e-8);
    assert_eq!(network.optimizer.moment_1.biases[0][0].0, moment_1);
    assert_eq!(network.optimizer.moment_2.biases[0][0].0, moment_2);
    assert_eq!(network.batch.bias_updates[0][0].0, proposed);
    // weights and biases themselves stay until the mini-batch ends
    assert_eq!(values(&network.weights[0][0]), vec![0.5, 1.0]);
    assert_eq!(network.biases[0][0].0, 0.25);
}

#[test]
fn backward_pass_of_a_hidden_layer_reads_its_own_source_and_cost() {
    let mut network = Network::load(
        hyper_params(vec![1, 1, 1], &[ActivationType::LeakyRelu, ActivationType::LeakyRelu]),
        &scalars(&[0.5, 0.0, 2.0, 3.0]),
    )
    .unwrap();
    activate(&mut network);
    network.optimizer.iteration = 1;
    network.forward(&[F(4.0)]);
    assert_eq!(network.outputs[0][0].0, 8.5);
    assert_eq!(network.outputs[1][0].0, 25.5);
    network.backward(&[F(4.0)], &[F(0.5)]);
    assert_eq!(network.costs[1][0].0, 25.0);
    assert_eq!(network.costs[0][0].0, 75.0);
    // the output layer's weight is fed by the hidden output, the hidden one by the input
    let output_gradient = 25.0 * 1.0 * 8.5;
    let hidden_gradient = 75.0 * 1.0 * 4.0;
    assert_eq!(network.optimizer.moment_1.weights[1][0][0].0, (1.0 - 0.9) * output_gradient);
    assert_eq!(network.optimizer.moment_1.weights[0][0][0].0, (1.0 - 0.9) * hidden_gradient);
    assert_eq!(network.optimizer.moment_1.biases[1][0].0, (1.0 - 0.9) * 25.0);
    assert_eq!(network.optimizer.moment_1.biases[0][0].0, (1.0 - 0.9) * 75.0);
    assert_eq!(
        network.optimizer.moment_2.weights[0][0][0].0,
        (1.0 - 0.999) * hidden_gradient * hidden_gradient
    );
}

#[test]
fn backward_pass_clips_the_accumulator_by_the_norm_of_the_row() {
    let mut network = Network::load(
        hyper_params(vec![2, 1], &[ActivationType::LeakyRelu]),
        &scalars(&[0.0, 3.0, 4.0]),
    )
    .unwrap();
    network.hyper_params.regularization.max_norm_constraint = F(2.5);
    activate(&mut network);
    network.optimizer.iteration = 1;
    network.forward(&[F(1.0), F(1.0)]);
    network.backward(&[F(1.0), F(1.0)], &[F(0.0)]);
    assert_eq!(Regularization::compute_l2_norm(&scalars(&[3.0, 4.0])).0, 5.0);
    let gradient = 7.0;
    let moment_1: f64 = (1.0 - 0.9) * gradient;
    let moment_2: f64 = (1.0 - 0.999) * gradient * gradient;
    let step = 0.01 * (moment_1 / (1.0 - 0.9f64.powi(1)))
        / ((moment_2 / (1.0 - 0.999f64.powi(1))).sqrt() + 1e-8);
    assert_eq!(network.batch.weight_updates[0][0][0].0, (0.0 + (3.0 - step)) * (2.5 / 5.0));
    assert_eq!(network.batch.weight_updates[0][0][1].0, (0.0 + (4.0 - step)) * (2.5 / 5.0));
    // the bias is not clipped
    assert_eq!(network.batch.bias_updates[0][0].0, 0.0 + (0.0 - step));
}

#[test]
fn elastic_net_adds_both_penalties() {
    let regularizer = ElasticNetRegularizer { l1: F(0.5), l2: F(0.25) };
    assert_eq!(Network::elastic_net_regularization(&regularizer, F(-2.0)).0, 0.5 * 2.0 + 0.25 * 4.0);
    assert_eq!(Network::elastic_net_regularization(&regularizer, F(0.0)).0, 0.0);
}

#[test]
fn moments_are_folded_and_corrected() {
    let optimizer = AdamHyperParams { beta_1: F(0.9), beta_2: F(0.999), epsilon: F(1e-8) };
    let mut moment_1 = F(0.5);
    let mut moment_2 = F(0.25);
    let (corrected_1, corrected_2) =
        Network::compute_moments(&mut moment_1, &mut moment_2, &optimizer, &F(2.0), &3);
    assert_eq!(moment_1.0, 0.9 * 0.5 + (1.0 - 0.9) * 2.0);
    assert_eq!(moment_2.0, 0.999 * 0.25 + (1.0 - 0.999) * 4.0);
    assert_eq!(corrected_1.0, moment_1.0 / (1.0 - 0.9f64.powi(3)));
    assert_eq!(corrected_2.0, moment_2.0 / (1.0 - 0.999f64.powi(3)));
}

#[test]
fn batch_update_takes_the_mean_and_clears_the_accumulator() {
    let mut network = single_neuron();
    network.batch.weight_updates[0][0] = scalars(&[3.0, -6.0]);
    network.batch.bias_updates[0] = scalars(&[1.5]);
    Batch::update(&mut network, 3);
    assert_eq!(values(&network.weights[0][0]), vec![1.0, -2.0]);
    assert_eq!(values(&network.biases[0]), vec![0.5]);
    assert_eq!(values(&network.batch.weight_updates[0][0]), vec![0.0, 0.0]);
    assert_eq!(values(&network.batch.bias_updates[0]), vec![0.0]);
}

#[test]
fn one_adam_step_moves_the_output_toward_the_target() {
    for (target, bias) in [(5.0, 0.25), (1.0, 0.25), (0.5, 1.0), (10.0, 0.0)] {
        let mut network = Network::load(
            hyper_params(vec![2, 1], &[ActivationType::LeakyRelu]),
            &scalars(&[bias, 0.5, 1.0]),
        )
        .unwrap();
        activate(&mut network);
        let data = Data { inputs: vec![scalars(&[1.0, 2.0])], targets: vec![scalars(&[target])] };
        network.forward(&[F(1.0), F(2.0)]);
        let before = network.outputs[0][0].0;
        network.train_chunk(&data, 0, 1);
        assert_eq!(network.optimizer.iteration, 1);
        network.forward(&[F(1.0), F(2.0)]);
        let after = network.outputs[0][0].0;
        assert!(after != before);
        assert_eq!((after - before).signum(), (target - before).signum());
        assert!((target - after).abs() < (target - before).abs());
    }
}

#[test]
fn dropout_mask_entries_are_zero_or_the_inverse_keep_probability() {
    let range = 0x20_0000_0000_0000u64;
    assert_eq!(Dropout::mask_entry(0, F(0.2)).0, 1.0 * (1.0 / (1.0 - 0.2)));
    assert_eq!(Dropout::mask_entry(range - 1, F(0.2)).0, 0.0);
    assert_eq!(Dropout::mask_entry(range / 2, F(0.5)).0, 0.0);
    assert_eq!(Dropout::mask_entry(range / 2 - 1, F(0.5)).0, 2.0);
    assert_eq!(Dropout::mask_entry(range - 1, F(0.0)).0, 1.0);
}

#[test]
fn set_mask_spares_the_output_layer() {
    let mut network = Network::new(hyper_params(
        vec![2, 3, 1],
        &[ActivationType::LeakyRelu, ActivationType::LeakyRelu],
    ))
    .unwrap();
    network.hyper_params.regularization.dropout_rate =
        Dropout { input_layer: F(0.5), hidden_layer: F(0.75) };
    let range = 0x20_0000_0000_0000u64;
    let draws = vec![vec![0, range - 1], vec![range - 1, 0, 0], vec![range - 1]];
    Dropout::set_mask(&mut network, &draws);
    assert_eq!(values(&network.dropout_mask[0]), vec![2.0, 0.0]);
    assert_eq!(values(&network.dropout_mask[1]), vec![0.0, 4.0, 4.0]);
    assert_eq!(values(&network.dropout_mask[2]), vec![1.0]);
}

#[test]
fn generated_mask_keeps_every_neuron_at_rate_zero_and_none_at_rate_one() {
    let mut network = Network::new(hyper_params(
        vec![40, 30, 2],
        &[ActivationType::LeakyRelu, ActivationType::LeakyRelu],
    ))
    .unwrap();
    Dropout::generate_mask(&mut network);
    assert_eq!(values(&network.dropout_mask[0]), vec![1.0; 40]);
    assert_eq!(values(&network.dropout_mask[1]), vec![1.0; 30]);
    assert_eq!(values(&network.dropout_mask[2]), vec![1.0; 2]);
    network.hyper_params.regularization.dropout_rate =
        Dropout { input_layer: F(0.5), hidden_layer: F(0.5) };
    Dropout::generate_mask(&mut network);
    for layer in 0..2 {
        assert!(network.dropout_mask[layer].iter().all(|entry| entry.0 == 0.0 || entry.0 == 2.0));
    }
    assert!(network.dropout_mask[0].iter().any(|entry| entry.0 == 0.0));
    assert!(network.dropout_mask[0].iter().any(|entry| entry.0 == 2.0));
    assert_eq!(values(&network.dropout_mask[2]), vec![1.0; 2]);
    Dropout::set_all_active_mask(&mut network);
    assert_eq!(values(&network.dropout_mask[0]), vec![1.0; 40]);
    assert_eq!(values(&network.dropout_mask[1]), vec![1.0; 30]);
}

#[test]
fn early_stopping_waits_for_a_full_window_and_stops_on_a_constant_one() {
    let mut network = single_neuron();
    assert!(!EarlyStopping::check(&mut network, F(0.7)));
    assert!(!EarlyStopping::check(&mut network, F(0.7)));
    assert!(EarlyStopping::check(&mut network, F(0.7)));
    assert_eq!(values(&network.performance), vec![0.7, 0.7, 0.7]);
}

#[test]
fn early_stopping_compares_the_mean_step_with_the_threshold() {
    let mut network = single_neuron();
    network.hyper_params.early_stopping = EarlyStopping { stability_threshold: F(0.05), patience: 3 };
    assert!(!EarlyStopping::check(&mut network, F(0.1)));
    assert!(!EarlyStopping::check(&mut network, F(0.4)));
    // steps 0.3 and 0.3, their mean 0.3 > 0.05
    assert!(!EarlyStopping::check(&mut network, F(0.7)));
    // steps 0.3 and 0.1 between the last three, their mean 0.2 > 0.05
    assert!(!EarlyStopping::check(&mut network, F(0.8)));
    // steps 0.1 and 0.02, their mean 0.06 > 0.05
    assert!(!EarlyStopping::check(&mut network, F(0.82)));
    // steps 0.02 and 0.06, their mean 0.04 <= 0.05
    assert!(EarlyStopping::check(&mut network, F(0.88)));
}

#[test]
fn early_stopping_takes_the_mean_over_the_number_of_steps() {
    let mut network = single_neuron();
    network.hyper_params.early_stopping = EarlyStopping { stability_threshold: F(0.1), patience: 2 };
    assert!(!EarlyStopping::check(&mut network, F(0.0)));
    // one step of 0.15, above the threshold
    assert!(!EarlyStopping::check(&mut network, F(0.15)));
    // one step of 0.1, at the threshold
    assert!(EarlyStopping::check(&mut network, F(0.25)));
    assert_eq!(values(&network.performance), vec![0.0, 0.15, 0.25]);
}

#[test]
fn early_stopping_with_a_patience_of_one_has_no_step_to_look_at() {
    let mut network = single_neuron();
    network.hyper_params.early_stopping = EarlyStopping { stability_threshold: F(0.0), patience: 1 };
    assert!(EarlyStopping::check(&mut network, F(0.3)));
    assert!(EarlyStopping::check(&mut network, F(0.9)));
    network.hyper_params.early_stopping = EarlyStopping { stability_threshold: F(-0.5), patience: 1 };
    assert!(!EarlyStopping::check(&mut network, F(0.9)));
}

#[test]
fn exponential_decay_multiplies_by_the_rate_to_the_epoch() {
    let mut params = hyper_params(vec![1, 1], &[ActivationType::LeakyRelu]);
    params.learning_rate = LearningRate {
        alpha: F(0.01),
        restart: None,
        decay: Some(Decay { method: DecayMethod::Exponential, rate: F(0.9) }),
    };
    let mut network = Network::new(params).unwrap();
    LearningRate::update(&mut network, &3);
    let alpha = network.hyper_params.learning_rate.alpha.0;
    assert_eq!(alpha, 0.01 * 0.9f64.powi(3));
    assert!((alpha - 0.01 * 0.729).abs() < 1e-15);
}

#[test]
fn step_decay_moves_the_rate_on_multiples_of_the_step_only() {
    let mut params = hyper_params(vec![1, 1], &[ActivationType::LeakyRelu]);
    params.learning_rate = LearningRate {
        alpha: F(0.01),
        restart: None,
        decay: Some(Decay { method: DecayMethod::Step(2), rate: F(0.5) }),
    };
    let mut network = Network::new(params).unwrap();
    LearningRate::update(&mut network, &1);
    assert_eq!(network.hyper_params.learning_rate.alpha.0, 0.01);
    LearningRate::update(&mut network, &2);
    assert_eq!(network.hyper_params.learning_rate.alpha.0, 0.005);
    LearningRate::update(&mut network, &3);
    assert_eq!(network.hyper_params.learning_rate.alpha.0, 0.005);
    LearningRate::update(&mut network, &4);
    assert_eq!(network.hyper_params.learning_rate.alpha.0, 0.0025);
}

#[test]
fn inverse_decay_divides_by_one_plus_rate_times_epoch() {
    let mut params = hyper_params(vec![1, 1], &[ActivationType::LeakyRelu]);
    params.learning_rate = LearningRate {
        alpha: F(0.01),
        restart: None,
        decay: Some(Decay { method: DecayMethod::Inverse, rate: F(0.5) }),
    };
    let mut network = Network::new(params).unwrap();
    LearningRate::update(&mut network, &4);
    assert_eq!(network.hyper_params.learning_rate.alpha.0, 0.01 / (1.0 + 0.5 * 4.0));
}

#[test]
fn restart_sets_the_rate_back_and_decay_counts_from_it() {
    let mut params = hyper_params(vec![1, 1], &[ActivationType::LeakyRelu]);
    params.learning_rate = LearningRate {
        alpha: F(0.01),
        restart: Some(Restart { interval: 10, alpha: F(0.001) }),
        decay: Some(Decay { method: DecayMethod::Exponential, rate: F(0.9) }),
    };
    assert!(params.learning_rate.is_well_formed());
    let mut network = Network::new(params).unwrap();
    LearningRate::update(&mut network, &20);
    assert_eq!(network.hyper_params.learning_rate.alpha.0, 0.001);
    LearningRate::update(&mut network, &23);
    assert_eq!(network.hyper_params.learning_rate.alpha.0, 0.001 * 0.9f64.powi(3));
}

#[test]
fn schedules_with_a_zero_interval_or_step_are_not_well_formed() {
    let zero_step = LearningRate {
        alpha: F(0.01),
        restart: None,
        decay: Some(Decay { method: DecayMethod::Step(0), rate: F(0.5) }),
    };
    assert!(!zero_step.is_well_formed());
    let zero_interval = LearningRate {
        alpha: F(0.01),
        restart: Some(Restart { interval: 0, alpha: F(0.1) }),
        decay: None,
    };
    assert!(!zero_interval.is_well_formed());
}

#[test]
fn saved_parameters_are_biases_then_weights_and_load_gives_them_back() {
    let network = Network::new(hyper_params(
        vec![3, 4, 2],
        &[ActivationType::LeakyRelu, ActivationType::Sigmoid],
    ))
    .unwrap();
    let saved = network.save();
    assert_eq!(saved.len(), 4 + 2 + 4 * 3 + 2 * 4);
    assert_eq!(saved[0].0, network.biases[0][0].0);
    assert_eq!(saved[4].0, network.biases[1][0].0);
    assert_eq!(saved[6].0, network.weights[0][0][0].0);
    assert_eq!(saved[6 + 3].0, network.weights[0][1][0].0);
    assert_eq!(saved[6 + 12 + 5].0, network.weights[1][1][1].0);
    let loaded = Network::load(
        hyper_params(vec![3, 4, 2], &[ActivationType::LeakyRelu, ActivationType::Sigmoid]),
        &saved,
    )
    .unwrap();
    assert_eq!(loaded.weights, network.weights);
    assert_eq!(loaded.biases, network.biases);
    for (loaded, saved) in loaded.save().iter().zip(saved.iter()) {
        assert_eq!(loaded.0.to_bits(), saved.0.to_bits());
    }
}

#[test]
fn load_places_the_parameters_in_order() {
    let loaded = Network::load(
        hyper_params(vec![2, 2, 1], &[ActivationType::LeakyRelu, ActivationType::Sigmoid]),
        &scalars(&[1.0, 2.0, 3.0, 4.0, 5.0, 6.0, 7.0, 8.0, 9.0]),
    )
    .unwrap();
    assert_eq!(values(&loaded.biases[0]), vec![1.0, 2.0]);
    assert_eq!(values(&loaded.biases[1]), vec![3.0]);
    assert_eq!(values(&loaded.weights[0][0]), vec![4.0, 5.0]);
    assert_eq!(values(&loaded.weights[0][1]), vec![6.0, 7.0]);
    assert_eq!(values(&loaded.weights[1][0]), vec![8.0, 9.0]);
    assert_eq!(loaded.optimizer.iteration, 0);
}

#[test]
fn load_refuses_a_wrong_number_of_parameters() {
    let kinds = [ActivationType::LeakyRelu];
    let short = Network::load(hyper_params(vec![2, 1], &kinds), &scalars(&[0.25, 0.5]));
    assert!(matches!(short, Err(NetworkError::ParameterCountMismatch)));
    let long = Network::load(hyper_params(vec![2, 1], &kinds), &scalars(&[0.25, 0.5, 1.0, 2.0]));
    assert!(matches!(long, Err(NetworkError::ParameterCountMismatch)));
    let none = Network::load(hyper_params(vec![2, 1], &kinds), &[]);
    assert!(matches!(none, Err(NetworkError::ParameterCountMismatch)));
    let mismatch = Network::load(hyper_params(vec![2, 1, 1], &kinds), &scalars(&[0.25, 0.5, 1.0]));
    assert!(matches!(mismatch, Err(NetworkError::LayerActivationCountMismatch)));
}

#[test]
fn evaluation_of_an_all_correct_set_gives_accuracy_one() {
    // two outputs: the first copies the first input, the second the second
    let mut network = Network::load(
        hyper_params(vec![2, 2], &[ActivationType::LeakyRelu]),
        &scalars(&[0.0, 0.0, 1.0, 0.0, 0.0, 1.0]),
    )
    .unwrap();
    let data = Data {
        inputs: vec![scalars(&[1.0, 0.0]), scalars(&[0.0, 1.0]), scalars(&[0.9, 0.2])],
        targets: vec![scalars(&[1.0, 0.0]), scalars(&[0.0, 1.0]), scalars(&[1.0, 0.0])],
    };
    let (accuracy, cost) = network.test(&data);
    assert_eq!(accuracy.0, 1.0);
    let expected = (0.0 + 0.5 * (1.0f64 - 0.9).powi(2) + 0.5 * (0.0f64 - 0.2).powi(2)) / 3.0;
    assert_eq!(cost.0, expected);
    assert_eq!(values(&network.dropout_mask[0]), vec![1.0, 1.0]);
}

#[test]
fn evaluation_of_an_all_wrong_set_gives_accuracy_zero() {
    let mut network = Network::load(
        hyper_params(vec![2, 2], &[ActivationType::LeakyRelu]),
        &scalars(&[0.0, 0.0, 1.0, 0.0, 0.0, 1.0]),
    )
    .unwrap();
    let data = Data {
        inputs: vec![scalars(&[1.0, 0.0]), scalars(&[0.0, 1.0])],
        targets: vec![scalars(&[0.0, 1.0]), scalars(&[1.0, 0.0])],
    };
    let (accuracy, cost) = network.test(&data);
    assert_eq!(accuracy.0, 0.0);
    assert_eq!(cost.0, (0.5 + 0.5 + 0.5 + 0.5) / 2.0);
}

#[test]
fn evaluation_leaves_the_parameters_alone() {
    let mut network = Network::load(
        hyper_params(vec![2, 2], &[ActivationType::Sigmoid]),
        &scalars(&[0.1, 0.2, 1.0, -1.0, 0.5, 1.5]),
    )
    .unwrap();
    let weights = network.weights.clone();
    let biases = network.biases.clone();
    let data = Data {
        inputs: vec![scalars(&[1.0, 0.0]), scalars(&[0.0, 1.0])],
        targets: vec![scalars(&[0.0, 1.0]), scalars(&[0.0, 1.0])],
    };
    let (accuracy, _) = network.test(&data);
    assert_eq!(accuracy.0, 0.5);
    assert_eq!(network.weights, weights);
    assert_eq!(network.biases, biases);
    assert_eq!(network.optimizer.iteration, 0);
    assert!(network.performance.is_empty());
}

#[test]
fn argmax_takes_the_last_of_equal_maxima() {
    assert_eq!(Network::argmax(&scalars(&[0.1, 0.9, 0.3])), 1);
    assert_eq!(Network::argmax(&scalars(&[0.5, 0.5, 0.1])), 1);
    assert_eq!(Network::argmax(&scalars(&[2.0])), 0);
    assert!(Network::is_one_hot_at(&scalars(&[0.0, 1.0, 0.0]), 1));
    assert!(!Network::is_one_hot_at(&scalars(&[0.0, 1.0, 0.0]), 2));
    assert!(!Network::is_one_hot_at(&scalars(&[0.0, 0.5, 0.0]), 1));
    assert!(!Network::is_one_hot_at(&scalars(&[0.0, 1.0]), 5));
}

#[test]
fn train_chunk_counts_every_sample_and_averages_their_proposals() {
    let mut network = single_neuron();
    activate(&mut network);
    let data = Data {
        inputs: vec![scalars(&[1.0, 2.0]), scalars(&[0.5, 0.5])],
        targets: vec![scalars(&[1.0]), scalars(&[0.0])],
    };
    let mut by_hand = single_neuron();
    activate(&mut by_hand);
    by_hand.train_sample(&[F(1.0), F(2.0)], &[F(1.0)]);
    by_hand.train_sample(&[F(0.5), F(0.5)], &[F(0.0)]);
    Batch::update(&mut by_hand, 2);
    network.train_chunk(&data, 0, 2);
    assert_eq!(network.optimizer.iteration, 2);
    assert_eq!(network.weights, by_hand.weights);
    assert_eq!(network.biases, by_hand.biases);
    assert!(network.weights[0][0][0].0 < 0.5 && network.weights[0][0][0].0 > 0.48);
    assert_eq!(values(&network.batch.bias_updates[0]), vec![0.0]);
}

#[test]
fn a_single_neuron_learns_two_points() {
    let mut params = hyper_params(vec![2, 1], &[ActivationType::LeakyRelu]);
    params.early_stopping = EarlyStopping { stability_threshold: F(5e-3), patience: 1000 };
    let mut network = Network::load(params, &scalars(&[0.3, 0.1, -0.2])).unwrap();
    let data = Data {
        inputs: vec![scalars(&[1.0, 1.0]), scalars(&[0.0, 0.0])],
        targets: vec![scalars(&[1.0]), scalars(&[0.0])],
    };
    let validation = Data {
        inputs: vec![scalars(&[1.0, 1.0]), scalars(&[0.0, 0.0])],
        targets: vec![scalars(&[1.0]), scalars(&[0.0])],
    };
    assert!(network.is_ready_to_train(&data, &validation, 400));
    let run = network.train(&data, &validation, 400);
    assert_eq!(run.outcome, Outcome::Exhausted);
    assert_eq!(run.reports.len(), 400);
    assert_eq!(network.optimizer.iteration, 800);
    let first = run.reports[0].cost.0;
    let last = run.reports[399].cost.0;
    assert!(last < first);
    assert!(last < 0.01);
    let mut correct = 0;
    for (inputs, targets) in data.inputs.iter().zip(data.targets.iter()) {
        network.forward(inputs);
        let answer = network.outputs[0][0].0;
        if (answer >= 0.5) == (targets[0].0 >= 0.5) {
            correct += 1;
        }
        assert!((answer - targets[0].0).abs() < 0.2);
    }
    assert_eq!(correct, 2);
}

#[test]
fn training_stops_on_a_plateau() {
    let mut params = hyper_params(vec![2, 2], &[ActivationType::LeakyRelu]);
    params.early_stopping = EarlyStopping { stability_threshold: F(5e-3), patience: 3 };
    params.learning_rate = LearningRate {
        alpha: F(0.01),
        restart: None,
        decay: Some(Decay { method: DecayMethod::Step(2), rate: F(0.5) }),
    };
    let mut network =
        Network::load(params, &scalars(&[0.0, 0.0, 1.0, 0.0, 0.0, 1.0])).unwrap();
    let data = Data {
        inputs: vec![scalars(&[1.0, 0.0]), scalars(&[0.0, 1.0]), scalars(&[0.8, 0.1])],
        targets: vec![scalars(&[1.0, 0.0]), scalars(&[0.0, 1.0]), scalars(&[1.0, 0.0])],
    };
    let validation = Data {
        inputs: vec![scalars(&[1.0, 0.0]), scalars(&[0.0, 1.0])],
        targets: vec![scalars(&[1.0, 0.0]), scalars(&[0.0, 1.0])],
    };
    let run = network.train(&data, &validation, 50);
    assert_eq!(run.outcome, Outcome::Converged);
    assert_eq!(run.reports.len(), 3);
    assert_eq!(values(&network.performance), vec![1.0, 1.0, 1.0]);
    let stops: Vec<bool> = run.reports.iter().map(|report| report.early_stop).collect();
    assert_eq!(stops, vec![false, false, true]);
    let epochs: Vec<u32> = run.reports.iter().map(|report| report.epoch).collect();
    assert_eq!(epochs, vec![1, 2, 3]);
    // the rate moved after epoch 2, and was reported before it moved
    assert_eq!(run.reports[1].alpha.0, 0.01);
    assert_eq!(run.reports[2].alpha.0, 0.005);
    assert_eq!(network.hyper_params.learning_rate.alpha.0, 0.005);
    // 3 epochs of 3 samples in mini-batches of 2 and 1
    assert_eq!(network.optimizer.iteration, 9);
    assert_eq!(values(&network.dropout_mask[0]), vec![1.0, 1.0]);
}

#[test]
fn training_without_epochs_does_nothing() {
    let mut network = single_neuron();
    let data = Data { inputs: vec![scalars(&[1.0, 1.0])], targets: vec![scalars(&[1.0])] };
    let validation = Data { inputs: vec![scalars(&[1.0, 1.0])], targets: vec![scalars(&[1.0])] };
    let run = network.train(&data, &validation, 0);
    assert_eq!(run.outcome, Outcome::Exhausted);
    assert!(run.reports.is_empty());
    assert_eq!(values(&network.weights[0][0]), vec![0.5, 1.0]);
}

#[test]
fn a_network_is_ready_to_train_only_on_samples_that_fit() {
    let mut network = single_neuron();
    let data = Data { inputs: vec![scalars(&[1.0, 1.0])], targets: vec![scalars(&[1.0])] };
    let wide = Data { inputs: vec![scalars(&[1.0, 1.0, 1.0])], targets: vec![scalars(&[1.0])] };
    assert!(network.is_ready_to_train(&data, &data, 10));
    assert!(!network.is_ready_to_train(&wide, &data, 10));
    assert!(!network.is_ready_to_train(&data, &wide, 10));
    assert!(network.is_ready_to_train(&data, &data, 0x7fff_ffff));
    assert!(!network.is_ready_to_train(&data, &data, 0x8000_0000));
    network.hyper_params.batch_size = 0;
    assert!(!network.is_ready_to_train(&data, &data, 10));
    network.hyper_params.batch_size = 4;
    network.biases[0].push(F(0.0));
    assert!(!network.is_well_formed());
    assert!(!network.is_ready_to_train(&data, &data, 10));
}

#[test]
fn data_fits_its_composition() {
    let data = Data { inputs: vec![vec![F(1.0), F(0.0)]], targets: vec![vec![F(1.0)]] };
    assert!(data.fits_composition(&[2, 3, 1]));
    assert!(!data.fits_composition(&[3, 1]));
    assert!(!data.fits_composition(&[2, 2]));
    assert!(!data.fits_composition(&[]));
    let ragged = Data { inputs: vec![vec![F(1.0), F(0.0)]], targets: vec![] };
    assert!(!ragged.fits_composition(&[2, 1]));
}

#[test]
fn one_hot_encoding_sets_one_entry_of_ten() {
    let encoded: Vec<F> = Data::one_hot_encode(3);
    assert_eq!(values(&encoded), vec![0.0, 0.0, 0.0, 1.0, 0.0, 0.0, 0.0, 0.0, 0.0, 0.0]);
    let first: Vec<F> = Data::one_hot_encode(0);
    assert_eq!(first[0].0, 1.0);
    let last: Vec<F> = Data::one_hot_encode(9);
    assert_eq!(last[9].0, 1.0);
    assert_eq!(Data::first_set(&last), Some(9));
    assert_eq!(Data::first_set(&scalars(&[0.0, 0.0])), None);
}

#[test]
fn records_are_scaled_and_encoded() {
    let images = vec![scalars(&[0.0, 255.0, 51.0]), scalars(&[127.5, 0.0, 0.0])];
    let data = Data::from_records(&[7, 0], &images);
    assert_eq!(values(&data.inputs[0]), vec![0.0, 1.0, 0.2]);
    assert_eq!(values(&data.inputs[1]), vec![0.5, 0.0, 0.0]);
    assert_eq!(data.targets[0].len(), 10);
    assert_eq!(Data::first_set(&data.targets[0]), Some(7));
    assert_eq!(Data::first_set(&data.targets[1]), Some(0));
}

#[test]
fn a_fifth_of_the_training_samples_is_held_out() {
    let inputs: Vec<Vec<F>> = (0..11).map(|sample| vec![F(sample as f64)]).collect();
    let targets: Vec<Vec<F>> = (0..11).map(|sample| vec![F(sample as f64 + 100.0)]).collect();
    let test = Data { inputs: vec![vec![F(-1.0)]], targets: vec![vec![F(-2.0)]] };
    let dataset = Dataset::new(Data { inputs, targets }, test);
    // 11 * 0.8 = 8.8
    assert_eq!(dataset.train.inputs.len(), 8);
    assert_eq!(dataset.train.targets.len(), 8);
    assert_eq!(dataset.validation.inputs.len(), 3);
    assert_eq!(dataset.validation.inputs[0][0].0, 8.0);
    assert_eq!(dataset.validation.targets[2][0].0, 110.0);
    assert_eq!(dataset.train.inputs[7][0].0, 7.0);
    assert_eq!(dataset.test.inputs[0][0].0, -1.0);
    let none = Dataset::new(
        Data { inputs: Vec::<Vec<F>>::new(), targets: Vec::new() },
        Data { inputs: Vec::new(), targets: Vec::new() },
    );
    assert!(none.train.inputs.is_empty() && none.validation.inputs.is_empty());
}

#[test]
fn showcase_shows_distinct_samples_with_their_answers() {
    let mut network = Network::load(
        hyper_params(vec![2, 2], &[ActivationType::LeakyRelu]),
        &scalars(&[0.0, 0.0, 1.0, 0.0, 0.0, 1.0]),
    )
    .unwrap();
    activate(&mut network);
    let inputs: Vec<Vec<F>> = (0..20).map(|sample| scalars(&[sample as f64, 1.0])).collect();
    let targets: Vec<Vec<F>> = (0..20).map(|sample| scalars(&[0.0, sample as f64])).collect();
    let data = Data { inputs, targets };
    let shown = showcase(&mut network, &data, 5);
    assert_eq!(shown.len(), 5);
    for (place, sample) in shown.iter().enumerate() {
        assert!(sample.index < 20);
        assert_eq!(values(&sample.outputs), vec![sample.index as f64, 1.0]);
        assert_eq!(sample.target, if sample.index == 0 { 0 } else { 1 });
        assert!(shown[..place].iter().all(|earlier| earlier.index != sample.index));
        assert_eq!(sample.ranking, if sample.index < 1 { vec![1, 0] } else { vec![0, 1] });
    }
    let all = showcase(&mut network, &data, 50);
    assert_eq!(all.len(), 20);
    let mut indices: Vec<usize> = all.iter().map(|sample| sample.index).collect();
    indices.sort();
    assert_eq!(indices, (0..20).collect::<Vec<usize>>());
    assert!(showcase(&mut network, &data, 0).is_empty());
}

#[test]
fn ranking_lists_the_largest_first_and_equal_values_in_their_order() {
    assert_eq!(rank(&scalars(&[0.1, 0.7, 0.2])), vec![1, 2, 0]);
    assert_eq!(rank(&scalars(&[0.5, 0.9, 0.5, 0.9, 0.1])), vec![1, 3, 0, 2, 4]);
    assert_eq!(rank(&scalars(&[3.0])), vec![0]);
    assert_eq!(rank(&scalars(&[1.0, 2.0, 3.0, 4.0])), vec![3, 2, 1, 0]);
    assert!(rank::<F>(&[]).is_empty());
}

#[test]
fn statistics_sum_the_network_up() {
    let mut network = Network::load(
        hyper_params(vec![2, 2], &[ActivationType::LeakyRelu]),
        &scalars(&[0.0, 0.0, 1.0, 0.0, 0.0, 1.0]),
    )
    .unwrap();
    let data = Data {
        inputs: vec![scalars(&[1.0, 0.0]), scalars(&[0.0, 1.0])],
        targets: vec![scalars(&[1.0, 0.0]), scalars(&[1.0, 0.0])],
    };
    let summary = statistics(&mut network, &data);
    assert_eq!(summary.accuracy.0, 0.5);
    assert_eq!(summary.cost.0, (0.0 + 0.5 + 0.5) / 2.0);
    assert_eq!(summary.weights, Some(4));
    assert_eq!(summary.biases, Some(2));
}

#[test]
fn monitor_hands_back_what_the_step_returns() {
    assert_eq!(monitor(|| 6 * 7), 42);
    let network = monitor(|| single_neuron());
    assert_eq!(values(&network.weights[0][0]), vec![0.5, 1.0]);
}
