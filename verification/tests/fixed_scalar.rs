use neural_net::activations::{Activation, ActivationType};
use neural_net::dataset::Data;
use neural_net::fixed::Fixed;
use neural_net::network::optimizations::adam::AdamHyperParams;
use neural_net::network::optimizations::early_stopping::EarlyStopping;
use neural_net::network::optimizations::learning_rate::LearningRate;
use neural_net::network::optimizations::regularization::{
    Dropout, ElasticNetRegularization, ElasticNetRegularizer, Regularization,
};
use neural_net::network::state::{HyperParams, Network};
use neural_net::scalar::{from_count, one, zero, Scalar};

const ONE: i64 = 1 << 32;

fn fixed(value: f64) -> Fixed {
    Fixed { raw: (value * ONE as f64) as i64 }
}

fn float(value: Fixed) -> f64 {
    value.raw as f64 / ONE as f64
}

fn ratio(num: i64, den: i64) -> Fixed {
    Fixed::from_ratio(num, den)
}

#[test]
fn fixed_ratios_round_toward_zero() {
    assert_eq!(ratio(1, 1).raw, ONE);
    assert_eq!(ratio(1, 2).raw, ONE / 2);
    assert_eq!(ratio(-3, 1).raw, -3 * ONE);
    assert_eq!(ratio(1, 3).raw, 0x5555_5555);
    assert_eq!(ratio(-1, 3).raw, -0x5555_5555);
    assert_eq!(ratio(1, -3).raw, -0x5555_5555);
    assert_eq!(ratio(-1, -3).raw, 0x5555_5555);
    assert_eq!(ratio(0, 5).raw, 0);
    assert_eq!(ratio(i64::MAX, 1).raw, i64::MAX);
    assert_eq!(ratio(i64::MIN, 1).raw, i64::MIN);
    assert_eq!(zero::<Fixed>().raw, 0);
    assert_eq!(one::<Fixed>().raw, ONE);
    assert_eq!(from_count::<Fixed>(7).raw, 7 * ONE);
}

#[test]
fn fixed_sums_saturate() {
    assert_eq!(fixed(1.5).add(fixed(2.25)), fixed(3.75));
    assert_eq!(fixed(1.5).sub(fixed(2.25)), fixed(-0.75));
    assert_eq!(Fixed { raw: i64::MAX }.add(fixed(1.0)).raw, i64::MAX);
    assert_eq!(Fixed { raw: i64::MIN }.sub(fixed(1.0)).raw, i64::MIN);
    assert_eq!(Fixed { raw: i64::MIN }.neg().raw, i64::MAX);
    assert_eq!(fixed(2.5).neg(), fixed(-2.5));
    assert_eq!(fixed(-2.5).abs(), fixed(2.5));
    assert_eq!(fixed(2.5).abs(), fixed(2.5));
    assert_eq!(Fixed { raw: i64::MIN }.abs().raw, i64::MAX);
}

#[test]
fn fixed_products_and_quotients_round_toward_zero_and_saturate() {
    assert_eq!(fixed(1.5).mul(fixed(2.5)), fixed(3.75));
    assert_eq!(fixed(-1.5).mul(fixed(2.5)), fixed(-3.75));
    assert_eq!(fixed(-1.5).mul(fixed(-2.5)), fixed(3.75));
    assert_eq!(Fixed { raw: 1 }.mul(Fixed { raw: 1 }).raw, 0);
    assert_eq!(Fixed { raw: -1 }.mul(Fixed { raw: 1 }).raw, 0);
    assert_eq!(Fixed { raw: 3 }.mul(fixed(0.5)).raw, 1);
    assert_eq!(Fixed { raw: -3 }.mul(fixed(0.5)).raw, -1);
    assert_eq!(fixed(100000.0).mul(fixed(100000.0)).raw, i64::MAX);
    assert_eq!(fixed(-100000.0).mul(fixed(100000.0)).raw, i64::MIN);
    assert_eq!(fixed(1.0).div(fixed(4.0)), fixed(0.25));
    assert_eq!(fixed(-1.0).div(fixed(4.0)), fixed(-0.25));
    assert_eq!(fixed(1.0).div(fixed(3.0)).raw, 0x5555_5555);
    assert_eq!(fixed(7.0).div(fixed(7.0)), fixed(1.0));
    assert_eq!(fixed(1.0).div(fixed(0.0)).raw, i64::MAX);
    assert_eq!(fixed(-1.0).div(fixed(0.0)).raw, i64::MIN);
    assert_eq!(fixed(0.0).div(fixed(0.0)).raw, 0);
    assert_eq!(fixed(1000.0).div(Fixed { raw: 1 }).raw, i64::MAX);
}

#[test]
fn fixed_square_roots_round_down() {
    assert_eq!(fixed(4.0).sqrt(), fixed(2.0));
    assert_eq!(fixed(0.25).sqrt(), fixed(0.5));
    assert_eq!(fixed(2.0).sqrt().raw, 6_074_000_999);
    assert_eq!(fixed(0.0).sqrt().raw, 0);
    assert_eq!(fixed(-9.0).sqrt().raw, 0);
    let largest = Fixed { raw: i64::MAX }.sqrt();
    assert!((float(largest) - 2147483648.0f64.sqrt()).abs() < 1e-9);
    for raw in [1i64, 2, 3, 1 << 20, 12_345_678_901, i64::MAX] {
        let root = Fixed { raw }.sqrt().raw as i128;
        let value = (raw as i128) << 32;
        assert!(root * root <= value && value < (root + 1) * (root + 1));
    }
}

#[test]
fn fixed_powers_are_taken_by_squaring() {
    assert_eq!(fixed(2.0).powi(10), fixed(1024.0));
    assert_eq!(fixed(2.0).powi(0), fixed(1.0));
    assert_eq!(fixed(0.0).powi(0), fixed(1.0));
    assert_eq!(fixed(0.5).powi(3), fixed(0.125));
    assert_eq!(fixed(-2.0).powi(3), fixed(-8.0));
    assert_eq!(fixed(2.0).powi(-2), fixed(0.25));
    assert_eq!(fixed(2.0).powi(40).raw, i64::MAX);
    assert_eq!(fixed(3.0).power(5), fixed(243.0));
    assert!((float(fixed(0.9).powi(3)) - 0.729).abs() < 1e-8);
    assert_eq!(fixed(0.999).powi(i32::MAX).raw, 0);
    assert_eq!(fixed(1.0).powi(i32::MIN), fixed(1.0));
}

#[test]
fn fixed_exponentials_follow_the_series() {
    assert_eq!(fixed(0.0).exp(), fixed(1.0));
    assert!((float(fixed(1.0).exp()) - std::f64::consts::E).abs() < 1e-6);
    assert!((float(fixed(-1.0).exp()) - (-1.0f64).exp()).abs() < 1e-6);
    assert!((float(fixed(0.5).exp()) - 0.5f64.exp()).abs() < 1e-6);
    assert!((float(fixed(5.0).exp()) - 5.0f64.exp()).abs() < 1e-3);
    assert!((float(fixed(-5.0).exp()) - (-5.0f64).exp()).abs() < 1e-6);
    assert_eq!(fixed(30.0).exp().raw, i64::MAX);
    assert!(float(fixed(-30.0).exp()) < 1e-8);
    assert_eq!(fixed(2.0).exp_of_positive(), fixed(2.0).exp());
}

#[test]
fn fixed_comparisons_go_by_the_raw_value() {
    assert!(fixed(1.0).less(fixed(1.5)));
    assert!(!fixed(1.5).less(fixed(1.5)));
    assert!(fixed(1.5).less_eq(fixed(1.5)));
    assert!(!fixed(2.0).less_eq(fixed(1.5)));
    assert!(fixed(-1.0).less(fixed(0.0)));
    assert!(fixed(1.5).equals(fixed(1.5)));
    assert!(!fixed(1.5).equals(fixed(-1.5)));
}

fn hyper_params(composition: Vec<usize>, kinds: &[ActivationType]) -> HyperParams<Fixed> {
    HyperParams {
        composition,
        activations: Activation::get(kinds),
        regularization: Regularization {
            elastic_net: ElasticNetRegularization {
                weights: ElasticNetRegularizer { l1: fixed(0.0), l2: fixed(0.0) },
                biases: ElasticNetRegularizer { l1: fixed(0.0), l2: fixed(0.0) },
            },
            dropout_rate: Dropout { input_layer: fixed(0.0), hidden_layer: fixed(0.0) },
            max_norm_constraint: fixed(8.0),
        },
        learning_rate: LearningRate { alpha: ratio(1, 100), restart: None, decay: None },
        optimizer: AdamHyperParams {
            beta_1: ratio(9, 10),
            beta_2: ratio(999, 1000),
            epsilon: ratio(1, 100_000_000),
        },
        batch_size: 2,
        early_stopping: EarlyStopping { stability_threshold: ratio(5, 1000), patience: 3 },
    }
}

#[test]
fn fixed_activations_are_exact_where_the_numbers_are() {
    let sigmoid = Activation { kind: ActivationType::Sigmoid };
    assert_eq!(sigmoid.apply(fixed(0.0)), fixed(0.5));
    assert_eq!(sigmoid.derivative(fixed(0.0)), fixed(0.25));
    let leaky = Activation { kind: ActivationType::LeakyReluSteep };
    assert_eq!(leaky.apply(fixed(3.0)), fixed(3.0));
    assert_eq!(leaky.apply(fixed(-3.0)), ratio(1, 10).mul(fixed(-3.0)));
    let step = Activation { kind: ActivationType::BinaryStep };
    assert_eq!(step.apply(fixed(-0.5)), fixed(0.0));
    assert_eq!(step.apply(fixed(0.5)), fixed(1.0));
    let tanh = Activation { kind: ActivationType::Tanh };
    assert!((float(tanh.apply(fixed(0.7))) - 0.7f64.tanh()).abs() < 1e-6);
}

#[test]
fn fixed_network_computes_exact_sums() {
    let parameters = vec![fixed(0.5), fixed(-1.0), fixed(1.0), fixed(2.0), fixed(-3.0), fixed(0.25)];
    let mut network =
        Network::load(hyper_params(vec![2, 2], &[ActivationType::BinaryStep]), &parameters).unwrap();
    network.forward(&[fixed(1.0), fixed(2.0)]);
    assert_eq!(network.net_inputs[0], vec![fixed(5.5), fixed(-3.5)]);
    assert_eq!(network.outputs[0], vec![fixed(1.0), fixed(0.0)]);
}

#[test]
fn fixed_accuracy_is_exactly_one_or_zero() {
    let parameters = vec![fixed(0.0), fixed(0.0), fixed(1.0), fixed(0.0), fixed(0.0), fixed(1.0)];
    let mut network =
        Network::load(hyper_params(vec![2, 2], &[ActivationType::LeakyRelu]), &parameters).unwrap();
    let right = Data {
        inputs: vec![vec![fixed(1.0), fixed(0.0)], vec![fixed(0.0), fixed(1.0)], vec![fixed(0.2), fixed(0.7)]],
        targets: vec![vec![fixed(1.0), fixed(0.0)], vec![fixed(0.0), fixed(1.0)], vec![fixed(0.0), fixed(1.0)]],
    };
    let (accuracy, _) = network.test(&right);
    assert_eq!(accuracy, fixed(1.0));
    let wrong = Data {
        inputs: vec![vec![fixed(1.0), fixed(0.0)], vec![fixed(0.0), fixed(1.0)]],
        targets: vec![vec![fixed(0.0), fixed(1.0)], vec![fixed(1.0), fixed(0.0)]],
    };
    let (accuracy, cost) = network.test(&wrong);
    assert_eq!(accuracy, fixed(0.0));
    assert_eq!(cost, fixed(1.0));
}

#[test]
fn fixed_constant_history_stops_training_when_the_window_is_full() {
    let mut network = Network::load(
        hyper_params(vec![1, 1], &[ActivationType::LeakyRelu]),
        &[fixed(0.0), fixed(1.0)],
    )
    .unwrap();
    network.hyper_params.early_stopping = EarlyStopping { stability_threshold: fixed(0.0), patience: 4 };
    assert!(!EarlyStopping::check(&mut network, ratio(1, 3)));
    assert!(!EarlyStopping::check(&mut network, ratio(1, 3)));
    assert!(!EarlyStopping::check(&mut network, ratio(1, 3)));
    assert!(EarlyStopping::check(&mut network, ratio(1, 3)));
}

#[test]
fn fixed_mean_step_is_taken_over_the_number_of_steps() {
    let mut network = Network::load(
        hyper_params(vec![1, 1], &[ActivationType::LeakyRelu]),
        &[fixed(0.0), fixed(1.0)],
    )
    .unwrap();
    network.hyper_params.early_stopping =
        EarlyStopping { stability_threshold: fixed(0.125), patience: 2 };
    assert!(!EarlyStopping::check(&mut network, fixed(0.0)));
    assert!(!EarlyStopping::check(&mut network, fixed(0.1875)));
    assert!(EarlyStopping::check(&mut network, fixed(0.3125)));
}

#[test]
fn fixed_network_trains_toward_the_target() {
    let mut network = Network::load(
        hyper_params(vec![2, 1], &[ActivationType::LeakyRelu]),
        &[fixed(0.25), fixed(0.5), fixed(1.0)],
    )
    .unwrap();
    Dropout::set_all_active_mask(&mut network);
    let data = Data {
        inputs: vec![vec![fixed(1.0), fixed(2.0)]],
        targets: vec![vec![fixed(5.0)]],
    };
    network.forward(&[fixed(1.0), fixed(2.0)]);
    let before = network.outputs[0][0];
    assert_eq!(before, fixed(2.75));
    network.train_chunk(&data, 0, 1);
    network.forward(&[fixed(1.0), fixed(2.0)]);
    let after = network.outputs[0][0];
    assert!(before.less(after));
    assert!(after.less(fixed(5.0)));
    // the step shows: the bias has moved, and the net input stays positive
    assert!(fixed(0.25).less(network.biases[0][0]));
    assert!(fixed(0.0).less(network.net_inputs[0][0]));
    assert!((float(after) - (2.75 + 0.04)).abs() < 1e-4);
}
