//! The activation catalog: each kind of activation with its derivative.

use vstd::prelude::*;
use vstd::string::StringSliceAdditionalSpecFns;
use crate::scalar::{Scalar, spec_zero, spec_one, zero, one};
use crate::network::state::NetworkError;

verus! {

/// The kinds of activation a layer can use.
#[derive(Clone, Copy, Debug, PartialEq, Eq)]
pub enum ActivationType {
    /// `x` for `x >= 0`, else `0.01 * x`.
    LeakyRelu,
    /// `x` for `x >= 0`, else `0.1 * x`.
    LeakyReluSteep,
    /// `x` for `x >= 0`, else `exp(x) - 1`.
    Elu,
    /// The tanh approximation of the Gaussian error linear unit.
    Gelu,
    /// `1 / (1 + exp(-x))`.
    Sigmoid,
    /// `x * sigmoid(x)`.
    Swish,
    /// The hyperbolic tangent, as a ratio of exponentials.
    Tanh,
    /// `1` for `x >= 0`, else `0`.
    BinaryStep,
}

/// The kind of activation that goes by a name, if any does.
pub open spec fn spec_named(name: Seq<u8>) -> Option<ActivationType> {
    if name == "leaky_relu".spec_bytes() {
        Some(ActivationType::LeakyRelu)
    } else if name == "leaky_relu_steep".spec_bytes() {
        Some(ActivationType::LeakyReluSteep)
    } else if name == "elu".spec_bytes() {
        Some(ActivationType::Elu)
    } else if name == "gelu".spec_bytes() {
        Some(ActivationType::Gelu)
    } else if name == "sigmoid".spec_bytes() {
        Some(ActivationType::Sigmoid)
    } else if name == "swish".spec_bytes() {
        Some(ActivationType::Swish)
    } else if name == "tanh".spec_bytes() {
        Some(ActivationType::Tanh)
    } else if name == "binary_step".spec_bytes() {
        Some(ActivationType::BinaryStep)
    } else {
        None
    }
}

/// Whether two byte strings are the same.
fn same_bytes(a: &[u8], b: &[u8]) -> (r: bool)
    ensures
        r == (a@ == b@),
{
    if a.len() != b.len() {
        return false;
    }
    let mut index: usize = 0;
    while index < a.len()
        invariant
            index <= a@.len(),
            a@.len() == b@.len(),
            forall|i: int| 0 <= i < index ==> a@[i] == b@[i],
        decreases a@.len() - index,
    {
        if a[index] != b[index] {
            return false;
        }
        index += 1;
    }
    proof {
        assert(a@ =~= b@);
    }
    true
}

impl ActivationType {
    /// The kind of activation that goes by `name`. A name that the catalog
    /// does not know is refused.
    pub fn from_name(name: &str) -> (r: Result<ActivationType, NetworkError>)
        ensures
            match spec_named(name.spec_bytes()) {
                Some(kind) => r == Ok::<ActivationType, NetworkError>(kind),
                None => r == Err::<ActivationType, NetworkError>(NetworkError::UnknownActivation),
            },
    {
        let bytes = name.as_bytes();
        if same_bytes(bytes, "leaky_relu".as_bytes()) {
            Ok(ActivationType::LeakyRelu)
        } else if same_bytes(bytes, "leaky_relu_steep".as_bytes()) {
            Ok(ActivationType::LeakyReluSteep)
        } else if same_bytes(bytes, "elu".as_bytes()) {
            Ok(ActivationType::Elu)
        } else if same_bytes(bytes, "gelu".as_bytes()) {
            Ok(ActivationType::Gelu)
        } else if same_bytes(bytes, "sigmoid".as_bytes()) {
            Ok(ActivationType::Sigmoid)
        } else if same_bytes(bytes, "swish".as_bytes()) {
            Ok(ActivationType::Swish)
        } else if same_bytes(bytes, "tanh".as_bytes()) {
            Ok(ActivationType::Tanh)
        } else if same_bytes(bytes, "binary_step".as_bytes()) {
            Ok(ActivationType::BinaryStep)
        } else {
            Err(NetworkError::UnknownActivation)
        }
    }
}

/// One layer's activation: a function and its derivative, chosen by kind.
#[derive(Clone, Copy, Debug)]
pub struct Activation {
    pub kind: ActivationType,
}

/// `sqrt(2 / pi)`, the scale inside the approximated GELU.
pub open spec fn spec_gelu_scale<S: Scalar>() -> S {
    S::spec_from_ratio(7978845608028654, 10000000000000000)
}

/// The coefficient of the cubic term inside the approximated GELU.
pub open spec fn spec_gelu_cubic<S: Scalar>() -> S {
    S::spec_from_ratio(44715, 1000000)
}

/// The slope of a leaky rectifier below zero: `1 / slope_den`.
pub open spec fn spec_slope<S: Scalar>(slope_den: i64) -> S {
    S::spec_from_ratio(1, slope_den)
}

/// One half.
pub open spec fn spec_half<S: Scalar>() -> S {
    S::spec_from_ratio(1, 2)
}

/// `1 / (1 + exp(-x))`.
pub open spec fn spec_sigmoid<S: Scalar>(x: S) -> S {
    spec_one::<S>().spec_div(spec_one::<S>().spec_add(x.spec_neg().spec_exp()))
}

/// `(exp(x) - exp(-x)) / (exp(x) + exp(-x))`.
pub open spec fn spec_tanh<S: Scalar>(x: S) -> S {
    let exp_pos = x.spec_exp();
    let exp_neg = x.spec_neg().spec_exp();
    exp_pos.spec_sub(exp_neg).spec_div(exp_pos.spec_add(exp_neg))
}

/// `x` where `0 <= x`, else `x / slope_den`, computed as a product.
pub open spec fn spec_leaky_relu<S: Scalar>(x: S, slope_den: i64) -> S {
    if spec_zero::<S>().spec_less_eq(x) {
        x
    } else {
        spec_slope::<S>(slope_den).spec_mul(x)
    }
}

/// The slope of a leaky rectifier: one where `0 <= x`, else `1 / slope_den`.
pub open spec fn spec_leaky_relu_derivative<S: Scalar>(x: S, slope_den: i64) -> S {
    if spec_zero::<S>().spec_less_eq(x) {
        spec_one::<S>()
    } else {
        spec_slope::<S>(slope_den)
    }
}

/// The argument of the tanh inside GELU: `sqrt(2/pi) * (0.044715 * x^3 + x)`.
pub open spec fn spec_gelu_inner<S: Scalar>(x: S) -> S {
    spec_gelu_scale::<S>().spec_mul(spec_gelu_cubic::<S>().spec_mul(x.spec_powi(3)).spec_add(x))
}

/// The derivative of `spec_gelu_inner`: `sqrt(2/pi) * (1 + 3 * 0.044715 * x^2)`.
pub open spec fn spec_gelu_inner_slope<S: Scalar>(x: S) -> S {
    spec_gelu_scale::<S>().spec_mul(
        spec_one::<S>().spec_add(
            S::spec_from_ratio(3, 1).spec_mul(spec_gelu_cubic::<S>()).spec_mul(x.spec_powi(2)),
        ),
    )
}

/// `0.5 * x * (1 + tanh(inner(x)))`.
pub open spec fn spec_gelu<S: Scalar>(x: S) -> S {
    spec_half::<S>().spec_mul(x).spec_mul(
        spec_one::<S>().spec_add(spec_tanh(spec_gelu_inner(x))),
    )
}

/// `0.5 * (1 + t) + 0.5 * x * (1 - t^2) * inner'(x)` with `t = tanh(inner(x))`.
pub open spec fn spec_gelu_derivative<S: Scalar>(x: S) -> S {
    let t = spec_tanh(spec_gelu_inner(x));
    spec_half::<S>().spec_mul(spec_one::<S>().spec_add(t)).spec_add(
        spec_half::<S>().spec_mul(x).spec_mul(spec_one::<S>().spec_sub(t.spec_powi(2))).spec_mul(
            spec_gelu_inner_slope(x),
        ),
    )
}

impl Activation {
    /// The value of the activation at `x`.
    pub open spec fn spec_apply<S: Scalar>(self, x: S) -> S {
        match self.kind {
            ActivationType::LeakyRelu => spec_leaky_relu(x, 100),
            ActivationType::LeakyReluSteep => spec_leaky_relu(x, 10),
            ActivationType::Elu => if spec_zero::<S>().spec_less_eq(x) {
                x
            } else {
                x.spec_exp().spec_sub(spec_one::<S>())
            },
            ActivationType::Gelu => spec_gelu(x),
            ActivationType::Sigmoid => spec_sigmoid(x),
            ActivationType::Swish => x.spec_mul(spec_sigmoid(x)),
            ActivationType::Tanh => spec_tanh(x),
            ActivationType::BinaryStep => if spec_zero::<S>().spec_less_eq(x) {
                spec_one::<S>()
            } else {
                spec_zero::<S>()
            },
        }
    }

    /// The value of the activation's analytic derivative at `x`.
    pub open spec fn spec_derivative<S: Scalar>(self, x: S) -> S {
        match self.kind {
            ActivationType::LeakyRelu => spec_leaky_relu_derivative(x, 100),
            ActivationType::LeakyReluSteep => spec_leaky_relu_derivative(x, 10),
            ActivationType::Elu => if spec_zero::<S>().spec_less_eq(x) {
                spec_one::<S>()
            } else {
                x.spec_exp()
            },
            ActivationType::Gelu => spec_gelu_derivative(x),
            ActivationType::Sigmoid => {
                let s = spec_sigmoid(x);
                s.spec_mul(spec_one::<S>().spec_sub(s))
            },
            ActivationType::Swish => {
                let s = spec_sigmoid(x);
                s.spec_add(x.spec_mul(s.spec_mul(spec_one::<S>().spec_sub(s))))
            },
            ActivationType::Tanh => spec_one::<S>().spec_sub(spec_tanh(x).spec_powi(2)),
            ActivationType::BinaryStep => spec_zero::<S>(),
        }
    }

    /// Resolves a list of kinds into the activations of the layers, in order.
    pub fn get(activations: &[ActivationType]) -> (r: Vec<Activation>)
        ensures
            r@.len() == activations@.len(),
            forall|i: int| 0 <= i < r@.len() ==> (#[trigger] r@[i]).kind == activations@[i],
    {
        let mut resolved: Vec<Activation> = Vec::new();
        let mut index: usize = 0;
        while index < activations.len()
            invariant
                index <= activations@.len(),
                resolved@.len() == index,
                forall|i: int| 0 <= i < index ==> (#[trigger] resolved@[i]).kind == activations@[i],
            decreases activations@.len() - index,
        {
            resolved.push(Activation { kind: activations[index] });
            index += 1;
        }
        resolved
    }

    /// Resolves a list of names into the activations of the layers, in
    /// order. The list is refused as soon as it holds a name that the catalog
    /// does not know, and no activation is handed out.
    pub fn named(names: &[&str]) -> (r: Result<Vec<Activation>, NetworkError>)
        ensures
            match r {
                Ok(resolved) => {
                    &&& resolved@.len() == names@.len()
                    &&& forall|i: int|
                        0 <= i < names@.len() ==> spec_named(names@[i].spec_bytes()) == Some(
                            (#[trigger] resolved@[i]).kind,
                        )
                },
                Err(error) => {
                    &&& error == NetworkError::UnknownActivation
                    &&& exists|i: int|
                        0 <= i < names@.len() && spec_named(#[trigger] names@[i].spec_bytes()).is_none()
                },
            },
    {
        let mut resolved: Vec<Activation> = Vec::new();
        let mut index: usize = 0;
        while index < names.len()
            invariant
                index <= names@.len(),
                resolved@.len() == index,
                forall|i: int|
                    0 <= i < index ==> spec_named(names@[i].spec_bytes()) == Some(
                        (#[trigger] resolved@[i]).kind,
                    ),
            decreases names@.len() - index,
        {
            match ActivationType::from_name(names[index]) {
                Ok(kind) => {
                    resolved.push(Activation { kind });
                },
                Err(error) => {
                    proof {
                        assert(spec_named(names@[index as int].spec_bytes()).is_none());
                    }
                    return Err(error);
                },
            }
            index += 1;
        }
        Ok(resolved)
    }

    /// The value of the activation at `x`.
    pub fn apply<S: Scalar>(&self, x: S) -> (r: S)
        ensures
            r == self.spec_apply(x),
    {
        match self.kind {
            ActivationType::LeakyRelu => leaky_relu(x, 100),
            ActivationType::LeakyReluSteep => leaky_relu(x, 10),
            ActivationType::Elu => {
                if zero::<S>().less_eq(x) {
                    x
                } else {
                    x.exp().sub(one())
                }
            },
            ActivationType::Gelu => {
                let half = S::from_ratio(1, 2);
                half.mul(x).mul(one::<S>().add(tanh(gelu_inner(x))))
            },
            ActivationType::Sigmoid => sigmoid(x),
            ActivationType::Swish => x.mul(sigmoid(x)),
            ActivationType::Tanh => tanh(x),
            ActivationType::BinaryStep => {
                if zero::<S>().less_eq(x) {
                    one()
                } else {
                    zero()
                }
            },
        }
    }

    /// The value of the activation's analytic derivative at `x`.
    pub fn derivative<S: Scalar>(&self, x: S) -> (r: S)
        ensures
            r == self.spec_derivative(x),
    {
        match self.kind {
            ActivationType::LeakyRelu => leaky_relu_derivative(x, 100),
            ActivationType::LeakyReluSteep => leaky_relu_derivative(x, 10),
            ActivationType::Elu => {
                if zero::<S>().less_eq(x) {
                    one()
                } else {
                    x.exp()
                }
            },
            ActivationType::Gelu => {
                let half = S::from_ratio(1, 2);
                let t = tanh(gelu_inner(x));
                let inner_slope = gelu_scale::<S>().mul(
                    one::<S>().add(S::from_ratio(3, 1).mul(gelu_cubic()).mul(x.powi(2))),
                );
                half.mul(one::<S>().add(t)).add(
                    half.mul(x).mul(one::<S>().sub(t.powi(2))).mul(inner_slope),
                )
            },
            ActivationType::Sigmoid => {
                let s = sigmoid(x);
                s.mul(one::<S>().sub(s))
            },
            ActivationType::Swish => {
                let s = sigmoid(x);
                s.add(x.mul(s.mul(one::<S>().sub(s))))
            },
            ActivationType::Tanh => one::<S>().sub(tanh(x).powi(2)),
            ActivationType::BinaryStep => zero(),
        }
    }
}

fn gelu_scale<S: Scalar>() -> (r: S)
    ensures
        r == spec_gelu_scale::<S>(),
{
    S::from_ratio(7978845608028654, 10000000000000000)
}

fn gelu_cubic<S: Scalar>() -> (r: S)
    ensures
        r == spec_gelu_cubic::<S>(),
{
    S::from_ratio(44715, 1000000)
}

fn gelu_inner<S: Scalar>(x: S) -> (r: S)
    ensures
        r == spec_gelu_inner(x),
{
    gelu_scale::<S>().mul(gelu_cubic::<S>().mul(x.powi(3)).add(x))
}

fn sigmoid<S: Scalar>(x: S) -> (r: S)
    ensures
        r == spec_sigmoid(x),
{
    one::<S>().div(one::<S>().add(x.neg().exp()))
}

fn tanh<S: Scalar>(x: S) -> (r: S)
    ensures
        r == spec_tanh(x),
{
    let exp_pos = x.exp();
    let exp_neg = x.neg().exp();
    exp_pos.sub(exp_neg).div(exp_pos.add(exp_neg))
}

fn leaky_relu<S: Scalar>(x: S, slope_den: i64) -> (r: S)
    requires
        slope_den != 0,
    ensures
        r == spec_leaky_relu(x, slope_den),
{
    if zero::<S>().less_eq(x) {
        x
    } else {
        S::from_ratio(1, slope_den).mul(x)
    }
}

fn leaky_relu_derivative<S: Scalar>(x: S, slope_den: i64) -> (r: S)
    requires
        slope_den != 0,
    ensures
        r == spec_leaky_relu_derivative(x, slope_den),
{
    if zero::<S>().less_eq(x) {
        one()
    } else {
        S::from_ratio(1, slope_den)
    }
}

} // verus!
