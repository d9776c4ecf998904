//! The Adam optimiser: two moment estimates per parameter and one shared
//! iteration counter.

use vstd::prelude::*;
use crate::scalar::{Scalar, spec_zero, spec_one, one};
use crate::network::state::Network;
use crate::network::utils::{
    zeros_2d_vec,
    zeros_3d_vec,
    rows,
    planes,
    layered,
    weight_shaped,
    all_equal_2d,
    all_equal_3d,
};

verus! {

/// The decay rates of the two moment estimates and the term that keeps the
/// step's denominator away from zero.
pub struct AdamHyperParams<S> {
    pub beta_1: S,
    pub beta_2: S,
    pub epsilon: S,
}

/// One moment estimate for every weight and every bias.
pub struct Moment<S> {
    pub weights: Vec<Vec<Vec<S>>>,
    pub biases: Vec<Vec<S>>,
}

/// The optimiser's state.
pub struct Adam<S> {
    /// The number of samples trained on so far; shared by all layers.
    pub iteration: i32,
    pub moment_1: Moment<S>,
    pub moment_2: Moment<S>,
}

impl<S: Scalar> Moment<S> {
    /// Moment estimates for the given composition, all zero.
    pub fn new(composition: &[usize]) -> (r: Self)
        ensures
            weight_shaped(planes(r.weights), composition@),
            layered(rows(r.biases), composition@, 1),
            all_equal_3d(planes(r.weights), spec_zero::<S>()),
            all_equal_2d(rows(r.biases), spec_zero::<S>()),
    {
        Self { weights: zeros_3d_vec(composition), biases: zeros_2d_vec(composition, 1) }
    }
}

impl<S: Scalar> Adam<S> {
    /// A fresh optimiser state: no iteration done, all moments zero.
    pub fn new(composition: &[usize]) -> (r: Self)
        ensures
            r.iteration == 0,
            weight_shaped(planes(r.moment_1.weights), composition@),
            layered(rows(r.moment_1.biases), composition@, 1),
            all_equal_3d(planes(r.moment_1.weights), spec_zero::<S>()),
            all_equal_2d(rows(r.moment_1.biases), spec_zero::<S>()),
            weight_shaped(planes(r.moment_2.weights), composition@),
            layered(rows(r.moment_2.biases), composition@, 1),
            all_equal_3d(planes(r.moment_2.weights), spec_zero::<S>()),
            all_equal_2d(rows(r.moment_2.biases), spec_zero::<S>()),
    {
        Self { iteration: 0, moment_1: Moment::new(composition), moment_2: Moment::new(composition) }
    }
}

/// The first moment after a gradient: `beta_1 * m + (1 - beta_1) * g`.
pub open spec fn spec_moment_1<S: Scalar>(moment: S, beta: S, gradient: S) -> S {
    beta.spec_mul(moment).spec_add(spec_one::<S>().spec_sub(beta).spec_mul(gradient))
}

/// The second moment after a gradient: `beta_2 * m + (1 - beta_2) * g^2`.
pub open spec fn spec_moment_2<S: Scalar>(moment: S, beta: S, gradient: S) -> S {
    beta.spec_mul(moment).spec_add(spec_one::<S>().spec_sub(beta).spec_mul(gradient.spec_powi(2)))
}

/// A moment with the bias of its zero start removed: `m / (1 - beta^k)`.
pub open spec fn spec_corrected<S: Scalar>(moment: S, beta: S, iteration: i32) -> S {
    moment.spec_div(spec_one::<S>().spec_sub(beta.spec_powi(iteration)))
}

/// The value one Adam step proposes for a parameter:
/// `parameter - alpha * m1 / (sqrt(m2) + epsilon)`, over corrected moments.
pub open spec fn spec_step<S: Scalar>(
    parameter: S,
    alpha: S,
    corrected_1: S,
    corrected_2: S,
    epsilon: S,
) -> S {
    parameter.spec_sub(alpha.spec_mul(corrected_1).spec_div(corrected_2.spec_sqrt().spec_add(epsilon)))
}

impl<S: Scalar> Network<S> {
    /// Folds a gradient into both moments and returns the two bias-corrected
    /// moments.
    pub fn compute_moments(
        moment_1: &mut S,
        moment_2: &mut S,
        optimizer: &AdamHyperParams<S>,
        gradient: &S,
        iteration: &i32,
    ) -> (r: (S, S))
        ensures
            *final(moment_1) == spec_moment_1(*old(moment_1), optimizer.beta_1, *gradient),
            *final(moment_2) == spec_moment_2(*old(moment_2), optimizer.beta_2, *gradient),
            r.0 == spec_corrected(*final(moment_1), optimizer.beta_1, *iteration),
            r.1 == spec_corrected(*final(moment_2), optimizer.beta_2, *iteration),
    {
        *moment_1 = optimizer.beta_1.mul(*moment_1).add(
            one::<S>().sub(optimizer.beta_1).mul(*gradient),
        );
        *moment_2 = optimizer.beta_2.mul(*moment_2).add(
            one::<S>().sub(optimizer.beta_2).mul(gradient.powi(2)),
        );
        (
            moment_1.div(one::<S>().sub(optimizer.beta_1.powi(*iteration))),
            moment_2.div(one::<S>().sub(optimizer.beta_2.powi(*iteration))),
        )
    }
}

} // verus!
