//! What surrounds plain gradient descent: the optimiser, mini-batches,
//! regularisation, the learning-rate schedule and early stopping.

pub mod adam;
pub mod batch;
pub mod early_stopping;
pub mod learning_rate;
pub mod regularization;
