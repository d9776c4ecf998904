//! The network: its state, the forward and backward passes, training and
//! evaluation.

pub mod backward;
pub mod descent;
pub mod evaluation;
pub mod forward;
pub mod optimizations;
pub mod persistence;
pub mod state;
pub mod train;
pub mod utils;
