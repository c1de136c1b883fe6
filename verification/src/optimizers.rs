//! The optimization algorithms.

pub mod adagrad;
pub mod adam;
pub mod sgd;
