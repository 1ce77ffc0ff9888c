//! Random generation and mutation of strategy parameters.

pub mod genotype;
pub mod mutators;
pub mod strategies;
