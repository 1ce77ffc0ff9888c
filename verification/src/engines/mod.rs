//! Engines that act on signals or search for strategy parameters.

pub mod generative;
pub mod trading;
