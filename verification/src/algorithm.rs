//! Expressions with their fitness, and the population that evolves them.

pub mod expr_tree;
pub mod population;
pub mod progress;
pub mod ranking;
pub mod training_args;
