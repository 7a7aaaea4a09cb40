//! Expression-tree nodes, their values and the operations on them.

pub mod base;
pub mod binary_node_base;
pub mod btables;
pub mod catalog;
pub mod chance;
pub mod cmp_nodes;
pub mod crossover;
pub mod evaluate;
pub mod grow;
pub mod ieee;
pub mod literals;
pub mod logic_nodes;
pub mod matching;
pub mod math_nodes;
pub mod misc_nodes;
pub mod mutate;
pub mod op_nodes;
pub mod params;
pub mod regrow;
pub mod render;
pub mod shape;
pub mod simplify;
pub mod typing;
pub mod unary_node_base;
