//! Genetic programming over typed expression trees.
//!
//! A population of expression trees is built at random, scored against
//! sampled input/output pairs, ranked, crossed and mutated over generations.
//! Real numbers are carried as IEEE-754 single-precision bit patterns; the
//! arithmetic on them is supplied by the caller through [`node::ieee::FloatOps`].

pub mod algorithm;
pub mod node;

pub use algorithm::expr_tree::{Error, ErrorFn, Expr, RelativeError};
pub use algorithm::population::Population;
pub use algorithm::progress::Progress;
pub use algorithm::training_args::TrainingArgs;
pub use node::base::{Node, NodeRef, Null, Type, TypeErr, TypeV, Val, Var};
pub use node::binary_node_base::{BinOp, BinOpBase, BinOpKind};
pub use node::btables::FloatFnTable;
pub use node::catalog::BuilderTable;
pub use node::ieee::{ArithFn, Float32, FloatOps, MathFn};
pub use node::misc_nodes::Cond;
pub use node::params::BuilderParams;
pub use node::unary_node_base::{UnaryOp, UnaryOpBase, UnaryOpKind};
