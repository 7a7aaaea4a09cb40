//! Conjunction and disjunction, of truth values and bit by bit of whole
//! numbers, and negation of truth values.

use crate::node::base::Type;
use crate::node::binary_node_base::{BinOp, BinOpKind};
use crate::node::ieee::FloatOps;
use crate::node::unary_node_base::{UnaryOp, UnaryOpKind};
use vstd::prelude::*;

verus! {

/// `lhs & rhs`.
pub struct AndEval;

/// `lhs | rhs`.
pub struct OrEval;

/// `~x`, of a truth value.
pub struct NotEval;

impl UnaryOpKind for NotEval {
    open spec fn op() -> UnaryOp {
        UnaryOp::Not
    }

    fn kind() -> (r: UnaryOp) {
        UnaryOp::Not
    }
}

impl NotEval {
    /// The negation of `x`; nothing on a value that is no truth value.
    pub open spec fn result(x: Type) -> Option<Type> {
        match x {
            Type::Bool(b) => Some(Type::Bool(!b)),
            _ => None,
        }
    }

    /// Applies the operator; see `result`.
    pub fn eval(x: Type) -> (r: Option<Type>)
        ensures
            r == Self::result(x),
    {
        match x {
            Type::Bool(b) => Some(Type::Bool(!b)),
            _ => None,
        }
    }
}

impl BinOpKind for AndEval {
    open spec fn op() -> BinOp {
        BinOp::And
    }

    fn kind() -> (r: BinOp) {
        BinOp::And
    }
}

impl AndEval {
    /// The value of `lhs op rhs`.
    pub open spec fn result<A: FloatOps>(lhs: Type, rhs: Type, fl: &A) -> Option<Type> {
        match (lhs, rhs) {
            (Type::Bool(l), Type::Bool(r)) => Some(Type::Bool(l && r)),
            (Type::Int(l), Type::Int(r)) => Some(Type::Int(l & r)),
            (Type::UInt(l), Type::UInt(r)) => Some(Type::UInt(l & r)),
            _ => None,
        }
    }

    /// Applies the operator; see `result`.
    pub fn eval<A: FloatOps>(lhs: Type, rhs: Type, fl: &A) -> (r: Option<Type>)
        ensures
            r == Self::result(lhs, rhs, fl),
    {
        match (lhs, rhs) {
            (Type::Bool(l), Type::Bool(r)) => Some(Type::Bool(l && r)),
            (Type::Int(l), Type::Int(r)) => Some(Type::Int(l & r)),
            (Type::UInt(l), Type::UInt(r)) => Some(Type::UInt(l & r)),
            _ => None,
        }
    }
}

impl BinOpKind for OrEval {
    open spec fn op() -> BinOp {
        BinOp::Or
    }

    fn kind() -> (r: BinOp) {
        BinOp::Or
    }
}

impl OrEval {
    /// The value of `lhs op rhs`.
    pub open spec fn result<A: FloatOps>(lhs: Type, rhs: Type, fl: &A) -> Option<Type> {
        match (lhs, rhs) {
            (Type::Bool(l), Type::Bool(r)) => Some(Type::Bool(l || r)),
            (Type::Int(l), Type::Int(r)) => Some(Type::Int(l | r)),
            (Type::UInt(l), Type::UInt(r)) => Some(Type::UInt(l | r)),
            _ => None,
        }
    }

    /// Applies the operator; see `result`.
    pub fn eval<A: FloatOps>(lhs: Type, rhs: Type, fl: &A) -> (r: Option<Type>)
        ensures
            r == Self::result(lhs, rhs, fl),
    {
        match (lhs, rhs) {
            (Type::Bool(l), Type::Bool(r)) => Some(Type::Bool(l || r)),
            (Type::Int(l), Type::Int(r)) => Some(Type::Int(l | r)),
            (Type::UInt(l), Type::UInt(r)) => Some(Type::UInt(l | r)),
            _ => None,
        }
    }
}

} // verus!
