//! The comparisons. Each compares two values of one type and yields a truth
//! value; `false` orders before `true`, and a NaN compares unequal to
//! everything and unordered with everything.

use crate::node::base::Type;
use crate::node::binary_node_base::{BinOp, BinOpKind};
use crate::node::ieee::FloatOps;
use vstd::prelude::*;

verus! {

/// `lhs == rhs`.
pub struct EqEval;

/// `lhs != rhs`.
pub struct NEqEval;

/// `lhs > rhs`.
pub struct GtEval;

/// `lhs >= rhs`.
pub struct GteEval;

/// `lhs < rhs`.
pub struct LtEval;

/// `lhs <= rhs`.
pub struct LteEval;

impl BinOpKind for EqEval {
    open spec fn op() -> BinOp {
        BinOp::Eq
    }

    fn kind() -> (r: BinOp) {
        BinOp::Eq
    }
}

impl EqEval {
    /// The value of `lhs op rhs`.
    pub open spec fn result<A: FloatOps>(lhs: Type, rhs: Type, fl: &A) -> Option<Type> {
        match (lhs, rhs) {
            (Type::Bool(l), Type::Bool(r)) => Some(Type::Bool(l == r)),
            (Type::Int(l), Type::Int(r)) => Some(Type::Bool(l == r)),
            (Type::UInt(l), Type::UInt(r)) => Some(Type::Bool(l == r)),
            (Type::Float(l), Type::Float(r)) => Some(Type::Bool(l.eq_value(r))),
            _ => None,
        }
    }

    /// Applies the operator; see `result`.
    pub fn eval<A: FloatOps>(lhs: Type, rhs: Type, fl: &A) -> (r: Option<Type>)
        ensures
            r == Self::result(lhs, rhs, fl),
    {
        match (lhs, rhs) {
            (Type::Bool(l), Type::Bool(r)) => Some(Type::Bool(l == r)),
            (Type::Int(l), Type::Int(r)) => Some(Type::Bool(l == r)),
            (Type::UInt(l), Type::UInt(r)) => Some(Type::Bool(l == r)),
            (Type::Float(l), Type::Float(r)) => Some(Type::Bool(l.equals(r))),
            _ => None,
        }
    }
}

impl BinOpKind for NEqEval {
    open spec fn op() -> BinOp {
        BinOp::NEq
    }

    fn kind() -> (r: BinOp) {
        BinOp::NEq
    }
}

impl NEqEval {
    /// The value of `lhs op rhs`.
    pub open spec fn result<A: FloatOps>(lhs: Type, rhs: Type, fl: &A) -> Option<Type> {
        match (lhs, rhs) {
            (Type::Bool(l), Type::Bool(r)) => Some(Type::Bool(l != r)),
            (Type::Int(l), Type::Int(r)) => Some(Type::Bool(l != r)),
            (Type::UInt(l), Type::UInt(r)) => Some(Type::Bool(l != r)),
            (Type::Float(l), Type::Float(r)) => Some(Type::Bool(!l.eq_value(r))),
            _ => None,
        }
    }

    /// Applies the operator; see `result`.
    pub fn eval<A: FloatOps>(lhs: Type, rhs: Type, fl: &A) -> (r: Option<Type>)
        ensures
            r == Self::result(lhs, rhs, fl),
    {
        match (lhs, rhs) {
            (Type::Bool(l), Type::Bool(r)) => Some(Type::Bool(l != r)),
            (Type::Int(l), Type::Int(r)) => Some(Type::Bool(l != r)),
            (Type::UInt(l), Type::UInt(r)) => Some(Type::Bool(l != r)),
            (Type::Float(l), Type::Float(r)) => Some(Type::Bool(l.differs(r))),
            _ => None,
        }
    }
}

impl BinOpKind for GtEval {
    open spec fn op() -> BinOp {
        BinOp::Gt
    }

    fn kind() -> (r: BinOp) {
        BinOp::Gt
    }
}

impl GtEval {
    /// The value of `lhs op rhs`.
    pub open spec fn result<A: FloatOps>(lhs: Type, rhs: Type, fl: &A) -> Option<Type> {
        match (lhs, rhs) {
            (Type::Bool(l), Type::Bool(r)) => Some(Type::Bool(l && !r)),
            (Type::Int(l), Type::Int(r)) => Some(Type::Bool(l > r)),
            (Type::UInt(l), Type::UInt(r)) => Some(Type::Bool(l > r)),
            (Type::Float(l), Type::Float(r)) => Some(Type::Bool(r.lt_value(l))),
            _ => None,
        }
    }

    /// Applies the operator; see `result`.
    pub fn eval<A: FloatOps>(lhs: Type, rhs: Type, fl: &A) -> (r: Option<Type>)
        ensures
            r == Self::result(lhs, rhs, fl),
    {
        match (lhs, rhs) {
            (Type::Bool(l), Type::Bool(r)) => Some(Type::Bool(l && !r)),
            (Type::Int(l), Type::Int(r)) => Some(Type::Bool(l > r)),
            (Type::UInt(l), Type::UInt(r)) => Some(Type::Bool(l > r)),
            (Type::Float(l), Type::Float(r)) => Some(Type::Bool(l.gt(r))),
            _ => None,
        }
    }
}

impl BinOpKind for GteEval {
    open spec fn op() -> BinOp {
        BinOp::Gte
    }

    fn kind() -> (r: BinOp) {
        BinOp::Gte
    }
}

impl GteEval {
    /// The value of `lhs op rhs`.
    pub open spec fn result<A: FloatOps>(lhs: Type, rhs: Type, fl: &A) -> Option<Type> {
        match (lhs, rhs) {
            (Type::Bool(l), Type::Bool(r)) => Some(Type::Bool(l || !r)),
            (Type::Int(l), Type::Int(r)) => Some(Type::Bool(l >= r)),
            (Type::UInt(l), Type::UInt(r)) => Some(Type::Bool(l >= r)),
            (Type::Float(l), Type::Float(r)) => Some(Type::Bool(r.le_value(l))),
            _ => None,
        }
    }

    /// Applies the operator; see `result`.
    pub fn eval<A: FloatOps>(lhs: Type, rhs: Type, fl: &A) -> (r: Option<Type>)
        ensures
            r == Self::result(lhs, rhs, fl),
    {
        match (lhs, rhs) {
            (Type::Bool(l), Type::Bool(r)) => Some(Type::Bool(l || !r)),
            (Type::Int(l), Type::Int(r)) => Some(Type::Bool(l >= r)),
            (Type::UInt(l), Type::UInt(r)) => Some(Type::Bool(l >= r)),
            (Type::Float(l), Type::Float(r)) => Some(Type::Bool(l.ge(r))),
            _ => None,
        }
    }
}

impl BinOpKind for LtEval {
    open spec fn op() -> BinOp {
        BinOp::Lt
    }

    fn kind() -> (r: BinOp) {
        BinOp::Lt
    }
}

impl LtEval {
    /// The value of `lhs op rhs`.
    pub open spec fn result<A: FloatOps>(lhs: Type, rhs: Type, fl: &A) -> Option<Type> {
        match (lhs, rhs) {
            (Type::Bool(l), Type::Bool(r)) => Some(Type::Bool(!l && r)),
            (Type::Int(l), Type::Int(r)) => Some(Type::Bool(l < r)),
            (Type::UInt(l), Type::UInt(r)) => Some(Type::Bool(l < r)),
            (Type::Float(l), Type::Float(r)) => Some(Type::Bool(l.lt_value(r))),
            _ => None,
        }
    }

    /// Applies the operator; see `result`.
    pub fn eval<A: FloatOps>(lhs: Type, rhs: Type, fl: &A) -> (r: Option<Type>)
        ensures
            r == Self::result(lhs, rhs, fl),
    {
        match (lhs, rhs) {
            (Type::Bool(l), Type::Bool(r)) => Some(Type::Bool(!l && r)),
            (Type::Int(l), Type::Int(r)) => Some(Type::Bool(l < r)),
            (Type::UInt(l), Type::UInt(r)) => Some(Type::Bool(l < r)),
            (Type::Float(l), Type::Float(r)) => Some(Type::Bool(l.lt(r))),
            _ => None,
        }
    }
}

impl BinOpKind for LteEval {
    open spec fn op() -> BinOp {
        BinOp::Lte
    }

    fn kind() -> (r: BinOp) {
        BinOp::Lte
    }
}

impl LteEval {
    /// The value of `lhs op rhs`.
    pub open spec fn result<A: FloatOps>(lhs: Type, rhs: Type, fl: &A) -> Option<Type> {
        match (lhs, rhs) {
            (Type::Bool(l), Type::Bool(r)) => Some(Type::Bool(!l || r)),
            (Type::Int(l), Type::Int(r)) => Some(Type::Bool(l <= r)),
            (Type::UInt(l), Type::UInt(r)) => Some(Type::Bool(l <= r)),
            (Type::Float(l), Type::Float(r)) => Some(Type::Bool(l.le_value(r))),
            _ => None,
        }
    }

    /// Applies the operator; see `result`.
    pub fn eval<A: FloatOps>(lhs: Type, rhs: Type, fl: &A) -> (r: Option<Type>)
        ensures
            r == Self::result(lhs, rhs, fl),
    {
        match (lhs, rhs) {
            (Type::Bool(l), Type::Bool(r)) => Some(Type::Bool(!l || r)),
            (Type::Int(l), Type::Int(r)) => Some(Type::Bool(l <= r)),
            (Type::UInt(l), Type::UInt(r)) => Some(Type::Bool(l <= r)),
            (Type::Float(l), Type::Float(r)) => Some(Type::Bool(l.le(r))),
            _ => None,
        }
    }
}

} // verus!
