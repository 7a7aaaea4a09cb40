//! Nodes with two children, and the operators they apply.

use crate::node::base::{Node, NodeRef, Null, Type, TypeV};
use crate::node::cmp_nodes::{EqEval, GtEval, GteEval, LtEval, LteEval, NEqEval};
use crate::node::ieee::FloatOps;
use crate::node::logic_nodes::{AndEval, OrEval};
use crate::node::op_nodes::{AddEval, DivEval, MulEval, PowEval, SubEval};
use vstd::prelude::*;

verus! {

/// The binary operators.
#[derive(Clone, Copy, Debug, PartialEq, Eq, Hash, Structural)]
pub enum BinOp {
    Add,
    Sub,
    Mul,
    Div,
    Pow,
    Eq,
    NEq,
    Gt,
    Gte,
    Lt,
    Lte,
    And,
    Or,
}

/// A node with two children, which are operands of one declared type.
#[derive(Debug, PartialEq, Eq)]
pub struct BinOpBase {
    pub kind: BinOp,
    pub operand: TypeV,
    pub rhs: NodeRef,
    pub lhs: NodeRef,
}

/// A type that stands for one binary operator.
///
/// Each such type also has `result` and `eval`, which take the left operand
/// first: `lhs op rhs`. An operator yields nothing on operands it does not
/// take, and where the machine operation is undefined.
pub trait BinOpKind {
    /// The operator that this type stands for.
    spec fn op() -> BinOp;

    fn kind() -> (r: BinOp)
        ensures
            r == Self::op(),
    ;
}

impl BinOp {
    /// Comparisons yield a truth value whatever they compare.
    pub open spec fn is_comparison(self) -> bool {
        match self {
            BinOp::Eq | BinOp::NEq | BinOp::Gt | BinOp::Gte | BinOp::Lt | BinOp::Lte => true,
            _ => false,
        }
    }

    /// The type of the result on operands of type `operand`.
    pub open spec fn rtype_on(self, operand: TypeV) -> TypeV {
        if self.is_comparison() {
            TypeV::Bool
        } else {
            operand
        }
    }

    /// Whether the operator takes operands of type `operand`.
    pub open spec fn accepts(self, operand: TypeV) -> bool {
        match self {
            BinOp::Add | BinOp::Sub | BinOp::Mul | BinOp::Div => operand != TypeV::Bool,
            BinOp::Pow => operand == TypeV::Float || operand == TypeV::UInt,
            BinOp::And | BinOp::Or => operand != TypeV::Float,
            _ => true,
        }
    }

    /// The operator's symbol.
    pub open spec fn name(self) -> Seq<char> {
        match self {
            BinOp::Add => "+"@,
            BinOp::Sub => "-"@,
            BinOp::Mul => "*"@,
            BinOp::Div => "/"@,
            BinOp::Pow => "**"@,
            BinOp::Eq => "=="@,
            BinOp::NEq => "!="@,
            BinOp::Gt => ">"@,
            BinOp::Gte => ">="@,
            BinOp::Lt => "<"@,
            BinOp::Lte => "<="@,
            BinOp::And => "&"@,
            BinOp::Or => "|"@,
        }
    }

    /// The value of `lhs self rhs`.
    pub open spec fn result<A: FloatOps>(self, lhs: Type, rhs: Type, fl: &A) -> Option<Type> {
        match self {
            BinOp::Add => AddEval::result(lhs, rhs, fl),
            BinOp::Sub => SubEval::result(lhs, rhs, fl),
            BinOp::Mul => MulEval::result(lhs, rhs, fl),
            BinOp::Div => DivEval::result(lhs, rhs, fl),
            BinOp::Pow => PowEval::result(lhs, rhs, fl),
            BinOp::Eq => EqEval::result(lhs, rhs, fl),
            BinOp::NEq => NEqEval::result(lhs, rhs, fl),
            BinOp::Gt => GtEval::result(lhs, rhs, fl),
            BinOp::Gte => GteEval::result(lhs, rhs, fl),
            BinOp::Lt => LtEval::result(lhs, rhs, fl),
            BinOp::Lte => LteEval::result(lhs, rhs, fl),
            BinOp::And => AndEval::result(lhs, rhs, fl),
            BinOp::Or => OrEval::result(lhs, rhs, fl),
        }
    }

    /// Whether the operator is a comparison.
    pub fn get_is_comparison(&self) -> (r: bool)
        ensures
            r == self.is_comparison(),
    {
        match self {
            BinOp::Eq | BinOp::NEq | BinOp::Gt | BinOp::Gte | BinOp::Lt | BinOp::Lte => true,
            _ => false,
        }
    }

    /// The type of the result on operands of type `operand`.
    pub fn get_rtype_on(&self, operand: TypeV) -> (r: TypeV)
        ensures
            r == self.rtype_on(operand),
    {
        if self.get_is_comparison() {
            TypeV::Bool
        } else {
            operand
        }
    }

    /// Whether the operator takes operands of type `operand`.
    pub fn get_accepts(&self, operand: TypeV) -> (r: bool)
        ensures
            r == self.accepts(operand),
    {
        match self {
            BinOp::Add | BinOp::Sub | BinOp::Mul | BinOp::Div => operand != TypeV::Bool,
            BinOp::Pow => operand == TypeV::Float || operand == TypeV::UInt,
            BinOp::And | BinOp::Or => operand != TypeV::Float,
            _ => true,
        }
    }

    /// The operator's symbol.
    pub fn get_name(&self) -> (r: &'static str)
        ensures
            r@ == self.name(),
    {
        match self {
            BinOp::Add => "+",
            BinOp::Sub => "-",
            BinOp::Mul => "*",
            BinOp::Div => "/",
            BinOp::Pow => "**",
            BinOp::Eq => "==",
            BinOp::NEq => "!=",
            BinOp::Gt => ">",
            BinOp::Gte => ">=",
            BinOp::Lt => "<",
            BinOp::Lte => "<=",
            BinOp::And => "&",
            BinOp::Or => "|",
        }
    }

    /// Applies the operator to a pair of values.
    pub fn apply<A: FloatOps>(&self, lhs: Type, rhs: Type, fl: &A) -> (r: Option<Type>)
        ensures
            r == self.result(lhs, rhs, fl),
    {
        match self {
            BinOp::Add => AddEval::eval(lhs, rhs, fl),
            BinOp::Sub => SubEval::eval(lhs, rhs, fl),
            BinOp::Mul => MulEval::eval(lhs, rhs, fl),
            BinOp::Div => DivEval::eval(lhs, rhs, fl),
            BinOp::Pow => PowEval::eval(lhs, rhs, fl),
            BinOp::Eq => EqEval::eval(lhs, rhs, fl),
            BinOp::NEq => NEqEval::eval(lhs, rhs, fl),
            BinOp::Gt => GtEval::eval(lhs, rhs, fl),
            BinOp::Gte => GteEval::eval(lhs, rhs, fl),
            BinOp::Lt => LtEval::eval(lhs, rhs, fl),
            BinOp::Lte => LteEval::eval(lhs, rhs, fl),
            BinOp::And => AndEval::eval(lhs, rhs, fl),
            BinOp::Or => OrEval::eval(lhs, rhs, fl),
        }
    }
}

impl BinOpBase {
    /// A node that applies `kind` to `lhs` and `rhs`, whose common type is
    /// the declared operand type.
    pub fn make(kind: BinOp, rhs: NodeRef, lhs: NodeRef) -> (r: NodeRef)
        requires
            rhs.rtype() == lhs.rtype(),
        ensures
            *r == Node::Binary(BinOpBase { kind, operand: lhs.rtype(), rhs, lhs }),
    {
        let operand = lhs.get_rtype();
        Box::new(Node::Binary(BinOpBase { kind, operand, rhs, lhs }))
    }

    /// The shape of a `kind` node over operands of type `operand`: both
    /// children are placeholders.
    pub fn zero(kind: BinOp, operand: TypeV) -> (r: NodeRef)
        ensures
            *r == Node::Binary(
                BinOpBase {
                    kind,
                    operand,
                    rhs: Box::new(Node::Null(Null { rtype: operand })),
                    lhs: Box::new(Node::Null(Null { rtype: operand })),
                },
            ),
    {
        Box::new(
            Node::Binary(
                BinOpBase { kind, operand, rhs: Null::zero(operand), lhs: Null::zero(operand) },
            ),
        )
    }
}

} // verus!
