//! Nodes with one child, and the functions they apply.

use crate::node::base::{Node, NodeRef, Null, Type, TypeV};
use crate::node::ieee::{FloatOps, MathFn};
use crate::node::logic_nodes::NotEval;
use crate::node::math_nodes::{heaviside, heaviside_of, relu, relu_of};
use vstd::prelude::*;

verus! {

/// The unary operators: the elementary functions, three functions decided
/// on the bit pattern, and logical negation.
#[derive(Clone, Copy, Debug, PartialEq, Eq, Hash, Structural)]
pub enum UnaryOp {
    Math(MathFn),
    Abs,
    Heaviside,
    ReLu,
    Not,
}

/// A type that stands for one unary operator.
pub trait UnaryOpKind {
    /// The operator that this type stands for.
    spec fn op() -> UnaryOp;

    fn kind() -> (r: UnaryOp)
        ensures
            r == Self::op(),
    ;
}

/// A node with one child.
#[derive(Debug, PartialEq, Eq)]
pub struct UnaryOpBase {
    pub kind: UnaryOp,
    pub arg: NodeRef,
}

impl MathFn {
    /// The function that undoes this one, and that this one undoes.
    pub open spec fn inverse(self) -> MathFn {
        match self {
            MathFn::Sin => MathFn::ASin,
            MathFn::ASin => MathFn::Sin,
            MathFn::Cos => MathFn::ACos,
            MathFn::ACos => MathFn::Cos,
            MathFn::Tan => MathFn::ATan,
            MathFn::ATan => MathFn::Tan,
            MathFn::Sinh => MathFn::ASinh,
            MathFn::ASinh => MathFn::Sinh,
            MathFn::Cosh => MathFn::ACosh,
            MathFn::ACosh => MathFn::Cosh,
            MathFn::Tanh => MathFn::ATanh,
            MathFn::ATanh => MathFn::Tanh,
            MathFn::Exp => MathFn::Log,
            MathFn::Log => MathFn::Exp,
        }
    }

    /// The name of the operator.
    pub open spec fn name(self) -> Seq<char> {
        match self {
            MathFn::Sin => "Sin"@,
            MathFn::Cos => "Cos"@,
            MathFn::Tan => "Tan"@,
            MathFn::ASin => "ASin"@,
            MathFn::ACos => "ACos"@,
            MathFn::ATan => "ATan"@,
            MathFn::Sinh => "Sinh"@,
            MathFn::Cosh => "Cosh"@,
            MathFn::Tanh => "Tanh"@,
            MathFn::ASinh => "ASinh"@,
            MathFn::ACosh => "ACosh"@,
            MathFn::ATanh => "ATanh"@,
            MathFn::Exp => "Exp"@,
            MathFn::Log => "Log"@,
        }
    }

    /// The function that undoes this one.
    pub fn get_inverse(&self) -> (r: MathFn)
        ensures
            r == self.inverse(),
    {
        match self {
            MathFn::Sin => MathFn::ASin,
            MathFn::ASin => MathFn::Sin,
            MathFn::Cos => MathFn::ACos,
            MathFn::ACos => MathFn::Cos,
            MathFn::Tan => MathFn::ATan,
            MathFn::ATan => MathFn::Tan,
            MathFn::Sinh => MathFn::ASinh,
            MathFn::ASinh => MathFn::Sinh,
            MathFn::Cosh => MathFn::ACosh,
            MathFn::ACosh => MathFn::Cosh,
            MathFn::Tanh => MathFn::ATanh,
            MathFn::ATanh => MathFn::Tanh,
            MathFn::Exp => MathFn::Log,
            MathFn::Log => MathFn::Exp,
        }
    }

    /// The name of the operator.
    pub fn get_name(&self) -> (r: &'static str)
        ensures
            r@ == self.name(),
    {
        match self {
            MathFn::Sin => "Sin",
            MathFn::Cos => "Cos",
            MathFn::Tan => "Tan",
            MathFn::ASin => "ASin",
            MathFn::ACos => "ACos",
            MathFn::ATan => "ATan",
            MathFn::Sinh => "Sinh",
            MathFn::Cosh => "Cosh",
            MathFn::Tanh => "Tanh",
            MathFn::ASinh => "ASinh",
            MathFn::ACosh => "ACosh",
            MathFn::ATanh => "ATanh",
            MathFn::Exp => "Exp",
            MathFn::Log => "Log",
        }
    }
}

impl UnaryOp {
    /// The type of the argument, which is also that of the result.
    pub open spec fn rtype(self) -> TypeV {
        match self {
            UnaryOp::Not => TypeV::Bool,
            _ => TypeV::Float,
        }
    }

    /// The name of the operator.
    pub open spec fn name(self) -> Seq<char> {
        match self {
            UnaryOp::Math(f) => f.name(),
            UnaryOp::Abs => "Abs"@,
            UnaryOp::Heaviside => "Heaviside"@,
            UnaryOp::ReLu => "ReLu"@,
            UnaryOp::Not => "~"@,
        }
    }

    /// Whether `self` applied to the result of `inner` gives back the
    /// argument of `inner`: the two are inverse functions of each other.
    pub open spec fn undoes(self, inner: UnaryOp) -> bool {
        match (self, inner) {
            (UnaryOp::Math(f), UnaryOp::Math(g)) => g == f.inverse(),
            _ => false,
        }
    }

    /// Whether applying `self` twice is the same as applying it once.
    pub open spec fn idempotent(self) -> bool {
        self == UnaryOp::Abs
    }

    /// The value of the operator at `x`; nothing on a value of another type.
    pub open spec fn result<A: FloatOps>(self, x: Type, fl: &A) -> Option<Type> {
        match (self, x) {
            (UnaryOp::Math(f), Type::Float(v)) => Some(Type::Float(fl.unary_of(f, v))),
            (UnaryOp::Abs, Type::Float(v)) => Some(Type::Float(v.abs_value())),
            (UnaryOp::Heaviside, Type::Float(v)) => Some(Type::Float(heaviside_of(v))),
            (UnaryOp::ReLu, Type::Float(v)) => Some(Type::Float(relu_of(v))),
            (UnaryOp::Not, _) => NotEval::result(x),
            _ => None,
        }
    }

    /// The type of the argument and of the result.
    pub fn get_rtype(&self) -> (r: TypeV)
        ensures
            r == self.rtype(),
    {
        match self {
            UnaryOp::Not => TypeV::Bool,
            _ => TypeV::Float,
        }
    }

    /// The name of the operator.
    pub fn get_name(&self) -> (r: &'static str)
        ensures
            r@ == self.name(),
    {
        match self {
            UnaryOp::Math(f) => f.get_name(),
            UnaryOp::Abs => "Abs",
            UnaryOp::Heaviside => "Heaviside",
            UnaryOp::ReLu => "ReLu",
            UnaryOp::Not => "~",
        }
    }

    /// Whether `self` and `inner` are inverse functions of each other.
    pub fn get_undoes(&self, inner: &UnaryOp) -> (r: bool)
        ensures
            r == self.undoes(*inner),
    {
        match (self, inner) {
            (UnaryOp::Math(f), UnaryOp::Math(g)) => *g == f.get_inverse(),
            _ => false,
        }
    }

    /// Whether applying `self` twice is the same as applying it once.
    pub fn get_idempotent(&self) -> (r: bool)
        ensures
            r == self.idempotent(),
    {
        match self {
            UnaryOp::Abs => true,
            _ => false,
        }
    }

    /// Applies the operator to a value.
    pub fn apply<A: FloatOps>(&self, x: Type, fl: &A) -> (r: Option<Type>)
        ensures
            r == self.result(x, fl),
    {
        match (self, x) {
            (UnaryOp::Math(f), Type::Float(v)) => Some(Type::Float(fl.unary(*f, v))),
            (UnaryOp::Abs, Type::Float(v)) => Some(Type::Float(v.abs())),
            (UnaryOp::Heaviside, Type::Float(v)) => Some(Type::Float(heaviside(v))),
            (UnaryOp::ReLu, Type::Float(v)) => Some(Type::Float(relu(v))),
            (UnaryOp::Not, _) => NotEval::eval(x),
            _ => None,
        }
    }
}

impl UnaryOpBase {
    /// A node that applies `kind` to `child`.
    pub fn make(kind: UnaryOp, child: NodeRef) -> (r: NodeRef)
        ensures
            *r == Node::Unary(UnaryOpBase { kind, arg: child }),
    {
        Box::new(Node::Unary(UnaryOpBase { kind, arg: child }))
    }

    /// The shape of a `kind` node: its child is a placeholder.
    pub fn zero(kind: UnaryOp) -> (r: NodeRef)
        ensures
            *r == Node::Unary(
                UnaryOpBase { kind, arg: Box::new(Node::Null(Null { rtype: kind.rtype() })) },
            ),
    {
        let rtype = kind.get_rtype();
        Box::new(Node::Unary(UnaryOpBase { kind, arg: Null::zero(rtype) }))
    }
}

} // verus!
