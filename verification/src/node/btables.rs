//! A ready-made catalog for expressions over real numbers.

use crate::node::base::{Node, Null, TypeV};
use crate::node::binary_node_base::{BinOp, BinOpBase};
use crate::node::catalog::BuilderTable;
use crate::node::ieee::MathFn;
use crate::node::unary_node_base::{UnaryOp, UnaryOpBase};
use vstd::prelude::*;

verus! {

/// The catalog of the functions and operators on real numbers.
pub struct FloatFnTable {
    pub table: BuilderTable,
}

/// The shape of the unary operator `kind`.
pub open spec fn unary_shape(kind: UnaryOp) -> Node {
    Node::Unary(UnaryOpBase { kind, arg: Box::new(Node::Null(Null { rtype: kind.rtype() })) })
}

/// The shape of the binary operator `kind` over real operands.
pub open spec fn real_shape(kind: BinOp) -> Node {
    Node::Binary(
        BinOpBase {
            kind,
            operand: TypeV::Float,
            rhs: Box::new(Node::Null(Null { rtype: TypeV::Float })),
            lhs: Box::new(Node::Null(Null { rtype: TypeV::Float })),
        },
    )
}

/// The shapes of the catalog, in order: the elementary functions, the
/// absolute value, the step function and the rectifier, then the five
/// arithmetic operators.
pub open spec fn real_shapes() -> Seq<Node> {
    seq![
        unary_shape(UnaryOp::Math(MathFn::Sin)),
        unary_shape(UnaryOp::Math(MathFn::Cos)),
        unary_shape(UnaryOp::Math(MathFn::Tan)),
        unary_shape(UnaryOp::Math(MathFn::ASin)),
        unary_shape(UnaryOp::Math(MathFn::ACos)),
        unary_shape(UnaryOp::Math(MathFn::ATan)),
        unary_shape(UnaryOp::Math(MathFn::Sinh)),
        unary_shape(UnaryOp::Math(MathFn::Cosh)),
        unary_shape(UnaryOp::Math(MathFn::Tanh)),
        unary_shape(UnaryOp::Math(MathFn::ASinh)),
        unary_shape(UnaryOp::Math(MathFn::ACosh)),
        unary_shape(UnaryOp::Math(MathFn::ATanh)),
        unary_shape(UnaryOp::Math(MathFn::Exp)),
        unary_shape(UnaryOp::Math(MathFn::Log)),
        unary_shape(UnaryOp::Abs),
        unary_shape(UnaryOp::Heaviside),
        unary_shape(UnaryOp::ReLu),
        real_shape(BinOp::Add),
        real_shape(BinOp::Sub),
        real_shape(BinOp::Mul),
        real_shape(BinOp::Div),
        real_shape(BinOp::Pow),
    ]
}

impl FloatFnTable {
    /// The catalog of all functions and operators on real numbers.
    pub fn new() -> (r: Self)
        ensures
            r.table.templates(TypeV::Float) == real_shapes(),
            r.table.templates(TypeV::Int).len() == 0,
            r.table.templates(TypeV::UInt).len() == 0,
            r.table.templates(TypeV::Bool).len() == 0,
    {
        let mut table = BuilderTable::new();
        table.push(TypeV::Float, UnaryOpBase::zero(UnaryOp::Math(MathFn::Sin)));
        table.push(TypeV::Float, UnaryOpBase::zero(UnaryOp::Math(MathFn::Cos)));
        table.push(TypeV::Float, UnaryOpBase::zero(UnaryOp::Math(MathFn::Tan)));
        table.push(TypeV::Float, UnaryOpBase::zero(UnaryOp::Math(MathFn::ASin)));
        table.push(TypeV::Float, UnaryOpBase::zero(UnaryOp::Math(MathFn::ACos)));
        table.push(TypeV::Float, UnaryOpBase::zero(UnaryOp::Math(MathFn::ATan)));
        table.push(TypeV::Float, UnaryOpBase::zero(UnaryOp::Math(MathFn::Sinh)));
        table.push(TypeV::Float, UnaryOpBase::zero(UnaryOp::Math(MathFn::Cosh)));
        table.push(TypeV::Float, UnaryOpBase::zero(UnaryOp::Math(MathFn::Tanh)));
        table.push(TypeV::Float, UnaryOpBase::zero(UnaryOp::Math(MathFn::ASinh)));
        table.push(TypeV::Float, UnaryOpBase::zero(UnaryOp::Math(MathFn::ACosh)));
        table.push(TypeV::Float, UnaryOpBase::zero(UnaryOp::Math(MathFn::ATanh)));
        table.push(TypeV::Float, UnaryOpBase::zero(UnaryOp::Math(MathFn::Exp)));
        table.push(TypeV::Float, UnaryOpBase::zero(UnaryOp::Math(MathFn::Log)));
        table.push(TypeV::Float, UnaryOpBase::zero(UnaryOp::Abs));
        table.push(TypeV::Float, UnaryOpBase::zero(UnaryOp::Heaviside));
        table.push(TypeV::Float, UnaryOpBase::zero(UnaryOp::ReLu));
        table.push(TypeV::Float, BinOpBase::zero(BinOp::Add, TypeV::Float));
        table.push(TypeV::Float, BinOpBase::zero(BinOp::Sub, TypeV::Float));
        table.push(TypeV::Float, BinOpBase::zero(BinOp::Mul, TypeV::Float));
        table.push(TypeV::Float, BinOpBase::zero(BinOp::Div, TypeV::Float));
        table.push(TypeV::Float, BinOpBase::zero(BinOp::Pow, TypeV::Float));
        assert(table.templates(TypeV::Float) =~= real_shapes());
        FloatFnTable { table }
    }
}

} // verus!
