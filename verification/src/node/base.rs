//! Values, type tags and type errors.

use crate::node::binary_node_base::BinOpBase;
use crate::node::ieee::Float32;
use crate::node::misc_nodes::Cond;
use crate::node::unary_node_base::UnaryOpBase;
use vstd::prelude::*;

verus! {

/// The tag of a value, and the declared type of a node or of an argument.
#[derive(Clone, Copy, Debug, PartialEq, Eq, Hash, Structural)]
pub enum TypeV {
    Int,
    Float,
    UInt,
    Bool,
}

/// A value: exactly one of a signed number, a real number, an unsigned
/// number and a truth value.
#[derive(Clone, Copy, Debug, PartialEq, Eq, Hash, Structural)]
pub enum Type {
    Int(i32),
    Float(Float32),
    UInt(u32),
    Bool(bool),
}

/// A malformed tree, described for display.
#[derive(Debug)]
pub struct TypeErr {
    pub msg: String,
}

/// A placeholder: no subtree here yet. It has no value.
#[derive(Debug, PartialEq, Eq)]
pub struct Null {
    pub rtype: TypeV,
}

/// A constant.
#[derive(Debug, PartialEq, Eq)]
pub struct Val {
    pub v: Type,
}

/// A variable: the argument at `idx`.
#[derive(Debug, PartialEq, Eq)]
pub struct Var {
    pub rtype: TypeV,
    pub idx: usize,
}

/// One unit of an expression tree. A node owns its children.
#[derive(Debug, PartialEq, Eq)]
pub enum Node {
    Null(Null),
    Val(Val),
    Var(Var),
    Unary(UnaryOpBase),
    Binary(BinOpBase),
    Cond(Cond),
}

/// An owned node.
pub type NodeRef = Box<Node>;

/// The representative of `x` modulo 2^32 among the signed 32-bit numbers.
pub open spec fn wrap_i32(x: int) -> i32 {
    if x % 0x1_0000_0000 > i32::MAX {
        (x % 0x1_0000_0000 - 0x1_0000_0000) as i32
    } else {
        (x % 0x1_0000_0000) as i32
    }
}

/// The representative of `x` modulo 2^32 among the unsigned 32-bit numbers.
pub open spec fn wrap_u32(x: int) -> u32 {
    (x % 0x1_0000_0000) as u32
}

/// Quotient rounded towards zero. Meaningful for `d != 0`.
pub open spec fn trunc_div(x: int, d: int) -> int {
    if x >= 0 && d > 0 {
        x / d
    } else if x < 0 && d < 0 {
        (-x) / (-d)
    } else if x < 0 {
        -((-x) / d)
    } else {
        -(x / (-d))
    }
}

impl TypeV {
    /// The name of the tag.
    pub open spec fn name(self) -> Seq<char> {
        match self {
            TypeV::Int => "Int"@,
            TypeV::Float => "Float"@,
            TypeV::UInt => "UInt"@,
            TypeV::Bool => "Bool"@,
        }
    }

    /// The name of the tag.
    pub fn get_name(&self) -> (r: &'static str)
        ensures
            r@ == self.name(),
    {
        match self {
            TypeV::Int => "Int",
            TypeV::Float => "Float",
            TypeV::UInt => "UInt",
            TypeV::Bool => "Bool",
        }
    }
}

impl Type {
    /// The tag of the value.
    pub open spec fn tag(self) -> TypeV {
        match self {
            Type::Int(_) => TypeV::Int,
            Type::Float(_) => TypeV::Float,
            Type::UInt(_) => TypeV::UInt,
            Type::Bool(_) => TypeV::Bool,
        }
    }

    /// The zero of a type: `0`, `0.0`, `0` or `false`.
    pub open spec fn zero_of(rtype: TypeV) -> Type {
        match rtype {
            TypeV::Int => Type::Int(0),
            TypeV::Float => Type::Float(Float32 { bits: 0 }),
            TypeV::UInt => Type::UInt(0),
            TypeV::Bool => Type::Bool(false),
        }
    }

    /// A signed number.
    pub fn integer(val: i32) -> (r: Type)
        ensures
            r == Type::Int(val),
    {
        Type::Int(val)
    }

    /// A real number.
    pub fn float(val: Float32) -> (r: Type)
        ensures
            r == Type::Float(val),
    {
        Type::Float(val)
    }

    /// An unsigned number.
    pub fn uint(val: u32) -> (r: Type)
        ensures
            r == Type::UInt(val),
    {
        Type::UInt(val)
    }

    /// A truth value.
    pub fn bool(val: bool) -> (r: Type)
        ensures
            r == Type::Bool(val),
    {
        Type::Bool(val)
    }

    /// The tag of the value.
    pub fn get_tag(&self) -> (r: TypeV)
        ensures
            r == self.tag(),
    {
        match self {
            Type::Int(_) => TypeV::Int,
            Type::Float(_) => TypeV::Float,
            Type::UInt(_) => TypeV::UInt,
            Type::Bool(_) => TypeV::Bool,
        }
    }

    /// The zero of a type.
    pub fn zero(rtype: TypeV) -> (r: Type)
        ensures
            r == Self::zero_of(rtype),
    {
        match rtype {
            TypeV::Int => Type::Int(0),
            TypeV::Float => Type::Float(Float32::zero()),
            TypeV::UInt => Type::UInt(0),
            TypeV::Bool => Type::Bool(false),
        }
    }
}

impl Null {
    /// A placeholder of type `rtype`.
    pub fn zero(rtype: TypeV) -> (r: NodeRef)
        ensures
            *r == Node::Null(Null { rtype }),
    {
        Box::new(Node::Null(Null { rtype }))
    }
}

impl Val {
    /// A constant.
    pub fn make(val: Type) -> (r: NodeRef)
        ensures
            *r == Node::Val(Val { v: val }),
    {
        Box::new(Node::Val(Val { v: val }))
    }

    /// The constant zero of type `rtype`.
    pub fn zero(rtype: TypeV) -> (r: NodeRef)
        ensures
            *r == Node::Val(Val { v: Type::zero_of(rtype) }),
    {
        Box::new(Node::Val(Val { v: Type::zero(rtype) }))
    }
}

impl Var {
    /// The variable that reads the argument at `idx`.
    pub fn make(idx: usize, rtype: TypeV) -> (r: NodeRef)
        ensures
            *r == Node::Var(Var { rtype, idx }),
    {
        Box::new(Node::Var(Var { rtype, idx }))
    }
}

} // verus!
