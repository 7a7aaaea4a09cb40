//! Evaluation of a tree on a row of arguments.

use crate::node::base::{Node, Type, TypeV};
use crate::node::binary_node_base::BinOp;
use crate::node::ieee::FloatOps;
use vstd::prelude::*;

verus! {

/// The branch that a conditional yields; nothing when the condition is no
/// truth value or the branches differ in type.
pub open spec fn select_of(c: Type, t: Type, f: Type) -> Option<Type> {
    match c {
        Type::Bool(b) => if t.tag() == f.tag() {
            if b {
                Some(t)
            } else {
                Some(f)
            }
        } else {
            None
        },
        _ => None,
    }
}

/// Picks the branch of a conditional.
pub fn select(c: Type, t: Type, f: Type) -> (r: Option<Type>)
    ensures
        r == select_of(c, t, f),
{
    match c {
        Type::Bool(b) => if t.get_tag() == f.get_tag() {
            if b {
                Some(t)
            } else {
                Some(f)
            }
        } else {
            None
        },
        _ => None,
    }
}

/// The tags of a row of values.
pub open spec fn tags_of(row: Seq<Type>) -> Seq<TypeV> {
    row.map_values(|v: Type| v.tag())
}

impl Node {
    /// The value of the tree on `row`. A tree has no value where it holds a
    /// placeholder, reads an argument that the row lacks, hands an operator
    /// operands that it does not take, or divides a whole number by zero.
    pub open spec fn value<A: FloatOps>(self, row: Seq<Type>, fl: &A) -> Option<Type>
        decreases self,
    {
        match self {
            Node::Null(_) => None,
            Node::Val(n) => Some(n.v),
            Node::Var(n) => if n.idx < row.len() {
                Some(row[n.idx as int])
            } else {
                None
            },
            Node::Unary(n) => match n.arg.value(row, fl) {
                Some(x) => n.kind.result(x, fl),
                None => None,
            },
            Node::Binary(n) => match (n.lhs.value(row, fl), n.rhs.value(row, fl)) {
                (Some(l), Some(r)) => n.kind.result(l, r, fl),
                _ => None,
            },
            Node::Cond(n) => match (
                n.cond.value(row, fl),
                n.iftrue.value(row, fl),
                n.iffalse.value(row, fl),
            ) {
                (Some(c), Some(t), Some(f)) => select_of(c, t, f),
                _ => None,
            },
        }
    }

    /// Whether every variable of the tree names an argument of its own type
    /// among `arg_types`.
    pub open spec fn fits_args(self, arg_types: Seq<TypeV>) -> bool
        decreases self,
    {
        match self {
            Node::Var(n) => n.idx < arg_types.len() && arg_types[n.idx as int] == n.rtype,
            Node::Unary(n) => n.arg.fits_args(arg_types),
            Node::Binary(n) => n.lhs.fits_args(arg_types) && n.rhs.fits_args(arg_types),
            Node::Cond(n) => n.cond.fits_args(arg_types) && n.iftrue.fits_args(arg_types)
                && n.iffalse.fits_args(arg_types),
            _ => true,
        }
    }

    /// Whether the tree divides whole numbers anywhere.
    pub open spec fn divides_whole_numbers(self) -> bool
        decreases self,
    {
        match self {
            Node::Unary(n) => n.arg.divides_whole_numbers(),
            Node::Binary(n) => (n.kind == BinOp::Div && n.operand != TypeV::Float)
                || n.lhs.divides_whole_numbers() || n.rhs.divides_whole_numbers(),
            Node::Cond(n) => n.cond.divides_whole_numbers() || n.iftrue.divides_whole_numbers()
                || n.iffalse.divides_whole_numbers(),
            _ => false,
        }
    }

    /// A well-typed tree, on a row that matches its variables, has a value
    /// unless a division of whole numbers fails, and the value has the type
    /// that the tree declares.
    pub proof fn lemma_value_has_declared_type<A: FloatOps>(self, row: Seq<Type>, fl: &A)
        requires
            self.well_typed(),
            self.fits_args(tags_of(row)),
        ensures
            !self.divides_whole_numbers() ==> self.value(row, fl) is Some,
            self.value(row, fl) is Some ==> self.value(row, fl)->0.tag() == self.rtype(),
        decreases self,
    {
        match self {
            Node::Unary(n) => {
                n.arg.lemma_value_has_declared_type(row, fl);
            },
            Node::Binary(n) => {
                n.lhs.lemma_value_has_declared_type(row, fl);
                n.rhs.lemma_value_has_declared_type(row, fl);
            },
            Node::Cond(n) => {
                n.cond.lemma_value_has_declared_type(row, fl);
                n.iftrue.lemma_value_has_declared_type(row, fl);
                n.iffalse.lemma_value_has_declared_type(row, fl);
            },
            _ => {},
        }
    }

    /// Whether every variable of the tree names an argument of its own type.
    pub fn check_args(&self, arg_types: &[TypeV]) -> (r: bool)
        ensures
            r == self.fits_args(arg_types@),
        decreases self,
    {
        match self {
            Node::Var(n) => n.idx < arg_types.len() && arg_types[n.idx] == n.rtype,
            Node::Unary(n) => n.arg.check_args(arg_types),
            Node::Binary(n) => n.lhs.check_args(arg_types) && n.rhs.check_args(arg_types),
            Node::Cond(n) => n.cond.check_args(arg_types) && n.iftrue.check_args(arg_types)
                && n.iffalse.check_args(arg_types),
            _ => true,
        }
    }

    /// Evaluates the tree on `args`, children first. The result is absent
    /// exactly where the tree has no value.
    pub fn try_eval<A: FloatOps>(&self, args: &[Type], fl: &A) -> (r: Option<Type>)
        ensures
            r == self.value(args@, fl),
        decreases self,
    {
        match self {
            Node::Null(_) => None,
            Node::Val(n) => Some(n.v),
            Node::Var(n) => if n.idx < args.len() {
                Some(args[n.idx])
            } else {
                None
            },
            Node::Unary(n) => match n.arg.try_eval(args, fl) {
                Some(x) => n.kind.apply(x, fl),
                None => None,
            },
            Node::Binary(n) => {
                let l = n.lhs.try_eval(args, fl);
                let r = n.rhs.try_eval(args, fl);
                match (l, r) {
                    (Some(l), Some(r)) => n.kind.apply(l, r, fl),
                    _ => None,
                }
            },
            Node::Cond(n) => {
                let c = n.cond.try_eval(args, fl);
                let t = n.iftrue.try_eval(args, fl);
                let f = n.iffalse.try_eval(args, fl);
                match (c, t, f) {
                    (Some(c), Some(t), Some(f)) => select(c, t, f),
                    _ => None,
                }
            },
        }
    }

    /// Evaluates a tree that has a value on `args`.
    pub fn eval<A: FloatOps>(&self, args: &[Type], fl: &A) -> (r: Type)
        requires
            self.value(args@, fl) is Some,
        ensures
            Some(r) == self.value(args@, fl),
    {
        match self.try_eval(args, fl) {
            Some(v) => v,
            None => {
                vstd::pervasive::unreached()
            },
        }
    }
}

} // verus!
