//! Which trees can have their variables and operators generated anew.

use crate::node::base::{Node, TypeV};
use crate::node::catalog::{all_served, has_arg, has_matching_arg, slots_served, BuilderTable};
use crate::node::ieee::FloatOps;
use crate::node::params::Settings;
use vstd::prelude::*;

verus! {

impl Node {
    /// Whether every variable of the tree can move to an argument of its
    /// type, and every operator can give way to a freshly generated tree:
    /// each yields a type that some argument has.
    pub open spec fn regrowable(self, arg_types: Seq<TypeV>) -> bool
        decreases self,
    {
        match self {
            Node::Var(n) => has_arg(arg_types, n.rtype),
            Node::Unary(n) => has_arg(arg_types, self.rtype()) && n.arg.regrowable(arg_types),
            Node::Binary(n) => has_arg(arg_types, self.rtype()) && n.lhs.regrowable(arg_types)
                && n.rhs.regrowable(arg_types),
            Node::Cond(n) => has_arg(arg_types, self.rtype()) && n.cond.regrowable(arg_types)
                && n.iftrue.regrowable(arg_types) && n.iffalse.regrowable(arg_types),
            _ => true,
        }
    }

    /// Whether every variable and every operator of the tree yields a type
    /// that some argument has.
    pub fn check_regrowable(&self, arg_types: &[TypeV]) -> (r: bool)
        ensures
            r == self.regrowable(arg_types@),
        decreases self,
    {
        match self {
            Node::Var(n) => has_matching_arg(arg_types, n.rtype),
            Node::Unary(n) => has_matching_arg(arg_types, self.get_rtype()) && n.arg.check_regrowable(
                arg_types,
            ),
            Node::Binary(n) => has_matching_arg(arg_types, self.get_rtype())
                && n.lhs.check_regrowable(arg_types) && n.rhs.check_regrowable(arg_types),
            Node::Cond(n) => has_matching_arg(arg_types, self.get_rtype())
                && n.cond.check_regrowable(arg_types) && n.iftrue.check_regrowable(arg_types)
                && n.iffalse.check_regrowable(arg_types),
            _ => true,
        }
    }

    /// Where some argument has the type asked for and generation can go on
    /// wherever it can start, every variable and every operator of a tree
    /// that generation can give yields a type that some argument has.
    pub proof fn lemma_grown_regrowable<A: FloatOps>(
        self,
        table: BuilderTable,
        arg_types: Seq<TypeV>,
        ty: TypeV,
        depth: nat,
        params: Settings,
        fl: &A,
    )
        requires
            table.wf(),
            table.served_by(arg_types),
            has_arg(arg_types, ty),
            self.grown_in(table, arg_types, ty, depth, params, fl),
        ensures
            self.regrowable(arg_types),
        decreases self,
    {
        self.lemma_grown(table, arg_types, ty, depth, params, fl);
        if self.is_operator() {
            let i = choose|i: int|
                0 <= i < table.templates(ty).len() && (#[trigger] table.templates(ty)[i]).zero_shape()
                    == self.zero_shape();
            let t = table.templates(ty)[i];
            assert(t.arg_types() == self.arg_types());
            assert(all_served(table.templates(ty), arg_types));
            assert(slots_served(t, arg_types));
            assert(has_arg(arg_types, self.arg_types()[0]));
            if self is Cond {
                assert(has_arg(arg_types, self.arg_types()[1]));
            }
        }
        match self {
            Node::Unary(n) => {
                n.arg.lemma_grown_regrowable(table, arg_types, n.kind.rtype(), depth + 1, params, fl);
            },
            Node::Binary(n) => {
                n.lhs.lemma_grown_regrowable(table, arg_types, n.operand, depth + 1, params, fl);
                n.rhs.lemma_grown_regrowable(table, arg_types, n.operand, depth + 1, params, fl);
            },
            Node::Cond(n) => {
                n.cond.lemma_grown_regrowable(table, arg_types, TypeV::Bool, depth + 1, params, fl);
                n.iftrue.lemma_grown_regrowable(table, arg_types, n.rtype, depth + 1, params, fl);
                n.iffalse.lemma_grown_regrowable(table, arg_types, n.rtype, depth + 1, params, fl);
            },
            _ => {},
        }
    }
}

} // verus!
