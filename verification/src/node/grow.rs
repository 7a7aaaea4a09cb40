//! Random generation of trees.

use crate::node::base::{Node, NodeRef, Null, TypeV, Val, Var};
use crate::node::binary_node_base::BinOpBase;
use crate::node::catalog::{has_arg, slots_served, BuilderTable};
use crate::node::chance::pick_one;
use crate::node::matching::{lemma_listed_matches, lemma_match_is_listed, matching_args};
use crate::node::ieee::FloatOps;
use crate::node::misc_nodes::Cond;
use crate::node::params::{BuilderParams, Settings};
use crate::node::shape::one_more;
use crate::node::unary_node_base::UnaryOpBase;
use vstd::prelude::*;

verus! {

/// The most levels that a tree generated at `depth` can have under the
/// depth limit `max_depth`: a single leaf from the limit on, and one level
/// more for each step above it.
pub open spec fn depth_budget(max_depth: nat, depth: nat) -> nat {
    if depth < max_depth {
        (max_depth - depth + 1) as nat
    } else {
        1
    }
}

impl Node {
    /// Whether the node has children: it is neither a leaf nor a placeholder.
    pub open spec fn is_operator(self) -> bool {
        self is Unary || self is Binary || self is Cond
    }

    /// Whether generation can give the tree for a position of type `ty` at
    /// `depth`. A constant is one that the settings allow for `ty`. A
    /// variable names an argument of type `ty`. An operator stands above the
    /// depth limit, has the form of a shape filed under `ty`, and its
    /// children are trees that generation can give one level deeper, each
    /// for the type its slot declares.
    pub open spec fn grown_in<A: FloatOps>(
        self,
        table: BuilderTable,
        arg_types: Seq<TypeV>,
        ty: TypeV,
        depth: nat,
        params: Settings,
        fl: &A,
    ) -> bool
        decreases self,
    {
        match self {
            Node::Null(_) => false,
            Node::Val(n) => params.allows(n.v, ty, fl),
            Node::Var(n) => n.rtype == ty && n.idx < arg_types.len() && arg_types[n.idx as int] == ty,
            Node::Unary(n) => depth < params.max_depth && table.offers_shape(ty, self.zero_shape())
                && n.arg.grown_in(table, arg_types, n.kind.rtype(), depth + 1, params, fl),
            Node::Binary(n) => depth < params.max_depth && table.offers_shape(
                ty,
                self.zero_shape(),
            ) && n.lhs.grown_in(table, arg_types, n.operand, depth + 1, params, fl)
                && n.rhs.grown_in(table, arg_types, n.operand, depth + 1, params, fl),
            Node::Cond(n) => depth < params.max_depth && table.offers_shape(ty, self.zero_shape())
                && n.cond.grown_in(table, arg_types, TypeV::Bool, depth + 1, params, fl)
                && n.iftrue.grown_in(table, arg_types, n.rtype, depth + 1, params, fl)
                && n.iffalse.grown_in(table, arg_types, n.rtype, depth + 1, params, fl),
        }
    }

    /// Whether building on the shape `self` can give the tree `r` for a
    /// position of type `ty` at `depth`; see `build_random_node`.
    pub open spec fn builds<A: FloatOps>(
        self,
        r: Node,
        table: BuilderTable,
        arg_types: Seq<TypeV>,
        ty: TypeV,
        depth: nat,
        params: Settings,
        fl: &A,
    ) -> bool {
        match self {
            Node::Null(_) => r == Node::Null(Null { rtype: ty }),
            Node::Val(_) => r is Val && params.allows(r->Val_0.v, ty, fl),
            Node::Var(_) => r matches Node::Var(v) && v.rtype == ty && v.idx < arg_types.len()
                && arg_types[v.idx as int] == ty,
            Node::Unary(n) => r matches Node::Unary(m) && m.kind == n.kind && m.arg.grown_in(
                table,
                arg_types,
                n.kind.rtype(),
                depth + 1,
                params,
                fl,
            ),
            Node::Binary(n) => r matches Node::Binary(m) && m.kind == n.kind && m.operand
                == n.operand && m.lhs.grown_in(table, arg_types, n.operand, depth + 1, params, fl)
                && m.rhs.grown_in(table, arg_types, n.operand, depth + 1, params, fl),
            Node::Cond(n) => r matches Node::Cond(m) && m.rtype == n.rtype && m.cond.grown_in(
                table,
                arg_types,
                TypeV::Bool,
                depth + 1,
                params,
                fl,
            ) && m.iftrue.grown_in(table, arg_types, n.rtype, depth + 1, params, fl)
                && m.iffalse.grown_in(table, arg_types, n.rtype, depth + 1, params, fl),
        }
    }

    /// A tree that generation can give from a well-formed catalog has the
    /// type asked for, is well typed, reads only matching arguments, and
    /// stays within the depth budget; from the depth limit on it is a leaf.
    pub proof fn lemma_grown<A: FloatOps>(
        self,
        table: BuilderTable,
        arg_types: Seq<TypeV>,
        ty: TypeV,
        depth: nat,
        params: Settings,
        fl: &A,
    )
        requires
            table.wf(),
            self.grown_in(table, arg_types, ty, depth, params, fl),
        ensures
            self.rtype() == ty,
            self.well_typed(),
            self.fits_args(arg_types),
            self.height() <= depth_budget(params.max_depth as nat, depth),
            depth >= params.max_depth ==> self.is_leaf(),
        decreases self,
    {
        if self.is_operator() {
            let i = choose|i: int|
                0 <= i < table.templates(ty).len() && (#[trigger] table.templates(ty)[i]).zero_shape()
                    == self.zero_shape();
            let t = table.templates(ty)[i];
            assert(t.rtype() == ty && t.shape_ok());
            assert(t.zero_shape().rtype() == t.rtype());
        }
        match self {
            Node::Unary(n) => {
                n.arg.lemma_grown(table, arg_types, n.kind.rtype(), depth + 1, params, fl);
            },
            Node::Binary(n) => {
                n.lhs.lemma_grown(table, arg_types, n.operand, depth + 1, params, fl);
                n.rhs.lemma_grown(table, arg_types, n.operand, depth + 1, params, fl);
            },
            Node::Cond(n) => {
                n.cond.lemma_grown(table, arg_types, TypeV::Bool, depth + 1, params, fl);
                n.iftrue.lemma_grown(table, arg_types, n.rtype, depth + 1, params, fl);
                n.iffalse.lemma_grown(table, arg_types, n.rtype, depth + 1, params, fl);
            },
            _ => {},
        }
    }

    /// From depth 1 on, a tree that generation can give above the depth
    /// limit has no more levels than the limit. At depth 0 it can have one
    /// level more.
    pub proof fn lemma_grown_within_limit<A: FloatOps>(
        self,
        table: BuilderTable,
        arg_types: Seq<TypeV>,
        ty: TypeV,
        depth: nat,
        params: Settings,
        fl: &A,
    )
        requires
            table.wf(),
            self.grown_in(table, arg_types, ty, depth, params, fl),
            depth <= params.max_depth,
        ensures
            depth >= 1 ==> self.height() <= params.max_depth,
            self.height() <= params.max_depth + 1,
    {
        self.lemma_grown(table, arg_types, ty, depth, params, fl);
    }

    /// Builds a random tree on the shape `self`. A constant shape gives a
    /// constant of type `node_rtype` drawn from the range set for that type.
    /// A variable shape gives a variable of type `node_rtype`, each of the
    /// arguments of that type with the same chance; some argument has to
    /// have that type. An operator shape gives that operator over children
    /// generated one level deeper, each of the type its slot declares; for
    /// each slot some argument has to have its type, and generation has to
    /// be able to go on from there. A placeholder gives a placeholder.
    pub fn build_random_node<A: FloatOps>(
        &self,
        build_table: &BuilderTable,
        arg_types: &[TypeV],
        node_rtype: TypeV,
        depth: usize,
        params: &mut BuilderParams,
        fl: &A,
    ) -> (r: NodeRef)
        requires
            old(params).wf(),
            self is Var ==> has_arg(arg_types@, node_rtype),
            self.is_operator() ==> slots_served(*self, arg_types@) && build_table.served_by(
                arg_types@,
            ),
        ensures
            final(params).same_settings(*old(params)),
            self.builds(
                *r,
                *build_table,
                arg_types@,
                node_rtype,
                depth as nat,
                old(params).settings(),
                fl,
            ),
            self.is_leaf() ==> r.is_leaf() && r.rtype() == node_rtype,
            self.is_operator() ==> r.zero_shape() == self.zero_shape(),
            self.shape_ok() ==> r.well_typed() && r.fits_args(arg_types@),
            self.is_operator() ==> r.height() <= 1 + depth_budget(
                old(params).max_depth as nat,
                depth as nat + 1,
            ),
        decreases
            (if self.is_operator() {
                (if depth + 1 < old(params).max_depth {
                    2 * (old(params).max_depth - (depth + 1)) + 2
                } else {
                    2int
                })
            } else {
                0int
            }),
    {
        let below = one_more(depth);
        proof {
            assert(below >= old(params).max_depth <==> depth + 1 >= old(params).max_depth);
        }
        match self {
            Node::Null(_) => Null::zero(node_rtype),
            Node::Val(_) => Val::make(params.literal(node_rtype, fl)),
            Node::Var(_) => {
                let valid = matching_args(arg_types, node_rtype);
                match pick_one(&valid, &mut params.randomizer) {
                    Some(idx) => {
                        proof {
                            lemma_listed_matches(
                                arg_types@,
                                node_rtype,
                                arg_types@.len() as int,
                                *idx,
                            );
                        }
                        Var::make(*idx, node_rtype)
                    },
                    None => {
                        proof {
                            let j = choose|j: int|
                                0 <= j < arg_types@.len() && #[trigger] arg_types@[j] == node_rtype;
                            lemma_match_is_listed(
                                arg_types@,
                                node_rtype,
                                arg_types@.len() as int,
                                j,
                            );
                        }
                        vstd::pervasive::unreached()
                    },
                }
            },
            Node::Unary(n) => {
                assert(self.arg_types()[0] == n.kind.rtype());
                let arg = build_table.build_random(arg_types, n.kind.get_rtype(), below, params, fl);
                proof {
                    arg.lemma_grown_past_limit(
                        *build_table,
                        arg_types@,
                        n.kind.rtype(),
                        below as nat,
                        depth as nat + 1,
                        old(params).settings(),
                        fl,
                    );
                }
                UnaryOpBase::make(n.kind, arg)
            },
            Node::Binary(n) => {
                assert(self.arg_types()[0] == n.operand);
                let lhs = build_table.build_random(arg_types, n.operand, below, params, fl);
                let rhs = build_table.build_random(arg_types, n.operand, below, params, fl);
                proof {
                    lhs.lemma_grown_past_limit(
                        *build_table,
                        arg_types@,
                        n.operand,
                        below as nat,
                        depth as nat + 1,
                        old(params).settings(),
                        fl,
                    );
                    rhs.lemma_grown_past_limit(
                        *build_table,
                        arg_types@,
                        n.operand,
                        below as nat,
                        depth as nat + 1,
                        old(params).settings(),
                        fl,
                    );
                }
                Box::new(Node::Binary(BinOpBase { kind: n.kind, operand: n.operand, rhs, lhs }))
            },
            Node::Cond(n) => {
                assert(self.arg_types()[0] == TypeV::Bool);
                assert(self.arg_types()[1] == n.rtype);
                let cond = build_table.build_random(arg_types, TypeV::Bool, below, params, fl);
                let iftrue = build_table.build_random(arg_types, n.rtype, below, params, fl);
                let iffalse = build_table.build_random(arg_types, n.rtype, below, params, fl);
                proof {
                    cond.lemma_grown_past_limit(
                        *build_table,
                        arg_types@,
                        TypeV::Bool,
                        below as nat,
                        depth as nat + 1,
                        old(params).settings(),
                        fl,
                    );
                    iftrue.lemma_grown_past_limit(
                        *build_table,
                        arg_types@,
                        n.rtype,
                        below as nat,
                        depth as nat + 1,
                        old(params).settings(),
                        fl,
                    );
                    iffalse.lemma_grown_past_limit(
                        *build_table,
                        arg_types@,
                        n.rtype,
                        below as nat,
                        depth as nat + 1,
                        old(params).settings(),
                        fl,
                    );
                }
                Box::new(Node::Cond(Cond { rtype: n.rtype, cond, iftrue, iffalse }))
            },
        }
    }

    /// What generation can give at one depth at or below the depth limit, it
    /// can give at every depth at or below the limit.
    pub proof fn lemma_grown_past_limit<A: FloatOps>(
        self,
        table: BuilderTable,
        arg_types: Seq<TypeV>,
        ty: TypeV,
        from: nat,
        to: nat,
        params: Settings,
        fl: &A,
    )
        requires
            self.grown_in(table, arg_types, ty, from, params, fl),
            from == to || (from >= params.max_depth && to >= params.max_depth),
        ensures
            self.grown_in(table, arg_types, ty, to, params, fl),
    {
    }
}

impl BuilderTable {
    /// Builds a random tree of type `rtype` for a position at `depth`. The
    /// shape of its root is one that `get_rand_node` can pick, see `picks`;
    /// the tree is one that `build_random_node` can build on that shape, see
    /// `builds`. The tree is well typed, reads only arguments of matching
    /// type, and stays within the depth budget. A variable can come up
    /// wherever a tree is asked for, so some argument has to have the type
    /// `rtype`, and generation has to be able to go on from every shape that
    /// it can reach; see `served_by`.
    pub fn build_random<A: FloatOps>(
        &self,
        arg_types: &[TypeV],
        rtype: TypeV,
        depth: usize,
        params: &mut BuilderParams,
        fl: &A,
    ) -> (r: NodeRef)
        requires
            old(params).wf(),
            has_arg(arg_types@, rtype),
            self.served_by(arg_types@),
        ensures
            final(params).same_settings(*old(params)),
            exists|t: Node| #[trigger]
                self.picks(t, depth as nat, rtype, old(params).settings(), fl) && t.builds(
                    *r,
                    *self,
                    arg_types@,
                    rtype,
                    depth as nat,
                    old(params).settings(),
                    fl,
                ),
            r.grown_in(*self, arg_types@, rtype, depth as nat, old(params).settings(), fl),
            r.rtype() == rtype,
            r.well_typed(),
            r.fits_args(arg_types@),
            r.height() <= depth_budget(old(params).max_depth as nat, depth as nat),
            depth >= old(params).max_depth ==> r.is_leaf(),
        decreases
            (if depth < old(params).max_depth {
                2 * (old(params).max_depth - depth) + 1
            } else {
                1int
            }),
    {
        let template = self.get_rand_node(depth, rtype, params, fl);
        proof {
            self.lemma_picked(
                *template,
                depth as nat,
                rtype,
                old(params).settings(),
                arg_types@,
                fl,
            );
        }
        let tree = template.build_random_node(self, arg_types, rtype, depth, params, fl);
        proof {
            tree.lemma_grown(*self, arg_types@, rtype, depth as nat, old(params).settings(), fl);
        }
        tree
    }
}

} // verus!
