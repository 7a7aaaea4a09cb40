//! Mutation: a copy of a tree in which random subtrees are generated anew.

use crate::node::base::{Node, NodeRef, TypeV, Val, Var};
use crate::node::binary_node_base::BinOpBase;
use crate::node::catalog::BuilderTable;
use crate::node::chance::{draw_below, pick_one};
use crate::node::matching::{lemma_listed_matches, lemma_match_is_listed, matching_args};
use crate::node::ieee::{Float32, FloatOps};
use crate::node::misc_nodes::Cond;
use crate::node::params::{BuilderParams, Settings};
use crate::node::shape::max_nat;
use crate::node::unary_node_base::UnaryOpBase;
use vstd::prelude::*;

verus! {

impl Node {
    /// Whether `res` can take the place of `self` at `depth` where the draw
    /// says to replace `self`. An operator gives way to a tree that
    /// generation can give for its type at `depth`. A constant gives way to
    /// a constant that the settings allow for its type. A variable gives way
    /// to another argument of its type; it stays where the argument picked
    /// is its own.
    pub open spec fn replaced_by<A: FloatOps>(
        self,
        res: Option<Node>,
        depth: nat,
        table: BuilderTable,
        arg_types: Seq<TypeV>,
        params: Settings,
        fl: &A,
    ) -> bool {
        match self {
            Node::Null(_) => res is None,
            Node::Val(n) => res matches Some(r) && r is Val && params.allows(
                r->Val_0.v,
                n.v.tag(),
                fl,
            ),
            Node::Var(n) => match res {
                Some(r) => r matches Node::Var(v) && v.rtype == n.rtype && v.idx != n.idx && v.idx
                    < arg_types.len() && arg_types[v.idx as int] == n.rtype,
                None => n.idx < arg_types.len() && arg_types[n.idx as int] == n.rtype,
            },
            _ => res matches Some(r) && r.grown_in(table, arg_types, self.rtype(), depth, params, fl),
        }
    }

    /// Whether a mutation of `self`, which stands at `depth`, can come out
    /// as `res`, `None` standing for no change.
    ///
    /// Nothing changes at or below the depth limit, nor in a placeholder.
    /// Elsewhere a draw against the chance `mut_prob(probability, depth)`
    /// decides. Where the number drawn lies below the chance, `self` is
    /// replaced as a whole; see `replaced_by`. Where not, every child
    /// mutates one level deeper: nothing changes where no child changes,
    /// and otherwise the outcome is `self` over the changed children and the
    /// unchanged others.
    pub open spec fn mutation<A: FloatOps>(
        self,
        res: Option<Node>,
        probability: Float32,
        depth: nat,
        table: BuilderTable,
        arg_types: Seq<TypeV>,
        params: Settings,
        fl: &A,
    ) -> bool
        decreases self,
    {
        if depth >= params.max_depth || self is Null {
            res is None
        } else {
            let chance = params.mut_prob(probability, depth, fl);
            ||| draw_below(true, chance, fl) && self.replaced_by(
                res,
                depth,
                table,
                arg_types,
                params,
                fl,
            )
            ||| draw_below(false, chance, fl) && match self {
                Node::Unary(n) => match res {
                    None => n.arg.mutation(
                        None,
                        probability,
                        depth + 1,
                        table,
                        arg_types,
                        params,
                        fl,
                    ),
                    Some(r) => r matches Node::Unary(m) && m.kind == n.kind && n.arg.mutation(
                        Some(*m.arg),
                        probability,
                        depth + 1,
                        table,
                        arg_types,
                        params,
                        fl,
                    ),
                },
                Node::Binary(n) => match res {
                    None => n.lhs.mutation(
                        None,
                        probability,
                        depth + 1,
                        table,
                        arg_types,
                        params,
                        fl,
                    ) && n.rhs.mutation(None, probability, depth + 1, table, arg_types, params, fl),
                    Some(r) => {
                        &&& r matches Node::Binary(m)
                        &&& m.kind == n.kind
                        &&& m.operand == n.operand
                        &&& {
                            let l_new = n.lhs.mutation(
                                Some(*m.lhs),
                                probability,
                                depth + 1,
                                table,
                                arg_types,
                                params,
                                fl,
                            );
                            let l_old = m.lhs == n.lhs && n.lhs.mutation(
                                None,
                                probability,
                                depth + 1,
                                table,
                                arg_types,
                                params,
                                fl,
                            );
                            let r_new = n.rhs.mutation(
                                Some(*m.rhs),
                                probability,
                                depth + 1,
                                table,
                                arg_types,
                                params,
                                fl,
                            );
                            let r_old = m.rhs == n.rhs && n.rhs.mutation(
                                None,
                                probability,
                                depth + 1,
                                table,
                                arg_types,
                                params,
                                fl,
                            );
                            (l_new || l_old) && (r_new || r_old) && (l_new || r_new)
                        }
                    },
                },
                Node::Cond(n) => match res {
                    None => n.cond.mutation(
                        None,
                        probability,
                        depth + 1,
                        table,
                        arg_types,
                        params,
                        fl,
                    ) && n.iftrue.mutation(
                        None,
                        probability,
                        depth + 1,
                        table,
                        arg_types,
                        params,
                        fl,
                    ) && n.iffalse.mutation(
                        None,
                        probability,
                        depth + 1,
                        table,
                        arg_types,
                        params,
                        fl,
                    ),
                    Some(r) => {
                        &&& r matches Node::Cond(m)
                        &&& m.rtype == n.rtype
                        &&& {
                            let c_new = n.cond.mutation(
                                Some(*m.cond),
                                probability,
                                depth + 1,
                                table,
                                arg_types,
                                params,
                                fl,
                            );
                            let c_old = m.cond == n.cond && n.cond.mutation(
                                None,
                                probability,
                                depth + 1,
                                table,
                                arg_types,
                                params,
                                fl,
                            );
                            let t_new = n.iftrue.mutation(
                                Some(*m.iftrue),
                                probability,
                                depth + 1,
                                table,
                                arg_types,
                                params,
                                fl,
                            );
                            let t_old = m.iftrue == n.iftrue && n.iftrue.mutation(
                                None,
                                probability,
                                depth + 1,
                                table,
                                arg_types,
                                params,
                                fl,
                            );
                            let f_new = n.iffalse.mutation(
                                Some(*m.iffalse),
                                probability,
                                depth + 1,
                                table,
                                arg_types,
                                params,
                                fl,
                            );
                            let f_old = m.iffalse == n.iffalse && n.iffalse.mutation(
                                None,
                                probability,
                                depth + 1,
                                table,
                                arg_types,
                                params,
                                fl,
                            );
                            (c_new || c_old) && (t_new || t_old) && (f_new || f_old) && (c_new
                                || t_new || f_new)
                        }
                    },
                },
                _ => res is None,
            }
        }
    }

    /// A mutant from a well-formed catalog has the type of the tree it was
    /// made from, is well typed where that tree is, reads only matching
    /// arguments where that tree does, and is no deeper than the deeper of
    /// that tree and the depth budget. Where generation can go on wherever
    /// it can start and every variable and operator of the tree yields a
    /// type that some argument has, the same holds of the mutant.
    pub proof fn lemma_mutant<A: FloatOps>(
        self,
        res: Node,
        probability: Float32,
        depth: nat,
        table: BuilderTable,
        arg_types: Seq<TypeV>,
        params: Settings,
        fl: &A,
    )
        requires
            table.wf(),
            self.mutation(Some(res), probability, depth, table, arg_types, params, fl),
        ensures
            depth < params.max_depth,
            res.rtype() == self.rtype(),
            self.well_typed() ==> res.well_typed(),
            self.fits_args(arg_types) ==> res.fits_args(arg_types),
            res.height() + depth <= max_nat(self.height() + depth, params.max_depth as nat + 1),
            table.served_by(arg_types) && self.regrowable(arg_types) ==> res.regrowable(arg_types),
        decreases self,
    {
        let chance = params.mut_prob(probability, depth, fl);
        if draw_below(true, chance, fl) && self.replaced_by(
            Some(res),
            depth,
            table,
            arg_types,
            params,
            fl,
        ) {
            if self.is_operator() {
                res.lemma_grown(table, arg_types, self.rtype(), depth, params, fl);
                if table.served_by(arg_types) && self.regrowable(arg_types) {
                    res.lemma_grown_regrowable(table, arg_types, self.rtype(), depth, params, fl);
                }
            }
        } else {
            match self {
                Node::Unary(n) => {
                    let m = res->Unary_0;
                    n.arg.lemma_mutant(*m.arg, probability, depth + 1, table, arg_types, params, fl);
                },
                Node::Binary(n) => {
                    let m = res->Binary_0;
                    if n.lhs.mutation(
                        Some(*m.lhs),
                        probability,
                        depth + 1,
                        table,
                        arg_types,
                        params,
                        fl,
                    ) {
                        n.lhs.lemma_mutant(
                            *m.lhs,
                            probability,
                            depth + 1,
                            table,
                            arg_types,
                            params,
                            fl,
                        );
                    }
                    if n.rhs.mutation(
                        Some(*m.rhs),
                        probability,
                        depth + 1,
                        table,
                        arg_types,
                        params,
                        fl,
                    ) {
                        n.rhs.lemma_mutant(
                            *m.rhs,
                            probability,
                            depth + 1,
                            table,
                            arg_types,
                            params,
                            fl,
                        );
                    }
                },
                Node::Cond(n) => {
                    let m = res->Cond_0;
                    if n.cond.mutation(
                        Some(*m.cond),
                        probability,
                        depth + 1,
                        table,
                        arg_types,
                        params,
                        fl,
                    ) {
                        n.cond.lemma_mutant(
                            *m.cond,
                            probability,
                            depth + 1,
                            table,
                            arg_types,
                            params,
                            fl,
                        );
                    }
                    if n.iftrue.mutation(
                        Some(*m.iftrue),
                        probability,
                        depth + 1,
                        table,
                        arg_types,
                        params,
                        fl,
                    ) {
                        n.iftrue.lemma_mutant(
                            *m.iftrue,
                            probability,
                            depth + 1,
                            table,
                            arg_types,
                            params,
                            fl,
                        );
                    }
                    if n.iffalse.mutation(
                        Some(*m.iffalse),
                        probability,
                        depth + 1,
                        table,
                        arg_types,
                        params,
                        fl,
                    ) {
                        n.iffalse.lemma_mutant(
                            *m.iffalse,
                            probability,
                            depth + 1,
                            table,
                            arg_types,
                            params,
                            fl,
                        );
                    }
                },
                _ => {},
            }
        }
    }

    /// Copies the tree with random changes, or reports that nothing changed.
    /// At each node a draw against the growth law of `probability` and the
    /// node's depth decides whether the node is replaced: an operator by a
    /// freshly generated tree of its type, a constant by a fresh constant, a
    /// variable by another argument of its type. Where the node stays, its
    /// children are tried in turn one level deeper; if any of them changed,
    /// the result is the node over the changed children and copies of the
    /// others. Every variable has to be able to move and every operator to
    /// give way to a fresh tree: some argument has the type it yields, and
    /// generation can go on wherever it can start.
    pub fn mutant_copy<A: FloatOps>(
        &self,
        probability: Float32,
        node_depth: usize,
        arg_types: &[TypeV],
        build_table: &BuilderTable,
        params: &mut BuilderParams,
        fl: &A,
    ) -> (r: Option<NodeRef>)
        requires
            old(params).wf(),
            self.regrowable(arg_types@),
            self.is_operator() ==> build_table.served_by(arg_types@),
        ensures
            final(params).same_settings(*old(params)),
            self.mutation(
                match r {
                    Some(t) => Some(*t),
                    None => None,
                },
                probability,
                node_depth as nat,
                *build_table,
                arg_types@,
                old(params).settings(),
                fl,
            ),
        decreases self,
    {
        if node_depth >= params.max_depth {
            return None;
        }
        let chance = params.get_mut_prob(probability, node_depth, fl);
        match self {
            Node::Null(_) => None,
            Node::Val(n) => {
                if params.happens(chance, fl) {
                    Some(Val::make(params.literal(n.v.get_tag(), fl)))
                } else {
                    None
                }
            },
            Node::Var(n) => {
                if params.happens(chance, fl) {
                    let valid = matching_args(arg_types, n.rtype);
                    match pick_one(&valid, &mut params.randomizer) {
                        Some(idx) => {
                            proof {
                                lemma_listed_matches(
                                    arg_types@,
                                    n.rtype,
                                    arg_types@.len() as int,
                                    *idx,
                                );
                            }
                            if *idx == n.idx {
                                None
                            } else {
                                Some(Var::make(*idx, n.rtype))
                            }
                        },
                        None => {
                            proof {
                                let j = choose|j: int|
                                    0 <= j < arg_types@.len() && #[trigger] arg_types@[j] == n.rtype;
                                lemma_match_is_listed(
                                    arg_types@,
                                    n.rtype,
                                    arg_types@.len() as int,
                                    j,
                                );
                            }
                            vstd::pervasive::unreached()
                        },
                    }
                } else {
                    None
                }
            },
            Node::Unary(n) => {
                if params.happens(chance, fl) {
                    Some(build_table.build_random(arg_types, self.get_rtype(), node_depth, params, fl))
                } else {
                    match n.arg.mutant_copy(
                        probability,
                        node_depth + 1,
                        arg_types,
                        build_table,
                        params,
                        fl,
                    ) {
                        Some(arg) => Some(UnaryOpBase::make(n.kind, arg)),
                        None => None,
                    }
                }
            },
            Node::Binary(n) => {
                if params.happens(chance, fl) {
                    Some(build_table.build_random(arg_types, self.get_rtype(), node_depth, params, fl))
                } else {
                    let lhs = n.lhs.mutant_copy(
                        probability,
                        node_depth + 1,
                        arg_types,
                        build_table,
                        params,
                        fl,
                    );
                    let rhs = n.rhs.mutant_copy(
                        probability,
                        node_depth + 1,
                        arg_types,
                        build_table,
                        params,
                        fl,
                    );
                    match (lhs, rhs) {
                        (None, None) => None,
                        (lhs, rhs) => {
                            let lhs = match lhs {
                                Some(l) => l,
                                None => n.lhs.deep_copy(),
                            };
                            let rhs = match rhs {
                                Some(r) => r,
                                None => n.rhs.deep_copy(),
                            };
                            Some(
                                Box::new(
                                    Node::Binary(
                                        BinOpBase { kind: n.kind, operand: n.operand, rhs, lhs },
                                    ),
                                ),
                            )
                        },
                    }
                }
            },
            Node::Cond(n) => {
                if params.happens(chance, fl) {
                    Some(build_table.build_random(arg_types, self.get_rtype(), node_depth, params, fl))
                } else {
                    let cond = n.cond.mutant_copy(
                        probability,
                        node_depth + 1,
                        arg_types,
                        build_table,
                        params,
                        fl,
                    );
                    let iftrue = n.iftrue.mutant_copy(
                        probability,
                        node_depth + 1,
                        arg_types,
                        build_table,
                        params,
                        fl,
                    );
                    let iffalse = n.iffalse.mutant_copy(
                        probability,
                        node_depth + 1,
                        arg_types,
                        build_table,
                        params,
                        fl,
                    );
                    match (cond, iftrue, iffalse) {
                        (None, None, None) => None,
                        (cond, iftrue, iffalse) => {
                            let cond = match cond {
                                Some(c) => c,
                                None => n.cond.deep_copy(),
                            };
                            let iftrue = match iftrue {
                                Some(t) => t,
                                None => n.iftrue.deep_copy(),
                            };
                            let iffalse = match iffalse {
                                Some(f) => f,
                                None => n.iffalse.deep_copy(),
                            };
                            Some(Box::new(Node::Cond(Cond { rtype: n.rtype, cond, iftrue, iffalse })))
                        },
                    }
                }
            },
        }
    }
}

} // verus!
