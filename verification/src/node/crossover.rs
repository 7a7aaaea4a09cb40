//! Crossover: taking a fragment out of one tree and putting it into a copy
//! of another.

use crate::node::base::{Node, NodeRef, TypeV};
use crate::node::binary_node_base::BinOpBase;
use crate::node::chance::{draw_below, draw_range_u32};
use crate::node::ieee::{Float32, FloatOps, HALF_BITS};
use crate::node::misc_nodes::Cond;
use crate::node::params::{BuilderParams, Settings};
use crate::node::shape::max_nat;
use crate::node::unary_node_base::UnaryOpBase;
use vstd::prelude::*;

verus! {

/// The `turn`-th of the fragments that are present, counted from 1 in the
/// order given; nothing where fewer are present.
pub open spec fn nth_present_of(
    first: Option<NodeRef>,
    second: Option<NodeRef>,
    third: Option<NodeRef>,
    turn: nat,
) -> Option<NodeRef> {
    let passed_first: nat = if first is Some {
        1
    } else {
        0
    };
    let passed_second: nat = if second is Some {
        passed_first + 1
    } else {
        passed_first
    };
    if first is Some && turn == 1 {
        first
    } else if second is Some && turn == passed_second {
        second
    } else if third is Some && turn == passed_second + 1 {
        third
    } else {
        None
    }
}

/// Picks the `turn`-th of the fragments that are present.
pub fn nth_present(
    first: Option<NodeRef>,
    second: Option<NodeRef>,
    third: Option<NodeRef>,
    turn: u32,
) -> (r: Option<NodeRef>)
    ensures
        r == nth_present_of(first, second, third, turn as nat),
{
    let passed_first: u32 = if first.is_some() {
        1
    } else {
        0
    };
    let passed_second: u32 = if second.is_some() {
        passed_first + 1
    } else {
        passed_first
    };
    if first.is_some() && turn == 1 {
        first
    } else if second.is_some() && turn == passed_second {
        second
    } else if third.is_some() && turn == passed_second + 1 {
        third
    } else {
        None
    }
}

impl Node {
    /// Whether `frag` is a subtree of `self`, which stands at `depth`, whose
    /// root lies above the depth limit. A placeholder is no fragment.
    pub open spec fn has_fragment(self, frag: Node, depth: nat, max_depth: nat) -> bool
        decreases self,
    {
        &&& depth < max_depth
        &&& !(self is Null)
        &&& (frag == self || match self {
            Node::Unary(n) => n.arg.has_fragment(frag, depth + 1, max_depth),
            Node::Binary(n) => n.lhs.has_fragment(frag, depth + 1, max_depth)
                || n.rhs.has_fragment(frag, depth + 1, max_depth),
            Node::Cond(n) => n.cond.has_fragment(frag, depth + 1, max_depth)
                || n.iftrue.has_fragment(frag, depth + 1, max_depth) || n.iffalse.has_fragment(
                frag,
                depth + 1,
                max_depth,
            ),
            _ => false,
        })
    }

    /// Whether `res` is `self`, which stands at `depth`, with exactly one
    /// subtree replaced by `frag`: the replaced subtree has the type of
    /// `frag`, its root lies above the depth limit, and `frag` placed there
    /// does not reach below the limit. A placeholder is never replaced.
    pub open spec fn spliced(self, frag: Node, res: Node, depth: nat, max_depth: nat) -> bool
        decreases self,
    {
        &&& depth < max_depth
        &&& depth + frag.height() <= max_depth
        &&& !(self is Null)
        &&& ((res == frag && frag.rtype() == self.rtype()) || match self {
            Node::Unary(n) => res matches Node::Unary(m) && m.kind == n.kind && n.arg.spliced(
                frag,
                *m.arg,
                depth + 1,
                max_depth,
            ),
            Node::Binary(n) => res matches Node::Binary(m) && m.kind == n.kind && m.operand
                == n.operand && ((m.rhs == n.rhs && n.lhs.spliced(
                frag,
                *m.lhs,
                depth + 1,
                max_depth,
            )) || (m.lhs == n.lhs && n.rhs.spliced(frag, *m.rhs, depth + 1, max_depth))),
            Node::Cond(n) => res matches Node::Cond(m) && m.rtype == n.rtype && ((m.iftrue
                == n.iftrue && m.iffalse == n.iffalse && n.cond.spliced(
                frag,
                *m.cond,
                depth + 1,
                max_depth,
            )) || (m.cond == n.cond && m.iffalse == n.iffalse && n.iftrue.spliced(
                frag,
                *m.iftrue,
                depth + 1,
                max_depth,
            )) || (m.cond == n.cond && m.iftrue == n.iftrue && n.iffalse.spliced(
                frag,
                *m.iffalse,
                depth + 1,
                max_depth,
            ))),
            _ => false,
        })
    }

    /// Whether taking a fragment out of `self`, which stands at `depth`, can
    /// come out as `res`, `None` standing for no fragment.
    ///
    /// Nothing is taken at or below the depth limit, nor from a placeholder.
    /// Elsewhere a draw against the chance `mut_prob(probability, depth)`
    /// decides. Where the number drawn lies below the chance, the fragment
    /// is `self`. Where not, every child is tried one level deeper: there is
    /// no fragment where no child gives one, and otherwise the fragment is
    /// one that a child gives; of two that the children of a binary node
    /// give, the left one where a further draw lies below one half.
    pub open spec fn extraction<A: FloatOps>(
        self,
        res: Option<Node>,
        probability: Float32,
        depth: nat,
        params: Settings,
        fl: &A,
    ) -> bool
        decreases self,
    {
        if depth >= params.max_depth || self is Null {
            res is None
        } else {
            let chance = params.mut_prob(probability, depth, fl);
            let half = Float32 { bits: HALF_BITS };
            ||| draw_below(true, chance, fl) && res == Some(self)
            ||| draw_below(false, chance, fl) && match self {
                Node::Unary(n) => n.arg.extraction(res, probability, depth + 1, params, fl),
                Node::Binary(n) => match res {
                    None => n.lhs.extraction(None, probability, depth + 1, params, fl)
                        && n.rhs.extraction(None, probability, depth + 1, params, fl),
                    Some(_) => {
                        ||| n.lhs.extraction(res, probability, depth + 1, params, fl) && (
                        n.rhs.extraction(None, probability, depth + 1, params, fl) || draw_below(
                            true,
                            half,
                            fl,
                        ))
                        ||| n.rhs.extraction(res, probability, depth + 1, params, fl) && (
                        n.lhs.extraction(None, probability, depth + 1, params, fl) || draw_below(
                            false,
                            half,
                            fl,
                        ))
                    },
                },
                Node::Cond(n) => match res {
                    None => n.cond.extraction(None, probability, depth + 1, params, fl)
                        && n.iftrue.extraction(None, probability, depth + 1, params, fl)
                        && n.iffalse.extraction(None, probability, depth + 1, params, fl),
                    Some(_) => n.cond.extraction(res, probability, depth + 1, params, fl)
                        || n.iftrue.extraction(res, probability, depth + 1, params, fl)
                        || n.iffalse.extraction(res, probability, depth + 1, params, fl),
                },
                _ => res is None,
            }
        }
    }

    /// Whether putting `frag` into a copy of `self`, which stands at `depth`,
    /// can come out as `res`, `None` standing for no place found.
    ///
    /// There is no place at or below the depth limit, none where `frag`
    /// would reach below the limit, and none in a placeholder. Elsewhere, at
    /// a node of the type of `frag`, a draw against the chance
    /// `mut_prob(probability, depth)` decides: where the number drawn lies
    /// below the chance, `frag` takes the place of `self`. Where it does
    /// not, and at a node of another type, `frag` is offered to one child
    /// one level deeper: to the only child of a unary node; to the left
    /// child of a binary node where a further draw lies below one half, and
    /// to the right child where not; to any one child of a conditional. The
    /// outcome is `self` with that child replaced by what the child made of
    /// the offer, and no place where the child found none.
    pub open spec fn placement<A: FloatOps>(
        self,
        frag: Node,
        res: Option<Node>,
        probability: Float32,
        depth: nat,
        params: Settings,
        fl: &A,
    ) -> bool
        decreases self,
    {
        if depth >= params.max_depth || depth + frag.height() > params.max_depth || self is Null {
            res is None
        } else {
            let chance = params.mut_prob(probability, depth, fl);
            let half = Float32 { bits: HALF_BITS };
            ||| frag.rtype() == self.rtype() && draw_below(true, chance, fl) && res == Some(frag)
            ||| (frag.rtype() != self.rtype() || draw_below(false, chance, fl)) && match self {
                Node::Unary(n) => match res {
                    None => n.arg.placement(frag, None, probability, depth + 1, params, fl),
                    Some(r) => r matches Node::Unary(m) && m.kind == n.kind && n.arg.placement(
                        frag,
                        Some(*m.arg),
                        probability,
                        depth + 1,
                        params,
                        fl,
                    ),
                },
                Node::Binary(n) => match res {
                    None => {
                        ||| draw_below(true, half, fl) && n.lhs.placement(
                            frag,
                            None,
                            probability,
                            depth + 1,
                            params,
                            fl,
                        )
                        ||| draw_below(false, half, fl) && n.rhs.placement(
                            frag,
                            None,
                            probability,
                            depth + 1,
                            params,
                            fl,
                        )
                    },
                    Some(r) => {
                        &&& r matches Node::Binary(m)
                        &&& m.kind == n.kind
                        &&& m.operand == n.operand
                        &&& {
                            ||| draw_below(true, half, fl) && m.rhs == n.rhs && n.lhs.placement(
                                frag,
                                Some(*m.lhs),
                                probability,
                                depth + 1,
                                params,
                                fl,
                            )
                            ||| draw_below(false, half, fl) && m.lhs == n.lhs && n.rhs.placement(
                                frag,
                                Some(*m.rhs),
                                probability,
                                depth + 1,
                                params,
                                fl,
                            )
                        }
                    },
                },
                Node::Cond(n) => match res {
                    None => n.cond.placement(frag, None, probability, depth + 1, params, fl)
                        || n.iftrue.placement(frag, None, probability, depth + 1, params, fl)
                        || n.iffalse.placement(frag, None, probability, depth + 1, params, fl),
                    Some(r) => {
                        &&& r matches Node::Cond(m)
                        &&& m.rtype == n.rtype
                        &&& {
                            ||| m.iftrue == n.iftrue && m.iffalse == n.iffalse && n.cond.placement(
                                frag,
                                Some(*m.cond),
                                probability,
                                depth + 1,
                                params,
                                fl,
                            )
                            ||| m.cond == n.cond && m.iffalse == n.iffalse && n.iftrue.placement(
                                frag,
                                Some(*m.iftrue),
                                probability,
                                depth + 1,
                                params,
                                fl,
                            )
                            ||| m.cond == n.cond && m.iftrue == n.iftrue && n.iffalse.placement(
                                frag,
                                Some(*m.iffalse),
                                probability,
                                depth + 1,
                                params,
                                fl,
                            )
                        }
                    },
                },
                _ => res is None,
            }
        }
    }

    /// A fragment that can be taken out of a tree is a subtree of it.
    pub proof fn lemma_extraction<A: FloatOps>(
        self,
        frag: Node,
        probability: Float32,
        depth: nat,
        params: Settings,
        fl: &A,
    )
        requires
            self.extraction(Some(frag), probability, depth, params, fl),
        ensures
            self.has_fragment(frag, depth, params.max_depth as nat),
        decreases self,
    {
        if frag != self {
            match self {
                Node::Unary(n) => {
                    n.arg.lemma_extraction(frag, probability, depth + 1, params, fl);
                },
                Node::Binary(n) => {
                    if n.lhs.extraction(Some(frag), probability, depth + 1, params, fl) {
                        n.lhs.lemma_extraction(frag, probability, depth + 1, params, fl);
                    } else {
                        n.rhs.lemma_extraction(frag, probability, depth + 1, params, fl);
                    }
                },
                Node::Cond(n) => {
                    if n.cond.extraction(Some(frag), probability, depth + 1, params, fl) {
                        n.cond.lemma_extraction(frag, probability, depth + 1, params, fl);
                    } else if n.iftrue.extraction(Some(frag), probability, depth + 1, params, fl) {
                        n.iftrue.lemma_extraction(frag, probability, depth + 1, params, fl);
                    } else {
                        n.iffalse.lemma_extraction(frag, probability, depth + 1, params, fl);
                    }
                },
                _ => {},
            }
        }
    }

    /// A tree that can come out of putting a fragment into a tree is that
    /// tree with one subtree replaced by the fragment.
    pub proof fn lemma_placement<A: FloatOps>(
        self,
        frag: Node,
        res: Node,
        probability: Float32,
        depth: nat,
        params: Settings,
        fl: &A,
    )
        requires
            self.placement(frag, Some(res), probability, depth, params, fl),
        ensures
            self.spliced(frag, res, depth, params.max_depth as nat),
        decreases self,
    {
        if !(res == frag && frag.rtype() == self.rtype()) {
            match self {
                Node::Unary(n) => {
                    let m = res->Unary_0;
                    n.arg.lemma_placement(frag, *m.arg, probability, depth + 1, params, fl);
                },
                Node::Binary(n) => {
                    let m = res->Binary_0;
                    if m.rhs == n.rhs && n.lhs.placement(
                        frag,
                        Some(*m.lhs),
                        probability,
                        depth + 1,
                        params,
                        fl,
                    ) {
                        n.lhs.lemma_placement(frag, *m.lhs, probability, depth + 1, params, fl);
                    } else {
                        n.rhs.lemma_placement(frag, *m.rhs, probability, depth + 1, params, fl);
                    }
                },
                Node::Cond(n) => {
                    let m = res->Cond_0;
                    if m.iftrue == n.iftrue && m.iffalse == n.iffalse && n.cond.placement(
                        frag,
                        Some(*m.cond),
                        probability,
                        depth + 1,
                        params,
                        fl,
                    ) {
                        n.cond.lemma_placement(frag, *m.cond, probability, depth + 1, params, fl);
                    } else if m.cond == n.cond && m.iffalse == n.iffalse && n.iftrue.placement(
                        frag,
                        Some(*m.iftrue),
                        probability,
                        depth + 1,
                        params,
                        fl,
                    ) {
                        n.iftrue.lemma_placement(frag, *m.iftrue, probability, depth + 1, params, fl);
                    } else {
                        n.iffalse.lemma_placement(
                            frag,
                            *m.iffalse,
                            probability,
                            depth + 1,
                            params,
                            fl,
                        );
                    }
                },
                _ => {},
            }
        }
    }

    /// Whether some node of the tree, placeholders aside, yields the type
    /// `ty`.
    pub open spec fn offers(self, ty: TypeV) -> bool
        decreases self,
    {
        !(self is Null) && (self.rtype() == ty || match self {
            Node::Unary(n) => n.arg.offers(ty),
            Node::Binary(n) => n.lhs.offers(ty) || n.rhs.offers(ty),
            Node::Cond(n) => n.cond.offers(ty) || n.iftrue.offers(ty) || n.iffalse.offers(ty),
            _ => false,
        })
    }

    /// A fragment is no deeper than what is left of the tree below its
    /// root's depth, is well typed where the tree is, reads only matching
    /// arguments where the tree does, and has every operator able to give
    /// way to a fresh tree where the tree has.
    pub proof fn lemma_fragment(self, frag: Node, depth: nat, max_depth: nat, arg_types: Seq<TypeV>)
        requires
            self.has_fragment(frag, depth, max_depth),
        ensures
            frag.height() <= self.height(),
            !(frag is Null),
            self.well_typed() ==> frag.well_typed(),
            self.fits_args(arg_types) ==> frag.fits_args(arg_types),
            self.regrowable(arg_types) ==> frag.regrowable(arg_types),
            self.offers(frag.rtype()),
        decreases self,
    {
        if frag != self {
            match self {
                Node::Unary(n) => {
                    n.arg.lemma_fragment(frag, depth + 1, max_depth, arg_types);
                },
                Node::Binary(n) => {
                    if n.lhs.has_fragment(frag, depth + 1, max_depth) {
                        n.lhs.lemma_fragment(frag, depth + 1, max_depth, arg_types);
                    } else {
                        n.rhs.lemma_fragment(frag, depth + 1, max_depth, arg_types);
                    }
                },
                Node::Cond(n) => {
                    if n.cond.has_fragment(frag, depth + 1, max_depth) {
                        n.cond.lemma_fragment(frag, depth + 1, max_depth, arg_types);
                    } else if n.iftrue.has_fragment(frag, depth + 1, max_depth) {
                        n.iftrue.lemma_fragment(frag, depth + 1, max_depth, arg_types);
                    } else {
                        n.iffalse.lemma_fragment(frag, depth + 1, max_depth, arg_types);
                    }
                },
                _ => {},
            }
        }
    }

    /// A tree with a fragment spliced in has the type of the tree it was
    /// made from, is well typed where that tree and the fragment are, reads
    /// only matching arguments where both do, has every operator able to
    /// give way to a fresh tree where both have, and is no deeper than the
    /// deeper of that tree and the depth limit. That tree held a node of the
    /// fragment's type.
    pub proof fn lemma_spliced(
        self,
        frag: Node,
        res: Node,
        depth: nat,
        max_depth: nat,
        arg_types: Seq<TypeV>,
    )
        requires
            self.spliced(frag, res, depth, max_depth),
        ensures
            res.rtype() == self.rtype(),
            self.well_typed() && frag.well_typed() ==> res.well_typed(),
            self.fits_args(arg_types) && frag.fits_args(arg_types) ==> res.fits_args(arg_types),
            self.regrowable(arg_types) && frag.regrowable(arg_types) ==> res.regrowable(arg_types),
            res.height() + depth <= max_nat(self.height() + depth, max_depth),
            self.offers(frag.rtype()),
        decreases self,
    {
        if !(res == frag && frag.rtype() == self.rtype()) {
            match self {
                Node::Unary(n) => {
                    let m = res->Unary_0;
                    n.arg.lemma_spliced(frag, *m.arg, depth + 1, max_depth, arg_types);
                },
                Node::Binary(n) => {
                    let m = res->Binary_0;
                    if m.rhs == n.rhs && n.lhs.spliced(frag, *m.lhs, depth + 1, max_depth) {
                        n.lhs.lemma_spliced(frag, *m.lhs, depth + 1, max_depth, arg_types);
                    } else {
                        n.rhs.lemma_spliced(frag, *m.rhs, depth + 1, max_depth, arg_types);
                    }
                },
                Node::Cond(n) => {
                    let m = res->Cond_0;
                    if m.iftrue == n.iftrue && m.iffalse == n.iffalse && n.cond.spliced(
                        frag,
                        *m.cond,
                        depth + 1,
                        max_depth,
                    ) {
                        n.cond.lemma_spliced(frag, *m.cond, depth + 1, max_depth, arg_types);
                    } else if m.cond == n.cond && m.iffalse == n.iffalse && n.iftrue.spliced(
                        frag,
                        *m.iftrue,
                        depth + 1,
                        max_depth,
                    ) {
                        n.iftrue.lemma_spliced(frag, *m.iftrue, depth + 1, max_depth, arg_types);
                    } else {
                        n.iffalse.lemma_spliced(frag, *m.iffalse, depth + 1, max_depth, arg_types);
                    }
                },
                _ => {},
            }
        }
    }

    /// A tree within the depth limit stays within it when a fragment is
    /// spliced in at the root's depth 0.
    pub proof fn lemma_spliced_within_limit(self, frag: Node, res: Node, max_depth: nat)
        requires
            self.spliced(frag, res, 0, max_depth),
            self.height() <= max_depth,
        ensures
            res.height() <= max_depth,
    {
        self.lemma_spliced(frag, res, 0, max_depth, Seq::empty());
    }

    /// No fragment can be spliced into a tree none of whose nodes yields the
    /// fragment's type.
    pub proof fn lemma_no_splice_without_type(self, frag: Node, res: Node, depth: nat, max_depth: nat)
        requires
            !self.offers(frag.rtype()),
        ensures
            !self.spliced(frag, res, depth, max_depth),
    {
        if self.spliced(frag, res, depth, max_depth) {
            self.lemma_spliced(frag, res, depth, max_depth, Seq::empty());
        }
    }

    /// Takes a random fragment out of the tree: a copy of a subtree, or
    /// nothing. At each node a draw against the growth law of `probability`
    /// and the node's depth decides whether the node itself is the
    /// fragment. Where it is not, every child is tried one level deeper, and
    /// of the fragments that the children give one is kept, each with the
    /// same chance.
    pub fn get_random_child<A: FloatOps>(
        &self,
        probability: Float32,
        depth: usize,
        params: &mut BuilderParams,
        fl: &A,
    ) -> (r: Option<NodeRef>)
        requires
            old(params).wf(),
        ensures
            final(params).same_settings(*old(params)),
            self.extraction(
                match r {
                    Some(t) => Some(*t),
                    None => None,
                },
                probability,
                depth as nat,
                old(params).settings(),
                fl,
            ),
            r is Some ==> self.has_fragment(*r->Some_0, depth as nat, old(params).max_depth as nat),
        decreases self,
    {
        if depth >= params.max_depth {
            return None;
        }
        let chance = params.get_mut_prob(probability, depth, fl);
        match self {
            Node::Null(_) => None,
            Node::Val(_) => {
                if params.happens(chance, fl) {
                    Some(self.deep_copy())
                } else {
                    None
                }
            },
            Node::Var(_) => {
                if params.happens(chance, fl) {
                    Some(self.deep_copy())
                } else {
                    None
                }
            },
            Node::Unary(n) => {
                if params.happens(chance, fl) {
                    Some(self.deep_copy())
                } else {
                    n.arg.get_random_child(probability, depth + 1, params, fl)
                }
            },
            Node::Binary(n) => {
                if params.happens(chance, fl) {
                    Some(self.deep_copy())
                } else {
                    let maybe_rhs = n.rhs.get_random_child(probability, depth + 1, params, fl);
                    let maybe_lhs = n.lhs.get_random_child(probability, depth + 1, params, fl);
                    match (maybe_lhs, maybe_rhs) {
                        (maybe_lhs, None) => maybe_lhs,
                        (None, maybe_rhs) => maybe_rhs,
                        (maybe_lhs, maybe_rhs) => {
                            if params.happens(Float32::new(HALF_BITS), fl) {
                                maybe_lhs
                            } else {
                                maybe_rhs
                            }
                        },
                    }
                }
            },
            Node::Cond(n) => {
                if params.happens(chance, fl) {
                    Some(self.deep_copy())
                } else {
                    let maybe_cond = n.cond.get_random_child(probability, depth + 1, params, fl);
                    let maybe_iftrue = n.iftrue.get_random_child(probability, depth + 1, params, fl);
                    let maybe_iffalse = n.iffalse.get_random_child(
                        probability,
                        depth + 1,
                        params,
                        fl,
                    );
                    let found: u32 = (if maybe_cond.is_some() {
                        1u32
                    } else {
                        0u32
                    }) + (if maybe_iftrue.is_some() {
                        1u32
                    } else {
                        0u32
                    }) + (if maybe_iffalse.is_some() {
                        1u32
                    } else {
                        0u32
                    });
                    if found == 0 {
                        None
                    } else {
                        let turn = draw_range_u32(&mut params.randomizer, 1, found);
                        nth_present(maybe_cond, maybe_iftrue, maybe_iffalse, turn)
                    }
                }
            },
        }
    }

    /// Puts the fragment `new_node` into a copy of the tree, or reports that
    /// it found no place. Nothing is placed where the fragment would reach
    /// below the depth limit. At a node of the fragment's type a draw
    /// against the growth law of `probability` and the node's depth decides
    /// whether the fragment takes the node's place. Where it does not, one
    /// child is picked, each with the same chance, and the fragment is
    /// offered to it one level deeper; the other children are copied.
    pub fn set_random_child<A: FloatOps>(
        &self,
        new_node: NodeRef,
        probability: Float32,
        depth: usize,
        params: &mut BuilderParams,
        fl: &A,
    ) -> (r: Option<NodeRef>)
        requires
            old(params).wf(),
        ensures
            final(params).same_settings(*old(params)),
            depth + new_node.height() > old(params).max_depth ==> r is None,
            depth >= old(params).max_depth ==> r is None,
            !self.offers(new_node.rtype()) ==> r is None,
            self.placement(
                *new_node,
                match r {
                    Some(t) => Some(*t),
                    None => None,
                },
                probability,
                depth as nat,
                old(params).settings(),
                fl,
            ),
            r is Some ==> self.spliced(
                *new_node,
                *r->Some_0,
                depth as nat,
                old(params).max_depth as nat,
            ),
    {
        let ghost fragment = *new_node;
        let placed = self.place(new_node, probability, depth, params, fl);
        proof {
            if placed is Some {
                self.lemma_placement(
                    fragment,
                    *placed->Some_0,
                    probability,
                    depth as nat,
                    old(params).settings(),
                    fl,
                );
                self.lemma_spliced(
                    fragment,
                    *placed->Some_0,
                    depth as nat,
                    old(params).max_depth as nat,
                    Seq::empty(),
                );
            }
        }
        placed
    }

    fn place<A: FloatOps>(
        &self,
        new_node: NodeRef,
        probability: Float32,
        depth: usize,
        params: &mut BuilderParams,
        fl: &A,
    ) -> (r: Option<NodeRef>)
        requires
            old(params).wf(),
        ensures
            final(params).same_settings(*old(params)),
            self.placement(
                *new_node,
                match r {
                    Some(t) => Some(*t),
                    None => None,
                },
                probability,
                depth as nat,
                old(params).settings(),
                fl,
            ),
        decreases self,
    {
        if depth >= params.max_depth {
            return None;
        }
        if new_node.get_max_depth() > params.max_depth - depth {
            return None;
        }
        match self {
            Node::Null(_) => {
                return None;
            },
            _ => {},
        }
        if new_node.get_rtype() == self.get_rtype() {
            let chance = params.get_mut_prob(probability, depth, fl);
            if params.happens(chance, fl) {
                return Some(new_node);
            }
        }
        match self {
            Node::Unary(n) => {
                match n.arg.place(new_node, probability, depth + 1, params, fl) {
                    Some(arg) => Some(UnaryOpBase::make(n.kind, arg)),
                    None => None,
                }
            },
            Node::Binary(n) => {
                if params.happens(Float32::new(HALF_BITS), fl) {
                    match n.lhs.place(new_node, probability, depth + 1, params, fl) {
                        Some(lhs) => Some(
                            Box::new(
                                Node::Binary(
                                    BinOpBase {
                                        kind: n.kind,
                                        operand: n.operand,
                                        rhs: n.rhs.deep_copy(),
                                        lhs,
                                    },
                                ),
                            ),
                        ),
                        None => None,
                    }
                } else {
                    match n.rhs.place(new_node, probability, depth + 1, params, fl) {
                        Some(rhs) => Some(
                            Box::new(
                                Node::Binary(
                                    BinOpBase {
                                        kind: n.kind,
                                        operand: n.operand,
                                        rhs,
                                        lhs: n.lhs.deep_copy(),
                                    },
                                ),
                            ),
                        ),
                        None => None,
                    }
                }
            },
            Node::Cond(n) => {
                let which = draw_range_u32(&mut params.randomizer, 0, 2);
                if which == 0 {
                    match n.cond.place(new_node, probability, depth + 1, params, fl) {
                        Some(cond) => Some(
                            Box::new(
                                Node::Cond(
                                    Cond {
                                        rtype: n.rtype,
                                        cond,
                                        iftrue: n.iftrue.deep_copy(),
                                        iffalse: n.iffalse.deep_copy(),
                                    },
                                ),
                            ),
                        ),
                        None => None,
                    }
                } else if which == 1 {
                    match n.iftrue.place(new_node, probability, depth + 1, params, fl) {
                        Some(iftrue) => Some(
                            Box::new(
                                Node::Cond(
                                    Cond {
                                        rtype: n.rtype,
                                        cond: n.cond.deep_copy(),
                                        iftrue,
                                        iffalse: n.iffalse.deep_copy(),
                                    },
                                ),
                            ),
                        ),
                        None => None,
                    }
                } else {
                    match n.iffalse.place(new_node, probability, depth + 1, params, fl) {
                        Some(iffalse) => Some(
                            Box::new(
                                Node::Cond(
                                    Cond {
                                        rtype: n.rtype,
                                        cond: n.cond.deep_copy(),
                                        iftrue: n.iftrue.deep_copy(),
                                        iffalse,
                                    },
                                ),
                            ),
                        ),
                        None => None,
                    }
                }
            },
            _ => None,
        }
    }
}

} // verus!
