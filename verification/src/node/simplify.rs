//! Pruning: cancelling a function against its inverse, and a repeated
//! idempotent function, from the leaves upwards.

use crate::node::base::{Node, NodeRef, TypeV};
use crate::node::binary_node_base::BinOpBase;
use crate::node::misc_nodes::Cond;
use crate::node::unary_node_base::{UnaryOp, UnaryOpBase};
use vstd::prelude::*;

verus! {

/// `kind` applied to an already pruned `arg`: the argument of `arg` where
/// `kind` undoes the function at the root of `arg`, `arg` itself where both
/// are the same idempotent function, and the plain application otherwise.
pub open spec fn apply_pruned(kind: UnaryOp, arg: Node) -> Node {
    match arg {
        Node::Unary(inner) => if kind.undoes(inner.kind) {
            *inner.arg
        } else if kind.idempotent() && inner.kind == kind {
            arg
        } else {
            Node::Unary(UnaryOpBase { kind, arg: Box::new(arg) })
        },
        _ => Node::Unary(UnaryOpBase { kind, arg: Box::new(arg) }),
    }
}

impl Node {
    /// The simplified tree: the children are simplified first, then the node
    /// is cancelled against its simplified child where the two cancel.
    pub open spec fn pruned(self) -> Node
        decreases self,
    {
        match self {
            Node::Unary(n) => apply_pruned(n.kind, n.arg.pruned()),
            Node::Binary(n) => Node::Binary(
                BinOpBase {
                    kind: n.kind,
                    operand: n.operand,
                    rhs: Box::new(n.rhs.pruned()),
                    lhs: Box::new(n.lhs.pruned()),
                },
            ),
            Node::Cond(n) => Node::Cond(
                Cond {
                    rtype: n.rtype,
                    cond: Box::new(n.cond.pruned()),
                    iftrue: Box::new(n.iftrue.pruned()),
                    iffalse: Box::new(n.iffalse.pruned()),
                },
            ),
            _ => self,
        }
    }

    /// Whether nothing is left to cancel: no function stands directly over
    /// its inverse, and no idempotent function directly over itself.
    pub open spec fn reduced(self) -> bool
        decreases self,
    {
        match self {
            Node::Unary(n) => n.arg.reduced() && match *n.arg {
                Node::Unary(inner) => !n.kind.undoes(inner.kind) && !(n.kind.idempotent()
                    && inner.kind == n.kind),
                _ => true,
            },
            Node::Binary(n) => n.lhs.reduced() && n.rhs.reduced(),
            Node::Cond(n) => n.cond.reduced() && n.iftrue.reduced() && n.iffalse.reduced(),
            _ => true,
        }
    }

    /// Pruning leaves nothing to cancel and never makes the tree deeper.
    pub proof fn lemma_pruned(self)
        ensures
            self.pruned().reduced(),
            self.pruned().height() <= self.height(),
        decreases self,
    {
        match self {
            Node::Unary(n) => {
                n.arg.lemma_pruned();
            },
            Node::Binary(n) => {
                n.lhs.lemma_pruned();
                n.rhs.lemma_pruned();
            },
            Node::Cond(n) => {
                n.cond.lemma_pruned();
                n.iftrue.lemma_pruned();
                n.iffalse.lemma_pruned();
            },
            _ => {},
        }
    }

    /// Pruning keeps a well-typed tree well typed and of the same type,
    /// keeps its variables within the arguments they fitted, and keeps every
    /// operator able to give way to a fresh tree.
    pub proof fn lemma_pruned_well_typed(self, arg_types: Seq<TypeV>)
        ensures
            self.well_typed() ==> self.pruned().well_typed() && self.pruned().rtype()
                == self.rtype(),
            self.fits_args(arg_types) ==> self.pruned().fits_args(arg_types),
            !self.has_null() ==> !self.pruned().has_null(),
            self.regrowable(arg_types) ==> self.pruned().regrowable(arg_types),
        decreases self,
    {
        match self {
            Node::Unary(n) => {
                n.arg.lemma_pruned_well_typed(arg_types);
                n.arg.lemma_pruned();
            },
            Node::Binary(n) => {
                n.lhs.lemma_pruned_well_typed(arg_types);
                n.rhs.lemma_pruned_well_typed(arg_types);
                n.lhs.lemma_pruned();
                n.rhs.lemma_pruned();
            },
            Node::Cond(n) => {
                n.cond.lemma_pruned_well_typed(arg_types);
                n.iftrue.lemma_pruned_well_typed(arg_types);
                n.iffalse.lemma_pruned_well_typed(arg_types);
                n.cond.lemma_pruned();
                n.iftrue.lemma_pruned();
                n.iffalse.lemma_pruned();
            },
            _ => {},
        }
    }

    /// A tree with nothing to cancel is its own pruning.
    pub proof fn lemma_pruned_fixed(self)
        requires
            self.reduced(),
        ensures
            self.pruned() == self,
        decreases self,
    {
        match self {
            Node::Unary(n) => {
                n.arg.lemma_pruned_fixed();
            },
            Node::Binary(n) => {
                n.lhs.lemma_pruned_fixed();
                n.rhs.lemma_pruned_fixed();
            },
            Node::Cond(n) => {
                n.cond.lemma_pruned_fixed();
                n.iftrue.lemma_pruned_fixed();
                n.iffalse.lemma_pruned_fixed();
            },
            _ => {},
        }
    }

    /// Pruning a pruned tree changes nothing.
    pub proof fn lemma_pruned_twice(self)
        ensures
            self.pruned().pruned() == self.pruned(),
    {
        self.lemma_pruned();
        self.pruned().lemma_pruned_fixed();
    }

    /// A function applied to its inverse applied to `x` prunes to what `x`
    /// prunes to.
    pub proof fn lemma_inverse_pair_cancels(outer: UnaryOp, inner: UnaryOp, x: Node)
        requires
            outer.undoes(inner),
        ensures
            Node::Unary(
                UnaryOpBase {
                    kind: outer,
                    arg: Box::new(Node::Unary(UnaryOpBase { kind: inner, arg: Box::new(x) })),
                },
            ).pruned() == x.pruned(),
    {
        x.lemma_pruned();
        let p = x.pruned();
        let mid = Node::Unary(UnaryOpBase { kind: inner, arg: Box::new(x) });
        assert(mid.pruned() == apply_pruned(inner, p));
        assert(inner.undoes(outer));
        assert(!inner.idempotent());
    }

    /// An idempotent function applied twice to `x` prunes to what one
    /// application prunes to.
    pub proof fn lemma_idempotent_pair_collapses(kind: UnaryOp, x: Node)
        requires
            kind.idempotent(),
        ensures
            Node::Unary(
                UnaryOpBase {
                    kind,
                    arg: Box::new(Node::Unary(UnaryOpBase { kind, arg: Box::new(x) })),
                },
            ).pruned() == Node::Unary(UnaryOpBase { kind, arg: Box::new(x) }).pruned(),
    {
        x.lemma_pruned();
    }

    /// Simplifies the tree from the leaves upwards. A function directly over
    /// its inverse (sine and arcsine, exponential and logarithm, and the
    /// like, in either order) gives way to the argument of the inverse; an
    /// absolute value directly over another gives way to it.
    pub fn prune(&self) -> (r: NodeRef)
        ensures
            *r == self.pruned(),
        decreases self,
    {
        match self {
            Node::Unary(n) => {
                let arg: NodeRef = n.arg.prune();
                match *arg {
                    Node::Unary(inner) => {
                        if n.kind.get_undoes(&inner.kind) {
                            inner.arg
                        } else if n.kind.get_idempotent() && inner.kind == n.kind {
                            Box::new(Node::Unary(inner))
                        } else {
                            UnaryOpBase::make(n.kind, Box::new(Node::Unary(inner)))
                        }
                    },
                    other => UnaryOpBase::make(n.kind, Box::new(other)),
                }
            },
            Node::Binary(n) => Box::new(
                Node::Binary(
                    BinOpBase {
                        kind: n.kind,
                        operand: n.operand,
                        rhs: n.rhs.prune(),
                        lhs: n.lhs.prune(),
                    },
                ),
            ),
            Node::Cond(n) => Box::new(
                Node::Cond(
                    Cond {
                        rtype: n.rtype,
                        cond: n.cond.prune(),
                        iftrue: n.iftrue.prune(),
                        iffalse: n.iffalse.prune(),
                    },
                ),
            ),
            _ => self.deep_copy(),
        }
    }
}

} // verus!
