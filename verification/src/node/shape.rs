//! The structure of a tree: types, children, depth, copies and placeholders.

use crate::node::base::{Node, NodeRef, Null, Type, TypeV, Val, Var};
use crate::node::binary_node_base::BinOpBase;
use crate::node::ieee::FloatOps;
use crate::node::misc_nodes::Cond;
use crate::node::unary_node_base::UnaryOpBase;
use vstd::prelude::*;

verus! {

/// The larger of two numbers.
pub open spec fn max_nat(a: nat, b: nat) -> nat {
    if a >= b {
        a
    } else {
        b
    }
}

impl Node {
    /// The declared type of the value that the node yields.
    pub open spec fn rtype(self) -> TypeV {
        match self {
            Node::Null(n) => n.rtype,
            Node::Val(n) => n.v.tag(),
            Node::Var(n) => n.rtype,
            Node::Unary(n) => n.kind.rtype(),
            Node::Binary(n) => n.kind.rtype_on(n.operand),
            Node::Cond(n) => n.rtype,
        }
    }

    /// The declared types of the child slots, in order.
    pub open spec fn arg_types(self) -> Seq<TypeV> {
        match self {
            Node::Unary(n) => seq![n.kind.rtype()],
            Node::Binary(n) => seq![n.operand, n.operand],
            Node::Cond(n) => seq![TypeV::Bool, n.rtype, n.rtype],
            _ => seq![],
        }
    }

    /// The children, in order: the left operand first, the condition first.
    pub open spec fn children(self) -> Seq<Node> {
        match self {
            Node::Unary(n) => seq![*n.arg],
            Node::Binary(n) => seq![*n.lhs, *n.rhs],
            Node::Cond(n) => seq![*n.cond, *n.iftrue, *n.iffalse],
            _ => seq![],
        }
    }

    /// Whether the node is a constant or a variable.
    pub open spec fn is_leaf(self) -> bool {
        self is Val || self is Var
    }

    /// The number of levels: 0 for a placeholder, 1 for a leaf, one more than
    /// the deepest child otherwise.
    pub open spec fn height(self) -> nat
        decreases self,
    {
        match self {
            Node::Null(_) => 0,
            Node::Val(_) => 1,
            Node::Var(_) => 1,
            Node::Unary(n) => 1 + n.arg.height(),
            Node::Binary(n) => 1 + max_nat(n.lhs.height(), n.rhs.height()),
            Node::Cond(n) => 1 + max_nat(
                n.cond.height(),
                max_nat(n.iftrue.height(), n.iffalse.height()),
            ),
        }
    }

    /// Whether a placeholder occurs anywhere in the tree.
    pub open spec fn has_null(self) -> bool
        decreases self,
    {
        match self {
            Node::Null(_) => true,
            Node::Val(_) => false,
            Node::Var(_) => false,
            Node::Unary(n) => n.arg.has_null(),
            Node::Binary(n) => n.lhs.has_null() || n.rhs.has_null(),
            Node::Cond(n) => n.cond.has_null() || n.iftrue.has_null() || n.iffalse.has_null(),
        }
    }

    /// The same variant with every child replaced by a placeholder of the
    /// slot's type.
    pub open spec fn zero_shape(self) -> Node {
        match self {
            Node::Null(n) => Node::Null(Null { rtype: n.rtype }),
            Node::Val(n) => Node::Val(Val { v: Type::zero_of(n.v.tag()) }),
            Node::Var(n) => Node::Var(Var { rtype: n.rtype, idx: 0 }),
            Node::Unary(n) => Node::Unary(
                UnaryOpBase { kind: n.kind, arg: Box::new(Node::Null(Null { rtype: n.kind.rtype() })) },
            ),
            Node::Binary(n) => Node::Binary(
                BinOpBase {
                    kind: n.kind,
                    operand: n.operand,
                    rhs: Box::new(Node::Null(Null { rtype: n.operand })),
                    lhs: Box::new(Node::Null(Null { rtype: n.operand })),
                },
            ),
            Node::Cond(n) => Node::Cond(
                Cond {
                    rtype: n.rtype,
                    cond: Box::new(Node::Null(Null { rtype: TypeV::Bool })),
                    iftrue: Box::new(Node::Null(Null { rtype: n.rtype })),
                    iffalse: Box::new(Node::Null(Null { rtype: n.rtype })),
                },
            ),
        }
    }

    /// The tree with its child at `index` replaced.
    pub open spec fn with_child(self, index: int, child: Node) -> Node {
        match self {
            Node::Unary(n) => Node::Unary(UnaryOpBase { kind: n.kind, arg: Box::new(child) }),
            Node::Binary(n) => if index == 0 {
                Node::Binary(
                    BinOpBase { kind: n.kind, operand: n.operand, rhs: n.rhs, lhs: Box::new(child) },
                )
            } else {
                Node::Binary(
                    BinOpBase { kind: n.kind, operand: n.operand, rhs: Box::new(child), lhs: n.lhs },
                )
            },
            Node::Cond(n) => if index == 0 {
                Node::Cond(
                    Cond { rtype: n.rtype, cond: Box::new(child), iftrue: n.iftrue, iffalse: n.iffalse },
                )
            } else if index == 1 {
                Node::Cond(
                    Cond { rtype: n.rtype, cond: n.cond, iftrue: Box::new(child), iffalse: n.iffalse },
                )
            } else {
                Node::Cond(
                    Cond { rtype: n.rtype, cond: n.cond, iftrue: n.iftrue, iffalse: Box::new(child) },
                )
            },
            _ => self,
        }
    }

    /// The declared type of the value that the node yields.
    pub fn get_rtype(&self) -> (r: TypeV)
        ensures
            r == self.rtype(),
    {
        match self {
            Node::Null(n) => n.rtype,
            Node::Val(n) => n.v.get_tag(),
            Node::Var(n) => n.rtype,
            Node::Unary(n) => n.kind.get_rtype(),
            Node::Binary(n) => n.kind.get_rtype_on(n.operand),
            Node::Cond(n) => n.rtype,
        }
    }

    /// The declared types of the child slots, in order.
    pub fn get_arg_types(&self) -> (r: Vec<TypeV>)
        ensures
            r@ == self.arg_types(),
    {
        match self {
            Node::Unary(n) => {
                let out: Vec<TypeV> = vec![n.kind.get_rtype()];
                assert(out@ =~= self.arg_types());
                out
            },
            Node::Binary(n) => {
                let out: Vec<TypeV> = vec![n.operand, n.operand];
                assert(out@ =~= self.arg_types());
                out
            },
            Node::Cond(n) => {
                let out: Vec<TypeV> = vec![TypeV::Bool, n.rtype, n.rtype];
                assert(out@ =~= self.arg_types());
                out
            },
            _ => {
                let out: Vec<TypeV> = Vec::new();
                assert(out@ =~= self.arg_types());
                out
            },
        }
    }

    /// The number of child slots.
    pub fn get_arity(&self) -> (r: usize)
        ensures
            r == self.children().len(),
    {
        match self {
            Node::Unary(_) => 1,
            Node::Binary(_) => 2,
            Node::Cond(_) => 3,
            _ => 0,
        }
    }

    /// Replaces the child at `child_index`. Leaves have no child to replace.
    pub fn set_child(&mut self, child_index: usize, child: NodeRef)
        requires
            child_index < old(self).children().len(),
        ensures
            *final(self) == old(self).with_child(child_index as int, *child),
    {
        match self {
            Node::Unary(n) => {
                n.arg = child;
            },
            Node::Binary(n) => {
                if child_index == 0 {
                    n.lhs = child;
                } else {
                    n.rhs = child;
                }
            },
            Node::Cond(n) => {
                if child_index == 0 {
                    n.cond = child;
                } else if child_index == 1 {
                    n.iftrue = child;
                } else {
                    n.iffalse = child;
                }
            },
            _ => {},
        }
    }

    /// The child at `child_index`.
    pub fn get_child(&self, child_index: usize) -> (r: &NodeRef)
        requires
            child_index < self.children().len(),
        ensures
            **r == self.children()[child_index as int],
    {
        match self {
            Node::Unary(n) => &n.arg,
            Node::Binary(n) => if child_index == 0 {
                &n.lhs
            } else {
                &n.rhs
            },
            Node::Cond(n) => if child_index == 0 {
                &n.cond
            } else if child_index == 1 {
                &n.iftrue
            } else {
                &n.iffalse
            },
            _ => {
                vstd::pervasive::unreached()
            },
        }
    }

    /// A fresh node of the same variant whose children are placeholders.
    pub fn get_zero_node(&self) -> (r: NodeRef)
        ensures
            *r == self.zero_shape(),
    {
        match self {
            Node::Null(n) => Null::zero(n.rtype),
            Node::Val(n) => Val::zero(n.v.get_tag()),
            Node::Var(n) => Var::make(0, n.rtype),
            Node::Unary(n) => UnaryOpBase::zero(n.kind),
            Node::Binary(n) => BinOpBase::zero(n.kind, n.operand),
            Node::Cond(n) => Cond::zero(n.rtype),
        }
    }

    /// A structural copy that shares nothing with the tree.
    pub fn deep_copy(&self) -> (r: NodeRef)
        ensures
            *r == *self,
            r.height() == self.height(),
        decreases self,
    {
        match self {
            Node::Null(n) => Null::zero(n.rtype),
            Node::Val(n) => Val::make(n.v),
            Node::Var(n) => Var::make(n.idx, n.rtype),
            Node::Unary(n) => Box::new(
                Node::Unary(UnaryOpBase { kind: n.kind, arg: n.arg.deep_copy() }),
            ),
            Node::Binary(n) => Box::new(
                Node::Binary(
                    BinOpBase {
                        kind: n.kind,
                        operand: n.operand,
                        rhs: n.rhs.deep_copy(),
                        lhs: n.lhs.deep_copy(),
                    },
                ),
            ),
            Node::Cond(n) => Box::new(
                Node::Cond(
                    Cond {
                        rtype: n.rtype,
                        cond: n.cond.deep_copy(),
                        iftrue: n.iftrue.deep_copy(),
                        iffalse: n.iffalse.deep_copy(),
                    },
                ),
            ),
        }
    }

    /// A tree that equals another evaluates, renders and measures like it.
    pub proof fn lemma_copy_alike<A: FloatOps>(
        self,
        copy: Node,
        row: Seq<Type>,
        indent: usize,
        fl: &A,
    )
        requires
            copy == self,
        ensures
            copy.value(row, fl) == self.value(row, fl),
            copy.tree_text(indent, fl) == self.tree_text(indent, fl),
            copy.equation_text(fl) == self.equation_text(fl),
            copy.height() == self.height(),
            copy.rtype() == self.rtype(),
    {
    }

    /// Whether two trees are the same, node by node.
    pub fn same_as(&self, other: &Node) -> (r: bool)
        ensures
            r == (*self == *other),
        decreases self,
    {
        match (self, other) {
            (Node::Null(a), Node::Null(b)) => a.rtype == b.rtype,
            (Node::Val(a), Node::Val(b)) => a.v == b.v,
            (Node::Var(a), Node::Var(b)) => a.rtype == b.rtype && a.idx == b.idx,
            (Node::Unary(a), Node::Unary(b)) => a.kind == b.kind && a.arg.same_as(&b.arg),
            (Node::Binary(a), Node::Binary(b)) => a.kind == b.kind && a.operand == b.operand
                && a.lhs.same_as(&b.lhs) && a.rhs.same_as(&b.rhs),
            (Node::Cond(a), Node::Cond(b)) => a.rtype == b.rtype && a.cond.same_as(&b.cond)
                && a.iftrue.same_as(&b.iftrue) && a.iffalse.same_as(&b.iffalse),
            _ => false,
        }
    }

    /// The depth of the deepest branch, counted in levels. A count that does
    /// not fit the machine word is reported as the largest word.
    pub fn get_max_depth(&self) -> (r: usize)
        ensures
            r == if self.height() <= usize::MAX {
                self.height()
            } else {
                usize::MAX as nat
            },
        decreases self,
    {
        match self {
            Node::Null(_) => 0,
            Node::Val(_) => 1,
            Node::Var(_) => 1,
            Node::Unary(n) => one_more(n.arg.get_max_depth()),
            Node::Binary(n) => {
                let l = n.lhs.get_max_depth();
                let r = n.rhs.get_max_depth();
                one_more(if l >= r { l } else { r })
            },
            Node::Cond(n) => {
                let c = n.cond.get_max_depth();
                let t = n.iftrue.get_max_depth();
                let f = n.iffalse.get_max_depth();
                let b = if t >= f { t } else { f };
                one_more(if c >= b { c } else { b })
            },
        }
    }
}

/// One more than `d`, and `d` where that does not fit.
pub(crate) fn one_more(d: usize) -> (r: usize)
    ensures
        r == if d < usize::MAX {
            d + 1
        } else {
            usize::MAX as int
        },
{
    if d < usize::MAX {
        d + 1
    } else {
        usize::MAX
    }
}

} // verus!
