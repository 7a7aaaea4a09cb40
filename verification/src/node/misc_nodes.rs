//! The conditional.

use crate::node::base::{Node, NodeRef, Null, TypeV};
use vstd::prelude::*;

verus! {

/// A node with three children: a condition and the two branches, of which
/// it yields the first when the condition holds and the second when not.
#[derive(Debug, PartialEq, Eq)]
pub struct Cond {
    pub rtype: TypeV,
    pub cond: NodeRef,
    pub iftrue: NodeRef,
    pub iffalse: NodeRef,
}

impl Cond {
    /// A conditional over the given children. Its type is that of the
    /// branches.
    pub fn make(cond: NodeRef, iftrue: NodeRef, iffalse: NodeRef) -> (r: NodeRef)
        requires
            iftrue.rtype() == iffalse.rtype(),
            cond.rtype() == TypeV::Bool,
        ensures
            *r == Node::Cond(Cond { rtype: iftrue.rtype(), cond, iftrue, iffalse }),
    {
        let rtype = iftrue.get_rtype();
        Box::new(Node::Cond(Cond { rtype, cond, iftrue, iffalse }))
    }

    /// The shape of a conditional of type `rtype`: all children are
    /// placeholders.
    pub fn zero(rtype: TypeV) -> (r: NodeRef)
        ensures
            *r == Node::Cond(
                Cond {
                    rtype,
                    cond: Box::new(Node::Null(Null { rtype: TypeV::Bool })),
                    iftrue: Box::new(Node::Null(Null { rtype })),
                    iffalse: Box::new(Node::Null(Null { rtype })),
                },
            ),
    {
        Box::new(
            Node::Cond(
                Cond {
                    rtype,
                    cond: Null::zero(TypeV::Bool),
                    iftrue: Null::zero(rtype),
                    iffalse: Null::zero(rtype),
                },
            ),
        )
    }
}

} // verus!
