//! Type checking of a tree.

use crate::node::base::{Node, Type, TypeErr, TypeV};
use vstd::prelude::*;
use vstd::string::StringExecFns;

verus! {

impl Node {
    /// Whether the node agrees with its children: each child has the type
    /// that its slot declares, and the operator takes operands of that type.
    /// A placeholder agrees with nothing.
    pub open spec fn local_ok(self) -> bool {
        match self {
            Node::Null(_) => false,
            Node::Val(_) => true,
            Node::Var(_) => true,
            Node::Unary(n) => n.arg.rtype() == n.kind.rtype(),
            Node::Binary(n) => n.kind.accepts(n.operand) && n.lhs.rtype() == n.operand
                && n.rhs.rtype() == n.operand,
            Node::Cond(n) => n.cond.rtype() == TypeV::Bool && n.iftrue.rtype() == n.rtype
                && n.iffalse.rtype() == n.rtype,
        }
    }

    /// Whether every node of the tree agrees with its children.
    pub open spec fn well_typed(self) -> bool
        decreases self,
    {
        self.local_ok() && match self {
            Node::Unary(n) => n.arg.well_typed(),
            Node::Binary(n) => n.lhs.well_typed() && n.rhs.well_typed(),
            Node::Cond(n) => n.cond.well_typed() && n.iftrue.well_typed()
                && n.iffalse.well_typed(),
            _ => true,
        }
    }

    /// The first node that does not agree with its children, going from a
    /// node to its children only when the node itself agrees, and through the
    /// children in order.
    pub open spec fn fault(self) -> Option<Node>
        decreases self,
    {
        if !self.local_ok() {
            Some(self)
        } else {
            match self {
                Node::Unary(n) => n.arg.fault(),
                Node::Binary(n) => if n.lhs.fault() is Some {
                    n.lhs.fault()
                } else {
                    n.rhs.fault()
                },
                Node::Cond(n) => if n.cond.fault() is Some {
                    n.cond.fault()
                } else if n.iftrue.fault() is Some {
                    n.iftrue.fault()
                } else {
                    n.iffalse.fault()
                },
                _ => None,
            }
        }
    }

    /// What is wrong at a node that does not agree with its children: the
    /// variant, the types it declares and the types it got.
    pub open spec fn fault_text(self) -> Seq<char> {
        match self {
            Node::Null(_) => "Null node is invalid!!"@,
            Node::Val(_) => ""@,
            Node::Var(_) => ""@,
            Node::Unary(n) => n.kind.name() + " required argument of type "@ + n.kind.rtype().name()
                + "; Got "@ + n.arg.rtype().name() + "!!"@,
            Node::Binary(n) => if !n.kind.accepts(n.operand) {
                n.kind.name() + " takes no argument of type "@ + n.operand.name() + "!!"@
            } else {
                n.kind.name() + " required argument of type ("@ + n.operand.name() + ", "@
                    + n.operand.name() + "); Got ("@ + n.lhs.rtype().name() + ", "@
                    + n.rhs.rtype().name() + ")!!"@
            },
            Node::Cond(n) => "Cond required argument of type (Bool, "@ + n.rtype.name() + ", "@
                + n.rtype.name() + "); Got ("@ + n.cond.rtype().name() + ", "@
                + n.iftrue.rtype().name() + ", "@ + n.iffalse.rtype().name() + ")!!"@,
        }
    }

    /// A tree is well typed exactly when no node of it is at fault.
    pub proof fn lemma_fault_free(self)
        ensures
            self.well_typed() <==> self.fault() is None,
        decreases self,
    {
        match self {
            Node::Unary(n) => {
                n.arg.lemma_fault_free();
            },
            Node::Binary(n) => {
                n.lhs.lemma_fault_free();
                n.rhs.lemma_fault_free();
            },
            Node::Cond(n) => {
                n.cond.lemma_fault_free();
                n.iftrue.lemma_fault_free();
                n.iffalse.lemma_fault_free();
            },
            _ => {},
        }
    }

    /// A well-typed tree holds no placeholder.
    pub proof fn lemma_well_typed_no_null(self)
        requires
            self.well_typed(),
        ensures
            !self.has_null(),
        decreases self,
    {
        match self {
            Node::Unary(n) => {
                n.arg.lemma_well_typed_no_null();
            },
            Node::Binary(n) => {
                n.lhs.lemma_well_typed_no_null();
                n.rhs.lemma_well_typed_no_null();
            },
            Node::Cond(n) => {
                n.cond.lemma_well_typed_no_null();
                n.iftrue.lemma_well_typed_no_null();
                n.iffalse.lemma_well_typed_no_null();
            },
            _ => {},
        }
    }

    fn get_local_ok(&self) -> (r: bool)
        ensures
            r == self.local_ok(),
    {
        match self {
            Node::Null(_) => false,
            Node::Val(_) => true,
            Node::Var(_) => true,
            Node::Unary(n) => n.arg.get_rtype() == n.kind.get_rtype(),
            Node::Binary(n) => n.kind.get_accepts(n.operand) && n.lhs.get_rtype() == n.operand
                && n.rhs.get_rtype() == n.operand,
            Node::Cond(n) => n.cond.get_rtype() == TypeV::Bool && n.iftrue.get_rtype() == n.rtype
                && n.iffalse.get_rtype() == n.rtype,
        }
    }

    fn fault_message(&self) -> (r: String)
        ensures
            r@ == self.fault_text(),
    {
        match self {
            Node::Null(_) => String::from_str("Null node is invalid!!"),
            Node::Val(_) => String::from_str(""),
            Node::Var(_) => String::from_str(""),
            Node::Unary(n) => {
                let mut s = String::from_str(n.kind.get_name());
                s.append(" required argument of type ");
                s.append(n.kind.get_rtype().get_name());
                s.append("; Got ");
                s.append(n.arg.get_rtype().get_name());
                s.append("!!");
                s
            },
            Node::Binary(n) => {
                let mut s = String::from_str(n.kind.get_name());
                if !n.kind.get_accepts(n.operand) {
                    s.append(" takes no argument of type ");
                    s.append(n.operand.get_name());
                    s.append("!!");
                } else {
                    s.append(" required argument of type (");
                    s.append(n.operand.get_name());
                    s.append(", ");
                    s.append(n.operand.get_name());
                    s.append("); Got (");
                    s.append(n.lhs.get_rtype().get_name());
                    s.append(", ");
                    s.append(n.rhs.get_rtype().get_name());
                    s.append(")!!");
                }
                s
            },
            Node::Cond(n) => {
                let mut s = String::from_str("Cond required argument of type (Bool, ");
                s.append(n.rtype.get_name());
                s.append(", ");
                s.append(n.rtype.get_name());
                s.append("); Got (");
                s.append(n.cond.get_rtype().get_name());
                s.append(", ");
                s.append(n.iftrue.get_rtype().get_name());
                s.append(", ");
                s.append(n.iffalse.get_rtype().get_name());
                s.append(")!!");
                s
            },
        }
    }

    /// Checks the tree: every child has the type its slot declares, every
    /// operator takes the operands it is given, and no placeholder is left.
    /// The error describes the first node at fault.
    pub fn type_check(&self) -> (r: Result<(), TypeErr>)
        ensures
            r is Ok <==> self.well_typed(),
            r is Err ==> self.fault() is Some && r->Err_0.msg@ == self.fault()->0.fault_text(),
        decreases self,
    {
        proof {
            self.lemma_fault_free();
        }
        if !self.get_local_ok() {
            return Err(TypeErr { msg: self.fault_message() });
        }
        match self {
            Node::Unary(n) => n.arg.type_check(),
            Node::Binary(n) => {
                proof {
                    n.lhs.lemma_fault_free();
                }
                match n.lhs.type_check() {
                    Err(e) => Err(e),
                    Ok(()) => n.rhs.type_check(),
                }
            },
            Node::Cond(n) => {
                proof {
                    n.cond.lemma_fault_free();
                    n.iftrue.lemma_fault_free();
                }
                match n.cond.type_check() {
                    Err(e) => Err(e),
                    Ok(()) => match n.iftrue.type_check() {
                        Err(e) => Err(e),
                        Ok(()) => n.iffalse.type_check(),
                    },
                }
            },
            _ => Ok(()),
        }
    }
}

} // verus!
