//! The catalog of node shapes that random generation draws from.

use crate::node::base::{Node, NodeRef, Type, TypeV, Val, Var};
use crate::node::chance::{draw_at_least, draw_at_most, pick_one};
use crate::node::ieee::{Float32, FloatOps, HALF_BITS};
use crate::node::params::{BuilderParams, Settings};
use vstd::prelude::*;

verus! {

/// Node shapes filed by the type they yield, and the two leaf shapes, a
/// constant and a variable, that serve every type.
pub struct BuilderTable {
    rtype_bool: Vec<Node>,
    rtype_int: Vec<Node>,
    rtype_uint: Vec<Node>,
    rtype_float: Vec<Node>,
    val_node: Node,
    var_node: Node,
}

impl Node {
    /// Whether the node can serve as a shape: it is no placeholder, and a
    /// binary operator takes operands of the type it declares.
    pub open spec fn shape_ok(self) -> bool {
        match self {
            Node::Null(_) => false,
            Node::Binary(n) => n.kind.accepts(n.operand),
            _ => true,
        }
    }

    /// Whether the node can serve as a shape.
    pub fn get_shape_ok(&self) -> (r: bool)
        ensures
            r == self.shape_ok(),
    {
        match self {
            Node::Null(_) => false,
            Node::Binary(n) => n.kind.get_accepts(n.operand),
            _ => true,
        }
    }
}

/// Whether every node of `list` yields `ty` and can serve as a shape.
pub open spec fn filed_under(list: Seq<Node>, ty: TypeV) -> bool {
    forall|i: int| 0 <= i < list.len() ==> (#[trigger] list[i]).rtype() == ty && list[i].shape_ok()
}

/// Whether some argument has the type `ty`.
pub open spec fn has_arg(arg_types: Seq<TypeV>, ty: TypeV) -> bool {
    exists|j: int| 0 <= j < arg_types.len() && #[trigger] arg_types[j] == ty
}

/// Whether every child slot of `shape` has a type that some argument has.
pub open spec fn slots_served(shape: Node, arg_types: Seq<TypeV>) -> bool {
    forall|j: int|
        0 <= j < shape.arg_types().len() ==> has_arg(arg_types, #[trigger] shape.arg_types()[j])
}

/// Whether every child slot of every shape of `list` has a type that some
/// argument has.
pub open spec fn all_served(list: Seq<Node>, arg_types: Seq<TypeV>) -> bool {
    forall|i: int| 0 <= i < list.len() ==> slots_served(#[trigger] list[i], arg_types)
}

/// Whether some argument has the type `ty`.
pub fn has_matching_arg(arg_types: &[TypeV], ty: TypeV) -> (r: bool)
    ensures
        r == has_arg(arg_types@, ty),
{
    let mut i: usize = 0;
    while i < arg_types.len()
        invariant
            i <= arg_types@.len(),
            forall|j: int| 0 <= j < i ==> arg_types@[j] != ty,
        decreases arg_types@.len() - i,
    {
        if arg_types[i] == ty {
            return true;
        }
        i = i + 1;
    }
    false
}

fn list_served(list: &Vec<Node>, arg_types: &[TypeV]) -> (r: bool)
    ensures
        r == all_served(list@, arg_types@),
{
    let mut i: usize = 0;
    while i < list.len()
        invariant
            i <= list@.len(),
            forall|k: int| 0 <= k < i ==> slots_served(#[trigger] list@[k], arg_types@),
        decreases list@.len() - i,
    {
        if !list[i].get_slots_served(arg_types) {
            return false;
        }
        i = i + 1;
    }
    true
}

impl Node {
    /// Whether every child slot of the node has a type that some argument
    /// has.
    pub fn get_slots_served(&self, arg_types: &[TypeV]) -> (r: bool)
        ensures
            r == slots_served(*self, arg_types@),
    {
        match self {
            Node::Unary(n) => {
                let r = has_matching_arg(arg_types, n.kind.get_rtype());
                assert(self.arg_types()[0] == n.kind.rtype());
                r
            },
            Node::Binary(n) => {
                let r = has_matching_arg(arg_types, n.operand);
                assert(self.arg_types()[0] == n.operand);
                r
            },
            Node::Cond(n) => {
                let c = has_matching_arg(arg_types, TypeV::Bool);
                let b = has_matching_arg(arg_types, n.rtype);
                assert(self.arg_types()[0] == TypeV::Bool);
                assert(self.arg_types()[1] == n.rtype);
                c && b
            },
            _ => true,
        }
    }
}

impl BuilderTable {
    /// Whether generation can go on wherever it can start: of every shape
    /// filed under a type that some argument has, every child slot has a
    /// type that some argument has, so that a variable can stand in it.
    pub open spec fn served_by(self, arg_types: Seq<TypeV>) -> bool {
        forall|ty: TypeV| #[trigger]
            has_arg(arg_types, ty) ==> all_served(self.templates(ty), arg_types)
    }

    /// Whether generation can go on wherever it can start.
    pub fn is_served_by(&self, arg_types: &[TypeV]) -> (r: bool)
        ensures
            r == self.served_by(arg_types@),
    {
        let b = !has_matching_arg(arg_types, TypeV::Bool) || list_served(&self.rtype_bool, arg_types);
        let i = !has_matching_arg(arg_types, TypeV::Int) || list_served(&self.rtype_int, arg_types);
        let u = !has_matching_arg(arg_types, TypeV::UInt) || list_served(&self.rtype_uint, arg_types);
        let f = !has_matching_arg(arg_types, TypeV::Float) || list_served(
            &self.rtype_float,
            arg_types,
        );
        proof {
            if b && i && u && f {
                assert forall|ty: TypeV| #[trigger] has_arg(arg_types@, ty) implies all_served(
                    self.templates(ty),
                    arg_types@,
                ) by {
                    match ty {
                        TypeV::Bool => {},
                        TypeV::Int => {},
                        TypeV::UInt => {},
                        TypeV::Float => {},
                    }
                }
            }
        }
        b && i && u && f
    }

    /// The shapes filed under `ty`, in the order they were pushed.
    pub closed spec fn templates(self, ty: TypeV) -> Seq<Node> {
        match ty {
            TypeV::Bool => self.rtype_bool@,
            TypeV::Int => self.rtype_int@,
            TypeV::UInt => self.rtype_uint@,
            TypeV::Float => self.rtype_float@,
        }
    }

    /// The shape of a constant leaf.
    pub closed spec fn val_template(self) -> Node {
        self.val_node
    }

    /// The shape of a variable leaf.
    pub closed spec fn var_template(self) -> Node {
        self.var_node
    }

    /// What holds of every catalog at run time.
    #[verifier::type_invariant]
    pub open spec fn inv(self) -> bool {
        self.wf()
    }

    /// Every shape yields the type it is filed under and can serve as a
    /// shape, and the two leaf shapes are a constant and a variable. This
    /// holds of every catalog.
    pub open spec fn wf(self) -> bool {
        &&& filed_under(self.templates(TypeV::Bool), TypeV::Bool)
        &&& filed_under(self.templates(TypeV::Int), TypeV::Int)
        &&& filed_under(self.templates(TypeV::UInt), TypeV::UInt)
        &&& filed_under(self.templates(TypeV::Float), TypeV::Float)
        &&& self.val_template() is Val
        &&& self.var_template() is Var
    }

    /// An empty catalog.
    pub fn new() -> (r: BuilderTable)
        ensures
            r.wf(),
            forall|ty: TypeV| r.templates(ty).len() == 0,
    {
        BuilderTable {
            rtype_bool: Vec::new(),
            rtype_int: Vec::new(),
            rtype_uint: Vec::new(),
            rtype_float: Vec::new(),
            val_node: Node::Val(Val { v: Type::Bool(false) }),
            var_node: Node::Var(Var { rtype: TypeV::Bool, idx: 0 }),
        }
    }

    /// Files the shape `node` under the type `ty`, which it yields.
    pub fn push(&mut self, ty: TypeV, node: NodeRef)
        requires
            node.rtype() == ty,
            node.shape_ok(),
        ensures
            final(self).templates(ty) == old(self).templates(ty).push(*node),
            forall|other: TypeV| other != ty ==> final(self).templates(other) == old(self).templates(other),
    {
        proof {
            use_type_invariant(&*self);
        }
        let mut taken = BuilderTable::new();
        core::mem::swap(self, &mut taken);
        let BuilderTable {
            mut rtype_bool,
            mut rtype_int,
            mut rtype_uint,
            mut rtype_float,
            val_node,
            var_node,
        } = taken;
        match ty {
            TypeV::Bool => rtype_bool.push(*node),
            TypeV::Int => rtype_int.push(*node),
            TypeV::UInt => rtype_uint.push(*node),
            TypeV::Float => rtype_float.push(*node),
        }
        let grown = BuilderTable { rtype_bool, rtype_int, rtype_uint, rtype_float, val_node, var_node };
        *self = grown;
    }

    /// The number of shapes filed under `ty`.
    pub fn count(&self, ty: TypeV) -> (r: usize)
        ensures
            r == self.templates(ty).len(),
    {
        match ty {
            TypeV::Bool => self.rtype_bool.len(),
            TypeV::Int => self.rtype_int.len(),
            TypeV::UInt => self.rtype_uint.len(),
            TypeV::Float => self.rtype_float.len(),
        }
    }

    /// Whether some shape filed under `ty` has the children-free form
    /// `shape`.
    pub open spec fn offers_shape(self, ty: TypeV, shape: Node) -> bool {
        exists|i: int|
            0 <= i < self.templates(ty).len() && (#[trigger] self.templates(ty)[i]).zero_shape()
                == shape
    }

    /// Whether `r` can be the leaf shape that a draw picks: the constant
    /// where the number drawn is at least one half, the variable where not.
    pub open spec fn picks_leaf<A: FloatOps>(self, r: Node, fl: &A) -> bool {
        ||| draw_at_least(true, Float32 { bits: HALF_BITS }, fl) && r == self.val_template()
        ||| draw_at_least(false, Float32 { bits: HALF_BITS }, fl) && r == self.var_template()
    }

    /// Whether `r` can be the shape picked for a node of type `rtype` at
    /// `depth`: a leaf shape where `depth` has reached the depth limit, where
    /// the number drawn is at most the termination probability, and where
    /// no shape is filed under `rtype`; one of the shapes filed under `rtype`
    /// otherwise.
    pub open spec fn picks<A: FloatOps>(
        self,
        r: Node,
        depth: nat,
        rtype: TypeV,
        params: Settings,
        fl: &A,
    ) -> bool {
        if depth >= params.max_depth || self.templates(rtype).len() == 0 {
            self.picks_leaf(r, fl)
        } else {
            ||| draw_at_most(true, params.termination_probability, fl) && self.picks_leaf(r, fl)
            ||| draw_at_most(false, params.termination_probability, fl) && self.templates(
                rtype,
            ).contains(r)
        }
    }

    /// A shape that can be picked is a leaf shape or one of the shapes filed
    /// under the type; where generation can go on wherever it can start and
    /// some argument has the type, every child slot of the shape has a type
    /// that some argument has.
    pub proof fn lemma_picked<A: FloatOps>(
        self,
        t: Node,
        depth: nat,
        rtype: TypeV,
        params: Settings,
        arg_types: Seq<TypeV>,
        fl: &A,
    )
        requires
            self.wf(),
            self.picks(t, depth, rtype, params, fl),
        ensures
            t is Val || t is Var || (depth < params.max_depth && self.offers_shape(
                rtype,
                t.zero_shape(),
            )),
            self.served_by(arg_types) && has_arg(arg_types, rtype) ==> slots_served(t, arg_types),
    {
        if self.templates(rtype).contains(t) {
            let i = choose|i: int| 0 <= i < self.templates(rtype).len() && self.templates(rtype)[i] == t;
            assert(self.templates(rtype)[i].zero_shape() == t.zero_shape());
            if self.served_by(arg_types) && has_arg(arg_types, rtype) {
                assert(all_served(self.templates(rtype), arg_types));
                assert(slots_served(self.templates(rtype)[i], arg_types));
            }
        } else {
            assert(t.arg_types().len() == 0);
        }
    }

    /// Picks the shape of the node to place at `depth`. It is a leaf shape,
    /// constant or variable with even chance, when a draw falls at or below
    /// the termination probability, when `depth` has reached the depth
    /// limit, and when no shape is filed under `rtype`; otherwise it is one
    /// of the shapes filed under `rtype`, each with the same chance.
    pub fn get_rand_node<A: FloatOps>(
        &self,
        depth: usize,
        rtype: TypeV,
        params: &mut BuilderParams,
        fl: &A,
    ) -> (r: &Node)
        ensures
            final(params).same_settings(*old(params)),
            self.wf(),
            self.picks(*r, depth as nat, rtype, old(params).settings(), fl),
    {
        proof {
            use_type_invariant(self);
        }
        let ends = params.draws_at_most(params.termination_probability, fl);
        if ends || depth >= params.max_depth {
            self.leaf_template(params, fl)
        } else {
            let picked = match rtype {
                TypeV::Bool => pick_one(&self.rtype_bool, &mut params.randomizer),
                TypeV::Int => pick_one(&self.rtype_int, &mut params.randomizer),
                TypeV::UInt => pick_one(&self.rtype_uint, &mut params.randomizer),
                TypeV::Float => pick_one(&self.rtype_float, &mut params.randomizer),
            };
            match picked {
                Some(t) => t,
                None => self.leaf_template(params, fl),
            }
        }
    }

    fn leaf_template<A: FloatOps>(&self, params: &mut BuilderParams, fl: &A) -> (r: &Node)
        ensures
            final(params).same_settings(*old(params)),
            self.picks_leaf(*r, fl),
    {
        if params.draws_at_least(Float32::new(HALF_BITS), fl) {
            &self.val_node
        } else {
            &self.var_node
        }
    }
}

} // verus!
