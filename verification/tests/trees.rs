use expr_evolution::node::base::{Node, NodeRef, Null, Type, TypeV, Val, Var};
use expr_evolution::node::binary_node_base::{BinOp, BinOpBase};
use expr_evolution::node::ieee::{ArithFn, Float32, FloatOps, MathFn};
use expr_evolution::node::misc_nodes::Cond;
use expr_evolution::node::render::{append_int, append_nat, append_repeated};
use expr_evolution::node::unary_node_base::{UnaryOp, UnaryOpBase};

struct Ieee;

fn num(x: Float32) -> f32 {
    f32::from_bits(x.bits)
}

fn pat(x: f32) -> Float32 {
    Float32 { bits: x.to_bits() }
}

impl FloatOps for Ieee {
    fn unary_of(&self, f: MathFn, x: Float32) -> Float32 {
        self.unary(f, x)
    }

    fn binary_of(&self, f: ArithFn, l: Float32, r: Float32) -> Float32 {
        self.binary(f, l, r)
    }

    fn count_of(&self, n: u64) -> Float32 {
        self.from_count(n)
    }

    fn text_of(&self, x: Float32) -> String {
        self.text(x)
    }

    fn unary(&self, f: MathFn, x: Float32) -> Float32 {
        let v = num(x);
        pat(match f {
            MathFn::Sin => v.sin(),
            MathFn::Cos => v.cos(),
            MathFn::Tan => v.tan(),
            MathFn::ASin => v.asin(),
            MathFn::ACos => v.acos(),
            MathFn::ATan => v.atan(),
            MathFn::Sinh => v.sinh(),
            MathFn::Cosh => v.cosh(),
            MathFn::Tanh => v.tanh(),
            MathFn::ASinh => v.asinh(),
            MathFn::ACosh => v.acosh(),
            MathFn::ATanh => v.atanh(),
            MathFn::Exp => v.exp(),
            MathFn::Log => v.ln(),
        })
    }

    fn binary(&self, f: ArithFn, l: Float32, r: Float32) -> Float32 {
        let (a, b) = (num(l), num(r));
        pat(match f {
            ArithFn::Add => a + b,
            ArithFn::Sub => a - b,
            ArithFn::Mul => a * b,
            ArithFn::Div => a / b,
            ArithFn::Pow => a.powf(b),
        })
    }

    fn from_count(&self, n: u64) -> Float32 {
        pat(n as f32)
    }

    fn text(&self, x: Float32) -> String {
        format!("{}", num(x))
    }
}

fn lit(x: f32) -> NodeRef {
    Val::make(Type::Float(pat(x)))
}

fn x(i: usize) -> NodeRef {
    Var::make(i, TypeV::Float)
}

fn math(f: MathFn, arg: NodeRef) -> NodeRef {
    UnaryOpBase::make(UnaryOp::Math(f), arg)
}

fn abs(arg: NodeRef) -> NodeRef {
    UnaryOpBase::make(UnaryOp::Abs, arg)
}

/// `lhs op rhs`
fn bin(op: BinOp, lhs: NodeRef, rhs: NodeRef) -> NodeRef {
    BinOpBase::make(op, rhs, lhs)
}

fn row(values: &[f32]) -> Vec<Type> {
    values.iter().map(|v| Type::Float(pat(*v))).collect()
}

/// (x[0] + 2.5) * Sin(x[1])
fn sample_tree() -> NodeRef {
    bin(
        BinOp::Mul,
        bin(BinOp::Add, x(0), lit(2.5)),
        math(MathFn::Sin, x(1)),
    )
}

#[test]
fn constructors_build_the_nodes_they_name() {
    assert_eq!(*Null::zero(TypeV::Int), Node::Null(Null { rtype: TypeV::Int }));
    assert_eq!(*Val::make(Type::Int(4)), Node::Val(Val { v: Type::Int(4) }));
    assert_eq!(*Val::zero(TypeV::UInt), Node::Val(Val { v: Type::UInt(0) }));
    assert_eq!(*Val::zero(TypeV::Float), Node::Val(Val { v: Type::Float(pat(0.0)) }));
    assert_eq!(*Var::make(3, TypeV::Bool), Node::Var(Var { rtype: TypeV::Bool, idx: 3 }));
    let sum = bin(BinOp::Add, x(0), lit(1.0));
    match &*sum {
        Node::Binary(n) => {
            assert_eq!(n.kind, BinOp::Add);
            assert_eq!(n.operand, TypeV::Float);
            assert_eq!(n.lhs, x(0));
            assert_eq!(n.rhs, lit(1.0));
        }
        _ => panic!("not a binary node"),
    }
    let cond = Cond::make(Val::make(Type::Bool(true)), lit(1.0), lit(2.0));
    match &*cond {
        Node::Cond(n) => {
            assert_eq!(n.rtype, TypeV::Float);
            assert_eq!(n.cond, Val::make(Type::Bool(true)));
            assert_eq!(n.iftrue, lit(1.0));
            assert_eq!(n.iffalse, lit(2.0));
        }
        _ => panic!("not a conditional"),
    }
}

#[test]
fn zero_shapes_hold_placeholders() {
    let shape = BinOpBase::zero(BinOp::Lt, TypeV::Int);
    assert_eq!(shape.get_rtype(), TypeV::Bool);
    assert_eq!(shape.get_arg_types(), vec![TypeV::Int, TypeV::Int]);
    assert_eq!(**shape.get_child(0), Node::Null(Null { rtype: TypeV::Int }));
    assert_eq!(**shape.get_child(1), Node::Null(Null { rtype: TypeV::Int }));
    let shape = UnaryOpBase::zero(UnaryOp::Not);
    assert_eq!(shape.get_arg_types(), vec![TypeV::Bool]);
    assert_eq!(**shape.get_child(0), Node::Null(Null { rtype: TypeV::Bool }));
    let shape = Cond::zero(TypeV::UInt);
    assert_eq!(shape.get_arg_types(), vec![TypeV::Bool, TypeV::UInt, TypeV::UInt]);
    assert_eq!(**shape.get_child(0), Node::Null(Null { rtype: TypeV::Bool }));
    assert_eq!(**shape.get_child(2), Node::Null(Null { rtype: TypeV::UInt }));
    assert_eq!(sample_tree().get_zero_node(), BinOpBase::zero(BinOp::Mul, TypeV::Float));
    assert_eq!(math(MathFn::Cos, x(0)).get_zero_node(), UnaryOpBase::zero(UnaryOp::Math(MathFn::Cos)));
    assert_eq!(x(4).get_zero_node(), x(0));
    assert_eq!(lit(4.0).get_zero_node(), lit(0.0));
    assert_eq!(Null::zero(TypeV::Int).get_zero_node(), Null::zero(TypeV::Int));
    assert_eq!(
        Cond::make(Val::make(Type::Bool(true)), x(0), x(1)).get_zero_node(),
        Cond::zero(TypeV::Float)
    );
}

#[test]
fn set_child_replaces_one_child() {
    let mut node = BinOpBase::zero(BinOp::Sub, TypeV::Float);
    node.set_child(0, x(0));
    node.set_child(1, lit(1.0));
    assert_eq!(node, bin(BinOp::Sub, x(0), lit(1.0)));
    assert_eq!(node.get_arity(), 2);
    let mut node = Cond::zero(TypeV::Float);
    node.set_child(2, lit(3.0));
    node.set_child(0, Val::make(Type::Bool(false)));
    node.set_child(1, lit(2.0));
    assert_eq!(node, Cond::make(Val::make(Type::Bool(false)), lit(2.0), lit(3.0)));
    assert_eq!(node.get_arity(), 3);
    let mut node = UnaryOpBase::zero(UnaryOp::Abs);
    node.set_child(0, x(1));
    assert_eq!(node, abs(x(1)));
    assert_eq!(node.get_arity(), 1);
    assert_eq!(x(0).get_arity(), 0);
}

#[test]
fn declared_types_follow_the_variant() {
    assert_eq!(lit(1.0).get_rtype(), TypeV::Float);
    assert_eq!(Val::make(Type::Bool(true)).get_rtype(), TypeV::Bool);
    assert_eq!(Var::make(0, TypeV::UInt).get_rtype(), TypeV::UInt);
    assert_eq!(Null::zero(TypeV::Int).get_rtype(), TypeV::Int);
    assert_eq!(sample_tree().get_rtype(), TypeV::Float);
    assert_eq!(bin(BinOp::Gte, x(0), x(1)).get_rtype(), TypeV::Bool);
    assert_eq!(bin(BinOp::Gte, x(0), x(1)).get_arg_types(), vec![TypeV::Float, TypeV::Float]);
    assert_eq!(abs(x(0)).get_rtype(), TypeV::Float);
    assert_eq!(
        UnaryOpBase::make(UnaryOp::Not, Val::make(Type::Bool(true))).get_rtype(),
        TypeV::Bool
    );
    assert_eq!(x(0).get_arg_types(), Vec::<TypeV>::new());
}

#[test]
fn max_depth_counts_levels() {
    assert_eq!(Null::zero(TypeV::Float).get_max_depth(), 0);
    assert_eq!(lit(1.0).get_max_depth(), 1);
    assert_eq!(x(0).get_max_depth(), 1);
    assert_eq!(abs(x(0)).get_max_depth(), 2);
    assert_eq!(sample_tree().get_max_depth(), 3);
    assert_eq!(
        Cond::make(bin(BinOp::Lt, abs(x(0)), x(1)), x(0), x(1)).get_max_depth(),
        4
    );
    assert_eq!(BinOpBase::zero(BinOp::Add, TypeV::Float).get_max_depth(), 1);
}

#[test]
fn deep_copy_is_equal_and_independent() {
    let fl = Ieee;
    let source = sample_tree();
    let mut copy = source.deep_copy();
    assert_eq!(copy, source);
    assert_eq!(copy.get_tree_str(0, &fl), source.get_tree_str(0, &fl));
    assert_eq!(copy.get_equation_str(&fl), source.get_equation_str(&fl));
    assert_eq!(copy.get_max_depth(), source.get_max_depth());
    for values in [[0.0f32, 0.0], [1.0, 2.0], [-3.5, 0.25], [f32::INFINITY, 1.0]] {
        let args = row(&values);
        assert_eq!(copy.try_eval(&args, &fl), source.try_eval(&args, &fl));
    }
    copy.set_child(0, lit(9.0));
    assert_eq!(source, sample_tree());
    assert!(!copy.same_as(&source));
    assert!(source.same_as(&sample_tree()));
}

#[test]
fn same_as_tells_trees_apart() {
    assert!(x(0).same_as(&x(0)));
    assert!(!x(0).same_as(&x(1)));
    assert!(!x(0).same_as(&Var::make(0, TypeV::Int)));
    assert!(!lit(1.0).same_as(&lit(-1.0)));
    assert!(!abs(x(0)).same_as(&math(MathFn::Sin, x(0))));
    assert!(!bin(BinOp::Add, x(0), x(1)).same_as(&bin(BinOp::Add, x(1), x(0))));
    assert!(!bin(BinOp::Add, x(0), x(1)).same_as(&bin(BinOp::Sub, x(0), x(1))));
    assert!(Null::zero(TypeV::Int).same_as(&Null::zero(TypeV::Int)));
    assert!(!Null::zero(TypeV::Int).same_as(&Null::zero(TypeV::UInt)));
    let c = Cond::make(Val::make(Type::Bool(true)), x(0), x(1));
    assert!(c.same_as(&c.deep_copy()));
    assert!(!c.same_as(&Cond::make(Val::make(Type::Bool(true)), x(1), x(0))));
}

#[test]
fn evaluation_applies_the_left_operand_first() {
    let fl = Ieee;
    let args = row(&[7.0, 2.0]);
    assert_eq!(bin(BinOp::Sub, x(0), x(1)).eval(&args, &fl), Type::Float(pat(5.0)));
    assert_eq!(bin(BinOp::Div, x(0), x(1)).eval(&args, &fl), Type::Float(pat(3.5)));
    assert_eq!(bin(BinOp::Pow, x(0), x(1)).eval(&args, &fl), Type::Float(pat(49.0)));
    assert_eq!(bin(BinOp::Gt, x(0), x(1)).eval(&args, &fl), Type::Bool(true));
    assert_eq!(bin(BinOp::Lt, x(0), x(1)).eval(&args, &fl), Type::Bool(false));
}

#[test]
fn evaluation_of_a_tree_matches_the_expression() {
    let fl = Ieee;
    for values in [[0.0f32, 0.0], [1.0, 2.0], [-3.5, 0.25], [100.0, -7.0]] {
        let args = row(&values);
        let expected = (values[0] + 2.5) * values[1].sin();
        assert_eq!(sample_tree().eval(&args, &fl), Type::Float(pat(expected)));
        assert_eq!(sample_tree().try_eval(&args, &fl), Some(Type::Float(pat(expected))));
    }
}

#[test]
fn evaluation_returns_the_declared_type() {
    let fl = Ieee;
    let args = vec![
        Type::Float(pat(1.5)),
        Type::Int(-4),
        Type::UInt(9),
        Type::Bool(true),
    ];
    let trees = vec![
        sample_tree_over(0),
        bin(BinOp::Add, Var::make(1, TypeV::Int), Val::make(Type::Int(3))),
        bin(BinOp::Pow, Var::make(2, TypeV::UInt), Val::make(Type::UInt(2))),
        bin(BinOp::Lte, Var::make(1, TypeV::Int), Val::make(Type::Int(3))),
        bin(BinOp::And, Var::make(3, TypeV::Bool), Val::make(Type::Bool(false))),
        UnaryOpBase::make(UnaryOp::Not, Var::make(3, TypeV::Bool)),
        Cond::make(
            bin(BinOp::Lt, Var::make(0, TypeV::Float), lit(2.0)),
            Var::make(2, TypeV::UInt),
            Val::make(Type::UInt(0)),
        ),
        Cond::make(
            Var::make(3, TypeV::Bool),
            Val::make(Type::Bool(false)),
            Var::make(3, TypeV::Bool),
        ),
    ];
    for tree in trees {
        assert!(tree.type_check().is_ok());
        assert!(tree.check_args(&[TypeV::Float, TypeV::Int, TypeV::UInt, TypeV::Bool]));
        let value = tree.try_eval(&args, &fl).expect("a value");
        assert_eq!(value.get_tag(), tree.get_rtype());
    }
}

fn sample_tree_over(i: usize) -> NodeRef {
    bin(BinOp::Mul, bin(BinOp::Add, x(i), lit(2.5)), math(MathFn::Sin, x(i)))
}

#[test]
fn conditional_yields_the_branch_that_the_condition_picks() {
    let fl = Ieee;
    let tree = Cond::make(bin(BinOp::Lt, x(0), x(1)), lit(10.0), lit(20.0));
    assert_eq!(tree.eval(&row(&[1.0, 2.0]), &fl), Type::Float(pat(10.0)));
    assert_eq!(tree.eval(&row(&[2.0, 1.0]), &fl), Type::Float(pat(20.0)));
    assert_eq!(tree.eval(&row(&[f32::NAN, 1.0]), &fl), Type::Float(pat(20.0)));
}

#[test]
fn evaluation_has_no_value_on_misuse() {
    let fl = Ieee;
    let args = row(&[1.0]);
    assert_eq!(Null::zero(TypeV::Float).try_eval(&args, &fl), None);
    assert_eq!(abs(Null::zero(TypeV::Float)).try_eval(&args, &fl), None);
    assert_eq!(x(1).try_eval(&args, &fl), None);
    assert_eq!(bin(BinOp::Add, x(0), x(5)).try_eval(&args, &fl), None);
    assert_eq!(
        bin(BinOp::Add, x(0), Val::make(Type::Int(1))).try_eval(&args, &fl),
        None
    );
    assert_eq!(
        bin(BinOp::Div, Val::make(Type::Int(1)), Val::make(Type::Int(0))).try_eval(&args, &fl),
        None
    );
    let mut cond = Cond::zero(TypeV::Float);
    cond.set_child(0, lit(1.0));
    cond.set_child(1, lit(1.0));
    cond.set_child(2, lit(2.0));
    assert_eq!(cond.try_eval(&args, &fl), None);
    let mut cond = Cond::zero(TypeV::Float);
    cond.set_child(0, Val::make(Type::Bool(true)));
    cond.set_child(1, lit(1.0));
    cond.set_child(2, Val::make(Type::Int(2)));
    assert_eq!(cond.try_eval(&args, &fl), None);
}

#[test]
fn variables_read_what_the_row_holds() {
    let fl = Ieee;
    let args = vec![Type::Int(4), Type::Bool(true)];
    assert_eq!(Var::make(0, TypeV::Int).eval(&args, &fl), Type::Int(4));
    assert_eq!(Var::make(1, TypeV::Bool).eval(&args, &fl), Type::Bool(true));
    assert_eq!(Val::make(Type::UInt(7)).eval(&args, &fl), Type::UInt(7));
}

#[test]
fn type_check_accepts_well_typed_trees() {
    assert!(sample_tree().type_check().is_ok());
    assert!(lit(1.0).type_check().is_ok());
    assert!(x(0).type_check().is_ok());
    assert!(Cond::make(bin(BinOp::Eq, x(0), x(1)), x(0), lit(1.0)).type_check().is_ok());
}

#[test]
fn type_check_rejects_a_placeholder() {
    let err = Null::zero(TypeV::Float).type_check().unwrap_err();
    assert_eq!(err.msg, "Null node is invalid!!");
    let mut tree = sample_tree();
    tree.set_child(1, Null::zero(TypeV::Float));
    let err = tree.type_check().unwrap_err();
    assert_eq!(err.msg, "Null node is invalid!!");
    let err = BinOpBase::zero(BinOp::Add, TypeV::Float).type_check().unwrap_err();
    assert_eq!(err.msg, "Null node is invalid!!");
}

#[test]
fn type_check_names_the_unary_node_at_fault() {
    let tree = math(MathFn::Sin, Val::make(Type::Int(1)));
    let err = tree.type_check().unwrap_err();
    assert_eq!(err.msg, "Sin required argument of type Float; Got Int!!");
    let tree = UnaryOpBase::make(UnaryOp::Not, lit(1.0));
    let err = tree.type_check().unwrap_err();
    assert_eq!(err.msg, "~ required argument of type Bool; Got Float!!");
}

#[test]
fn type_check_names_the_binary_node_at_fault() {
    let mut tree = BinOpBase::zero(BinOp::Add, TypeV::Float);
    tree.set_child(0, x(0));
    tree.set_child(1, Val::make(Type::UInt(1)));
    let err = tree.type_check().unwrap_err();
    assert_eq!(err.msg, "+ required argument of type (Float, Float); Got (Float, UInt)!!");
    let tree = bin(BinOp::Add, Val::make(Type::Bool(true)), Val::make(Type::Bool(false)));
    let err = tree.type_check().unwrap_err();
    assert_eq!(err.msg, "+ takes no argument of type Bool!!");
    let tree = bin(BinOp::Pow, Val::make(Type::Int(1)), Val::make(Type::Int(2)));
    let err = tree.type_check().unwrap_err();
    assert_eq!(err.msg, "** takes no argument of type Int!!");
}

#[test]
fn type_check_names_the_conditional_at_fault() {
    let mut tree = Cond::zero(TypeV::Float);
    tree.set_child(0, lit(1.0));
    tree.set_child(1, lit(1.0));
    tree.set_child(2, Val::make(Type::Int(1)));
    let err = tree.type_check().unwrap_err();
    assert_eq!(
        err.msg,
        "Cond required argument of type (Bool, Float, Float); Got (Float, Float, Int)!!"
    );
}

#[test]
fn type_check_reports_the_first_fault_in_order() {
    // The root agrees with its children; the left child is at fault before
    // the right one.
    let left = math(MathFn::Cos, Val::make(Type::Bool(true)));
    let right = math(MathFn::Tan, Val::make(Type::Int(0)));
    let tree = bin(BinOp::Add, left, right);
    let err = tree.type_check().unwrap_err();
    assert_eq!(err.msg, "Cos required argument of type Float; Got Bool!!");
    // A node at fault is reported before anything below it.
    let mut root = BinOpBase::zero(BinOp::Mul, TypeV::Float);
    root.set_child(0, math(MathFn::Cos, Val::make(Type::Bool(true))));
    root.set_child(1, Val::make(Type::Int(0)));
    let err = root.type_check().unwrap_err();
    assert_eq!(err.msg, "* required argument of type (Float, Float); Got (Float, Int)!!");
}

#[test]
fn check_args_holds_variables_against_the_argument_types() {
    assert!(sample_tree().check_args(&[TypeV::Float, TypeV::Float]));
    assert!(!sample_tree().check_args(&[TypeV::Float]));
    assert!(!sample_tree().check_args(&[TypeV::Float, TypeV::Int]));
    assert!(lit(1.0).check_args(&[]));
    assert!(Cond::make(Var::make(1, TypeV::Bool), x(0), x(0))
        .check_args(&[TypeV::Float, TypeV::Bool]));
    assert!(!Cond::make(Var::make(1, TypeV::Bool), x(0), x(0))
        .check_args(&[TypeV::Bool, TypeV::Float]));
}

#[test]
fn prune_cancels_a_function_against_its_inverse() {
    let fl = Ieee;
    let pairs = [
        (MathFn::Sin, MathFn::ASin),
        (MathFn::Cos, MathFn::ACos),
        (MathFn::Tan, MathFn::ATan),
        (MathFn::Sinh, MathFn::ASinh),
        (MathFn::Cosh, MathFn::ACosh),
        (MathFn::Tanh, MathFn::ATanh),
        (MathFn::Exp, MathFn::Log),
    ];
    for (f, g) in pairs {
        for inner in [sample_tree(), x(0), abs(abs(x(1)))] {
            let expected = inner.prune();
            let one_way = math(f, math(g, inner.deep_copy())).prune();
            let other_way = math(g, math(f, inner.deep_copy())).prune();
            assert_eq!(one_way, expected);
            assert_eq!(other_way, expected);
            assert_eq!(one_way.get_tree_str(0, &fl), expected.get_tree_str(0, &fl));
            assert_eq!(one_way.get_equation_str(&fl), expected.get_equation_str(&fl));
        }
    }
}

#[test]
fn prune_collapses_a_repeated_absolute_value() {
    let fl = Ieee;
    for inner in [sample_tree(), x(0), math(MathFn::Sin, math(MathFn::ASin, x(1)))] {
        let once = abs(inner.deep_copy()).prune();
        let twice = abs(abs(inner.deep_copy())).prune();
        let thrice = abs(abs(abs(inner.deep_copy()))).prune();
        assert_eq!(twice, once);
        assert_eq!(thrice, once);
        assert_eq!(twice.get_tree_str(0, &fl), once.get_tree_str(0, &fl));
    }
    assert_eq!(abs(abs(x(0))).prune(), abs(x(0)));
}

#[test]
fn prune_works_from_the_leaves_upwards() {
    // Exp(Log(..)) gives way first, which brings Sin directly over ASin.
    let tree = math(MathFn::Sin, math(MathFn::Exp, math(MathFn::Log, math(MathFn::ASin, x(0)))));
    assert_eq!(tree.prune(), x(0));
    // Sin(ASin(Sin(x))) keeps one Sin.
    let tree = math(MathFn::Sin, math(MathFn::ASin, math(MathFn::Sin, x(0))));
    assert_eq!(tree.prune(), math(MathFn::Sin, x(0)));
    // Cancelling inside the operands of other nodes.
    let tree = bin(
        BinOp::Add,
        math(MathFn::Tan, math(MathFn::ATan, x(0))),
        Cond::make(
            bin(BinOp::Lt, abs(abs(x(0))), lit(1.0)),
            math(MathFn::Cosh, math(MathFn::ACosh, x(1))),
            lit(0.0),
        ),
    );
    let expected = bin(
        BinOp::Add,
        x(0),
        Cond::make(bin(BinOp::Lt, abs(x(0)), lit(1.0)), x(1), lit(0.0)),
    );
    assert_eq!(tree.prune(), expected);
}

#[test]
fn prune_leaves_other_trees_as_they_are() {
    assert_eq!(sample_tree().prune(), sample_tree());
    assert_eq!(x(0).prune(), x(0));
    assert_eq!(lit(2.0).prune(), lit(2.0));
    assert_eq!(Null::zero(TypeV::Float).prune(), Null::zero(TypeV::Float));
    assert_eq!(
        math(MathFn::Sin, math(MathFn::ACos, x(0))).prune(),
        math(MathFn::Sin, math(MathFn::ACos, x(0)))
    );
    let relu = UnaryOpBase::make(UnaryOp::ReLu, UnaryOpBase::make(UnaryOp::ReLu, x(0)));
    assert_eq!(relu.prune(), relu);
    let not = UnaryOpBase::make(
        UnaryOp::Not,
        UnaryOpBase::make(UnaryOp::Not, Val::make(Type::Bool(true))),
    );
    assert_eq!(not.prune(), not);
}

#[test]
fn prune_never_deepens_and_is_stable() {
    let trees = vec![
        sample_tree(),
        math(MathFn::Sin, math(MathFn::ASin, sample_tree())),
        abs(abs(abs(x(0)))),
        bin(BinOp::Mul, math(MathFn::Exp, math(MathFn::Log, x(0))), abs(abs(x(1)))),
    ];
    for tree in trees {
        let pruned = tree.prune();
        assert!(pruned.get_max_depth() <= tree.get_max_depth());
        assert_eq!(pruned.prune(), pruned);
        assert_eq!(pruned.get_rtype(), tree.get_rtype());
        assert!(pruned.type_check().is_ok());
    }
}

#[test]
fn decimal_text_of_whole_numbers() {
    let cases: Vec<(u64, &str)> = vec![
        (0, "0"),
        (7, "7"),
        (10, "10"),
        (909, "909"),
        (4294967295, "4294967295"),
        (u64::MAX, "18446744073709551615"),
    ];
    for (n, text) in cases {
        let mut s = String::from("n=");
        append_nat(&mut s, n);
        assert_eq!(s, format!("n={text}"));
    }
    let cases: Vec<(i64, &str)> = vec![
        (0, "0"),
        (-1, "-1"),
        (42, "42"),
        (-2147483648, "-2147483648"),
        (i64::MAX, "9223372036854775807"),
        (i64::MIN + 1, "-9223372036854775807"),
    ];
    for (n, text) in cases {
        let mut s = String::new();
        append_int(&mut s, n);
        assert_eq!(s, text);
    }
    let mut s = String::from("a");
    append_repeated(&mut s, "xy", 3);
    assert_eq!(s, "axyxyxy");
    append_repeated(&mut s, ".", 0);
    assert_eq!(s, "axyxyxy");
}

#[test]
fn values_render_with_their_suffix() {
    let fl = Ieee;
    assert_eq!(Type::Int(-12).to_text(&fl), "-12I");
    assert_eq!(Type::Int(i32::MIN).to_text(&fl), "-2147483648I");
    assert_eq!(Type::UInt(12).to_text(&fl), "12U");
    assert_eq!(Type::UInt(u32::MAX).to_text(&fl), "4294967295U");
    assert_eq!(Type::Float(pat(1.5)).to_text(&fl), "1.5F");
    assert_eq!(Type::Float(pat(-0.25)).to_text(&fl), "-0.25F");
    assert_eq!(Type::Float(pat(f32::INFINITY)).to_text(&fl), "infF");
    assert_eq!(Type::Float(pat(f32::NAN)).to_text(&fl), "NaNF");
    assert_eq!(Type::Bool(true).to_text(&fl), "true");
    assert_eq!(Type::Bool(false).to_text(&fl), "false");
}

#[test]
fn tree_dump_indents_children_below_their_parent() {
    let fl = Ieee;
    assert_eq!(
        sample_tree().get_tree_str(0, &fl),
        "*\n.+\n  x[0]\n  2.5F\n.Sin\n  x[1]"
    );
    assert_eq!(x(12).get_tree_str(3, &fl), "   x[12]");
    assert_eq!(lit(1.0).get_tree_str(1, &fl), " 1F");
    assert_eq!(Null::zero(TypeV::UInt).get_tree_str(2, &fl), "  UInt");
    assert_eq!(
        Cond::make(bin(BinOp::Lt, x(0), x(1)), lit(1.0), Null::zero(TypeV::Float))
            .get_tree_str(1, &fl),
        ".?\n..<\n   x[0]\n   x[1]\n  1F\n  Float"
    );
}

#[test]
fn equation_puts_operands_around_their_operator() {
    let fl = Ieee;
    assert_eq!(
        sample_tree().get_equation_str(&fl),
        "((x[0] + 2.5F ) * Sin(x[1]) )"
    );
    assert_eq!(abs(x(3)).get_equation_str(&fl), "Abs(x[3])");
    assert_eq!(
        Cond::make(bin(BinOp::Gte, x(0), lit(0.0)), x(0), lit(-1.0)).get_equation_str(&fl),
        "((x[0] >= 0F ) ? x[0] : -1F )"
    );
    assert_eq!(Null::zero(TypeV::Bool).get_equation_str(&fl), "Bool");
    assert_eq!(
        UnaryOpBase::make(UnaryOp::Not, Val::make(Type::Bool(true))).get_equation_str(&fl),
        "~(true)"
    );
}

#[test]
fn nodes_name_their_variant() {
    assert_eq!(Null::zero(TypeV::Bool).get_name(), "NULL");
    assert_eq!(lit(1.0).get_name(), "Val");
    assert_eq!(x(0).get_name(), "Var");
    assert_eq!(abs(x(0)).get_name(), "Abs");
    assert_eq!(math(MathFn::ATanh, x(0)).get_name(), "ATanh");
    assert_eq!(sample_tree().get_name(), "*");
    assert_eq!(Cond::zero(TypeV::Float).get_name(), "Cond");
    assert_eq!(UnaryOpBase::make(UnaryOp::Heaviside, x(0)).get_name(), "Heaviside");
    assert_eq!(UnaryOpBase::make(UnaryOp::ReLu, x(0)).get_name(), "ReLu");
}

#[test]
fn shapes_that_can_serve_in_a_catalog() {
    assert!(sample_tree().get_shape_ok());
    assert!(x(0).get_shape_ok());
    assert!(!Null::zero(TypeV::Float).get_shape_ok());
    assert!(BinOpBase::zero(BinOp::Add, TypeV::Int).get_shape_ok());
    assert!(!BinOpBase::zero(BinOp::Add, TypeV::Bool).get_shape_ok());
    assert!(!BinOpBase::zero(BinOp::Pow, TypeV::Int).get_shape_ok());
    assert!(Cond::zero(TypeV::Bool).get_shape_ok());
}
