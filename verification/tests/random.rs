use expr_evolution::node::base::{Node, NodeRef, Null, Type, TypeV, Val, Var};
use expr_evolution::node::binary_node_base::{BinOp, BinOpBase};
use expr_evolution::node::btables::FloatFnTable;
use expr_evolution::node::catalog::BuilderTable;
use expr_evolution::node::crossover::nth_present;
use expr_evolution::node::catalog::has_matching_arg;
use expr_evolution::node::matching::matching_args;
use expr_evolution::node::ieee::{ArithFn, Float32, FloatOps, MathFn};
use expr_evolution::node::literals::Randomize;
use expr_evolution::node::misc_nodes::Cond;
use expr_evolution::node::params::BuilderParams;
use expr_evolution::node::unary_node_base::{UnaryOp, UnaryOpBase};

struct Ieee;

fn num(x: Float32) -> f32 {
    f32::from_bits(x.bits)
}

fn pat(x: f32) -> Float32 {
    Float32 { bits: x.to_bits() }
}

impl FloatOps for Ieee {
    fn unary_of(&self, f: MathFn, x: Float32) -> Float32 {
        self.unary(f, x)
    }

    fn binary_of(&self, f: ArithFn, l: Float32, r: Float32) -> Float32 {
        self.binary(f, l, r)
    }

    fn count_of(&self, n: u64) -> Float32 {
        self.from_count(n)
    }

    fn text_of(&self, x: Float32) -> String {
        self.text(x)
    }

    fn unary(&self, f: MathFn, x: Float32) -> Float32 {
        let v = num(x);
        pat(match f {
            MathFn::Sin => v.sin(),
            MathFn::Cos => v.cos(),
            MathFn::Tan => v.tan(),
            MathFn::ASin => v.asin(),
            MathFn::ACos => v.acos(),
            MathFn::ATan => v.atan(),
            MathFn::Sinh => v.sinh(),
            MathFn::Cosh => v.cosh(),
            MathFn::Tanh => v.tanh(),
            MathFn::ASinh => v.asinh(),
            MathFn::ACosh => v.acosh(),
            MathFn::ATanh => v.atanh(),
            MathFn::Exp => v.exp(),
            MathFn::Log => v.ln(),
        })
    }

    fn binary(&self, f: ArithFn, l: Float32, r: Float32) -> Float32 {
        let (a, b) = (num(l), num(r));
        pat(match f {
            ArithFn::Add => a + b,
            ArithFn::Sub => a - b,
            ArithFn::Mul => a * b,
            ArithFn::Div => a / b,
            ArithFn::Pow => a.powf(b),
        })
    }

    fn from_count(&self, n: u64) -> Float32 {
        pat(n as f32)
    }

    fn text(&self, x: Float32) -> String {
        format!("{}", num(x))
    }
}

fn lit(x: f32) -> NodeRef {
    Val::make(Type::Float(pat(x)))
}

fn x(i: usize) -> NodeRef {
    Var::make(i, TypeV::Float)
}

fn math(f: MathFn, arg: NodeRef) -> NodeRef {
    UnaryOpBase::make(UnaryOp::Math(f), arg)
}

/// `lhs op rhs`
fn bin(op: BinOp, lhs: NodeRef, rhs: NodeRef) -> NodeRef {
    BinOpBase::make(op, rhs, lhs)
}

fn seeded(seed: u64) -> BuilderParams {
    let mut params = BuilderParams::new();
    params.set_seed(seed);
    params
}

/// Add, Sub, Mul and Div over real numbers.
fn arithmetic_table() -> BuilderTable {
    let mut table = BuilderTable::new();
    table.push(TypeV::Float, BinOpBase::zero(BinOp::Add, TypeV::Float));
    table.push(TypeV::Float, BinOpBase::zero(BinOp::Sub, TypeV::Float));
    table.push(TypeV::Float, BinOpBase::zero(BinOp::Mul, TypeV::Float));
    table.push(TypeV::Float, BinOpBase::zero(BinOp::Div, TypeV::Float));
    table
}

/// Shapes of every type, conditionals and comparisons among them.
fn mixed_table() -> BuilderTable {
    let mut table = arithmetic_table();
    table.push(TypeV::Float, Cond::zero(TypeV::Float));
    table.push(TypeV::Float, UnaryOpBase::zero(UnaryOp::Math(MathFn::Sin)));
    table.push(TypeV::Bool, BinOpBase::zero(BinOp::Lt, TypeV::Float));
    table.push(TypeV::Bool, BinOpBase::zero(BinOp::Eq, TypeV::Int));
    table.push(TypeV::Bool, BinOpBase::zero(BinOp::And, TypeV::Bool));
    table.push(TypeV::Bool, UnaryOpBase::zero(UnaryOp::Not));
    table.push(TypeV::Int, BinOpBase::zero(BinOp::Add, TypeV::Int));
    table.push(TypeV::Int, Cond::zero(TypeV::Int));
    table.push(TypeV::UInt, BinOpBase::zero(BinOp::Pow, TypeV::UInt));
    table
}

fn is_leaf(node: &Node) -> bool {
    matches!(node, Node::Val(_) | Node::Var(_))
}

fn children(node: &Node) -> Vec<&Node> {
    match node {
        Node::Unary(n) => vec![&*n.arg],
        Node::Binary(n) => vec![&*n.lhs, &*n.rhs],
        Node::Cond(n) => vec![&*n.cond, &*n.iftrue, &*n.iffalse],
        _ => vec![],
    }
}

fn collect<'a>(node: &'a Node, out: &mut Vec<&'a Node>) {
    out.push(node);
    for c in children(node) {
        collect(c, out);
    }
}

fn nodes(node: &Node) -> Vec<&Node> {
    let mut out = Vec::new();
    collect(node, &mut out);
    out
}

/// The number of positions at which two trees of the same shape differ in
/// exactly one subtree, or `None` when they differ elsewhere too.
fn differs_in_one_subtree(a: &Node, b: &Node, fragment: &Node) -> bool {
    if b == fragment && a.get_rtype() == b.get_rtype() {
        return true;
    }
    let (ca, cb) = (children(a), children(b));
    if ca.len() != cb.len() || ca.is_empty() || a.get_zero_node() != b.get_zero_node() {
        return false;
    }
    let changed: Vec<usize> = (0..ca.len()).filter(|i| ca[*i] != cb[*i]).collect();
    match changed.len() {
        0 => (0..ca.len()).any(|i| differs_in_one_subtree(ca[i], cb[i], fragment)),
        1 => differs_in_one_subtree(ca[changed[0]], cb[changed[0]], fragment),
        _ => false,
    }
}

#[test]
fn the_same_seed_gives_the_same_tree() {
    let fl = Ieee;
    let table = FloatFnTable::new().table;
    for seed in 0..20u64 {
        let mut first = seeded(seed).max_depth(5);
        let mut second = seeded(seed).max_depth(5);
        let a = table.build_random(&[TypeV::Float], TypeV::Float, 0, &mut first, &fl);
        let b = table.build_random(&[TypeV::Float], TypeV::Float, 0, &mut second, &fl);
        assert_eq!(a, b);
    }
    let mut first = seeded(1).max_depth(6);
    let mut second = seeded(2).max_depth(6);
    let differ = (0..20).any(|_| {
        table.build_random(&[TypeV::Float], TypeV::Float, 0, &mut first, &fl)
            != table.build_random(&[TypeV::Float], TypeV::Float, 0, &mut second, &fl)
    });
    assert!(differ);
}

#[test]
fn default_settings() {
    let params = BuilderParams::new();
    assert_eq!(params.max_depth, 10);
    assert_eq!(num(params.termination_probability), 0.05);
    assert_eq!((num(params.float_range.0), num(params.float_range.1)), (0.0, 1.0));
    assert_eq!(params.int_range, (-100, 100));
    assert_eq!(params.uint_range, (0, 100));
    assert_eq!(num(params.steepness), 5.5);
    assert_eq!(num(params.midpoint), 0.7);
    assert!(params.is_wf());
}

#[test]
fn settings_can_be_chained_and_set() {
    let params = BuilderParams::new()
        .max_depth(6)
        .termination_probability(pat(0.25))
        .float_range(pat(-1.0), pat(1.0))
        .int_range(-5, 5)
        .uint_range(2, 9)
        .growth_curve(pat(3.0), pat(0.5));
    assert_eq!(params.max_depth, 6);
    assert_eq!(num(params.termination_probability), 0.25);
    assert_eq!((num(params.float_range.0), num(params.float_range.1)), (-1.0, 1.0));
    assert_eq!(params.int_range, (-5, 5));
    assert_eq!(params.uint_range, (2, 9));
    assert_eq!((num(params.steepness), num(params.midpoint)), (3.0, 0.5));
    let mut params = params;
    params.set_max_depth(3);
    params.set_float_range(pat(0.0), pat(2.0));
    params.set_int_range(1, 2);
    params.set_uint_range(3, 4);
    params.set_termination_probability(pat(0.5));
    assert_eq!(params.max_depth, 3);
    assert_eq!((num(params.float_range.0), num(params.float_range.1)), (0.0, 2.0));
    assert_eq!(params.int_range, (1, 2));
    assert_eq!(params.uint_range, (3, 4));
    assert_eq!(num(params.termination_probability), 0.5);
    assert!(params.is_wf());
    params.int_range = (3, 1);
    assert!(!params.is_wf());
    params.int_range = (1, 3);
    params.uint_range = (9, 1);
    assert!(!params.is_wf());
    params.uint_range = (1, 9);
    params.max_depth = usize::MAX;
    assert!(!params.is_wf());
}

#[test]
fn whole_numbers_are_drawn_within_their_range() {
    let mut params = seeded(7);
    let mut seen_int = std::collections::BTreeSet::new();
    let mut seen_uint = std::collections::BTreeSet::new();
    for _ in 0..400 {
        match Type::int_range(-3, 2, &mut params.randomizer) {
            Type::Int(v) => {
                assert!((-3..=2).contains(&v));
                seen_int.insert(v);
            }
            other => panic!("not a signed number: {other:?}"),
        }
        match Type::uint_range(10, 12, &mut params.randomizer) {
            Type::UInt(v) => {
                assert!((10..=12).contains(&v));
                seen_uint.insert(v);
            }
            other => panic!("not an unsigned number: {other:?}"),
        }
    }
    assert_eq!(seen_int.len(), 6);
    assert_eq!(seen_uint.len(), 3);
    assert_eq!(Type::int_range(5, 5, &mut params.randomizer), Type::Int(5));
    assert_eq!(Type::uint_range(0, 0, &mut params.randomizer), Type::UInt(0));
    assert_eq!(
        Type::int_range(i32::MIN, i32::MIN, &mut params.randomizer),
        Type::Int(i32::MIN)
    );
}

#[test]
fn real_numbers_are_drawn_within_their_range() {
    let fl = Ieee;
    let mut params = seeded(8);
    let mut distinct = std::collections::BTreeSet::new();
    for _ in 0..400 {
        match Type::float_range(pat(-2.0), pat(3.0), &mut params.randomizer, &fl) {
            Type::Float(v) => {
                assert!(num(v) >= -2.0 && num(v) < 3.0);
                distinct.insert(v.bits);
            }
            other => panic!("not a real number: {other:?}"),
        }
    }
    assert!(distinct.len() > 100);
}

#[test]
fn truth_values_are_drawn_both_ways() {
    let mut params = seeded(9);
    let mut seen = [false, false];
    for _ in 0..200 {
        match Type::bool_rand(&mut params.randomizer) {
            Type::Bool(b) => seen[b as usize] = true,
            other => panic!("not a truth value: {other:?}"),
        }
    }
    assert_eq!(seen, [true, true]);
}

#[test]
fn random_values_have_the_requested_type() {
    let fl = Ieee;
    let mut params = seeded(10);
    for tag in [TypeV::Int, TypeV::Float, TypeV::UInt, TypeV::Bool] {
        let mut distinct = std::collections::BTreeSet::new();
        for _ in 0..50 {
            let v = Type::random(tag, &mut params.randomizer, &fl);
            assert_eq!(v.get_tag(), tag);
            if let Type::Float(f) = v {
                assert!(num(f) >= 0.0 && num(f) < 1.0);
            }
            distinct.insert(format!("{v:?}"));
            let w = Type::zero(tag).rand(&mut params.randomizer, &fl);
            assert_eq!(w.get_tag(), tag);
        }
        assert!(distinct.len() >= 2);
    }
}

#[test]
fn values_can_be_drawn_through_the_trait() {
    let fl = Ieee;
    let mut params = seeded(16);
    for tag in [TypeV::Int, TypeV::Float, TypeV::UInt, TypeV::Bool] {
        let v = <Type as Randomize>::random(tag, &mut params.randomizer, &fl);
        assert_eq!(v.get_tag(), tag);
    }
}

#[test]
fn literals_come_from_the_range_that_was_set() {
    let fl = Ieee;
    let mut params = seeded(11)
        .int_range(-2, 2)
        .uint_range(5, 6)
        .float_range(pat(10.0), pat(11.0));
    for _ in 0..200 {
        match params.literal(TypeV::Int, &fl) {
            Type::Int(v) => assert!((-2..=2).contains(&v)),
            other => panic!("{other:?}"),
        }
        match params.literal(TypeV::UInt, &fl) {
            Type::UInt(v) => assert!((5..=6).contains(&v)),
            other => panic!("{other:?}"),
        }
        match params.literal(TypeV::Float, &fl) {
            Type::Float(v) => assert!(num(v) >= 10.0 && num(v) <= 11.0),
            other => panic!("{other:?}"),
        }
        assert_eq!(params.literal(TypeV::Bool, &fl).get_tag(), TypeV::Bool);
    }
}

#[test]
fn happens_follows_the_chance() {
    let fl = Ieee;
    let mut params = seeded(12);
    for _ in 0..200 {
        assert!(!params.happens(pat(0.0), &fl));
        assert!(!params.happens(pat(-1.0), &fl));
        assert!(!params.happens(pat(f32::NAN), &fl));
        assert!(params.happens(pat(1.0), &fl));
        assert!(params.happens(pat(f32::INFINITY), &fl));
    }
    let hits = (0..2000).filter(|_| params.happens(pat(0.25), &fl)).count();
    assert!(hits > 350 && hits < 650, "{hits} of 2000 at chance 0.25");
}

#[test]
fn draws_are_held_against_a_bound() {
    let fl = Ieee;
    let mut params = seeded(15);
    for _ in 0..200 {
        assert!(params.draws_at_most(pat(1.0), &fl));
        assert!(!params.draws_at_most(pat(-0.5), &fl));
        assert!(!params.draws_at_most(pat(f32::NAN), &fl));
        assert!(params.draws_at_least(pat(0.0), &fl));
        assert!(!params.draws_at_least(pat(1.0), &fl));
        assert!(!params.draws_at_least(pat(f32::NAN), &fl));
    }
    let low = (0..2000).filter(|_| params.draws_at_most(pat(0.25), &fl)).count();
    let high = (0..2000).filter(|_| params.draws_at_least(pat(0.25), &fl)).count();
    assert!(low > 350 && low < 650, "{low} of 2000 at most 0.25");
    assert!(high > 1350 && high < 1650, "{high} of 2000 at least 0.25");
}

#[test]
fn matching_args_lists_the_positions_of_a_type() {
    let types = [TypeV::Int, TypeV::Float, TypeV::Int, TypeV::Bool, TypeV::Float];
    assert_eq!(matching_args(&types, TypeV::Float), vec![1, 4]);
    assert_eq!(matching_args(&types, TypeV::Int), vec![0, 2]);
    assert_eq!(matching_args(&types, TypeV::Bool), vec![3]);
    assert_eq!(matching_args(&types, TypeV::UInt), Vec::<usize>::new());
    assert_eq!(matching_args(&[], TypeV::UInt), Vec::<usize>::new());
}

#[test]
fn catalog_keeps_what_was_pushed() {
    let table = BuilderTable::new();
    for tag in [TypeV::Int, TypeV::Float, TypeV::UInt, TypeV::Bool] {
        assert_eq!(table.count(tag), 0);
    }
    let table = mixed_table();
    assert_eq!(table.count(TypeV::Float), 6);
    assert_eq!(table.count(TypeV::Bool), 4);
    assert_eq!(table.count(TypeV::Int), 2);
    assert_eq!(table.count(TypeV::UInt), 1);
    let table = FloatFnTable::new().table;
    assert_eq!(table.count(TypeV::Float), 22);
    assert_eq!(table.count(TypeV::Bool), 0);
}

#[test]
fn at_depth_limit_zero_generation_gives_a_leaf() {
    let fl = Ieee;
    let table = arithmetic_table();
    let mut params = seeded(13).max_depth(0);
    let mut constants = 0;
    let mut variables = 0;
    for _ in 0..300 {
        let tree = table.build_random(&[TypeV::Float], TypeV::Float, 0, &mut params, &fl);
        match &*tree {
            Node::Val(n) => {
                assert_eq!(n.v.get_tag(), TypeV::Float);
                constants += 1;
            }
            Node::Var(n) => {
                assert_eq!((n.idx, n.rtype), (0, TypeV::Float));
                variables += 1;
            }
            other => panic!("an operator at depth limit 0: {other:?}"),
        }
        assert_eq!(tree.get_max_depth(), 1);
    }
    assert!(constants > 50 && variables > 50);
}

#[test]
fn generation_never_places_an_operator_at_the_depth_limit() {
    let fl = Ieee;
    let table = mixed_table();
    let types = [TypeV::Float, TypeV::Int, TypeV::Bool, TypeV::UInt];
    for limit in 0..5usize {
        let mut params = seeded(14 + limit as u64).max_depth(limit).termination_probability(pat(0.0));
        for depth in limit..limit + 3 {
            for tag in types {
                let tree = table.build_random(&types, tag, depth, &mut params, &fl);
                assert!(is_leaf(&tree));
                let template = table.get_rand_node(depth, tag, &mut params, &fl);
                assert!(is_leaf(template));
            }
        }
    }
}

#[test]
fn generated_trees_stay_within_the_depth_budget() {
    let fl = Ieee;
    let table = FloatFnTable::new().table;
    for limit in 0..6usize {
        let mut params = seeded(20 + limit as u64).max_depth(limit).termination_probability(pat(0.0));
        let mut deepest_from_zero = 0;
        for _ in 0..60 {
            let tree = table.build_random(&[TypeV::Float], TypeV::Float, 0, &mut params, &fl);
            assert!(tree.get_max_depth() <= limit + 1);
            deepest_from_zero = deepest_from_zero.max(tree.get_max_depth());
            for depth in 1..=limit {
                let tree = table.build_random(&[TypeV::Float], TypeV::Float, depth, &mut params, &fl);
                assert!(tree.get_max_depth() <= limit - depth + 1);
                assert!(tree.get_max_depth() <= limit);
            }
        }
        // Without early termination the budget is used up.
        assert_eq!(deepest_from_zero, limit + 1);
    }
}

#[test]
fn generated_trees_are_well_typed_and_read_matching_arguments() {
    let fl = Ieee;
    let table = mixed_table();
    let types = [TypeV::Int, TypeV::Float, TypeV::Bool, TypeV::Float, TypeV::UInt];
    let mut params = seeded(30).max_depth(5);
    for tag in [TypeV::Int, TypeV::Float, TypeV::UInt, TypeV::Bool] {
        for _ in 0..100 {
            let tree = table.build_random(&types, tag, 0, &mut params, &fl);
            assert_eq!(tree.get_rtype(), tag);
            assert!(tree.type_check().is_ok());
            assert!(tree.check_args(&types));
            for node in nodes(&tree) {
                assert!(!matches!(node, Node::Null(_)));
                if let Node::Var(v) = node {
                    assert_eq!(types[v.idx], v.rtype);
                }
                if let Node::Val(v) = node {
                    match v.v {
                        Type::Int(i) => assert!((-100..=100).contains(&i)),
                        Type::UInt(u) => assert!(u <= 100),
                        Type::Float(f) => assert!(num(f) >= 0.0 && num(f) <= 1.0),
                        Type::Bool(_) => {}
                    }
                }
            }
        }
    }
}

#[test]
fn variables_are_picked_among_all_matching_arguments() {
    let fl = Ieee;
    let table = BuilderTable::new();
    let types = [TypeV::Int, TypeV::Float, TypeV::Int, TypeV::Float, TypeV::Float];
    let mut params = seeded(31).max_depth(0);
    let mut seen = std::collections::BTreeSet::new();
    for _ in 0..300 {
        let tree = table.build_random(&types, TypeV::Float, 0, &mut params, &fl);
        if let Node::Var(v) = &*tree {
            assert!(v.idx == 1 || v.idx == 3 || v.idx == 4);
            seen.insert(v.idx);
        }
    }
    assert_eq!(seen.len(), 3);
}

#[test]
fn generation_can_go_on_where_every_slot_has_an_argument() {
    let reals = [TypeV::Float];
    assert!(has_matching_arg(&reals, TypeV::Float));
    assert!(!has_matching_arg(&reals, TypeV::Int));
    assert!(!has_matching_arg(&[], TypeV::Float));
    assert!(arithmetic_table().is_served_by(&reals));
    assert!(FloatFnTable::new().table.is_served_by(&reals));
    assert!(BuilderTable::new().is_served_by(&[]));
    // No argument has a type under which a shape is filed: nothing to serve.
    assert!(arithmetic_table().is_served_by(&[TypeV::Int]));
    // The conditional over real numbers asks for a truth value.
    let table = mixed_table();
    assert!(!table.is_served_by(&reals));
    // Equality over signed numbers, filed under truth values, asks for one.
    assert!(!table.is_served_by(&[TypeV::Float, TypeV::Bool]));
    assert!(table.is_served_by(&[TypeV::Float, TypeV::Bool, TypeV::Int]));
    // Powers of unsigned numbers ask for an unsigned number.
    assert!(table.is_served_by(&[TypeV::UInt]));
    assert!(table.is_served_by(&[TypeV::Float, TypeV::Bool, TypeV::Int, TypeV::UInt]));
    let cond = Cond::zero(TypeV::Float);
    assert!(!cond.get_slots_served(&reals));
    assert!(cond.get_slots_served(&[TypeV::Bool, TypeV::Float]));
    assert!(BinOpBase::zero(BinOp::Lt, TypeV::Float).get_slots_served(&reals));
    assert!(!UnaryOpBase::zero(UnaryOp::Not).get_slots_served(&reals));
    assert!(lit(1.0).get_slots_served(&[]));
}

#[test]
fn operators_give_way_where_an_argument_has_their_type() {
    let reals = [TypeV::Float];
    let sum = bin(BinOp::Add, x(0), lit(1.0));
    assert!(sum.check_regrowable(&reals));
    assert!(!sum.check_regrowable(&[TypeV::Int]));
    assert!(!sum.check_regrowable(&[]));
    // Constants and placeholders ask for no argument, variables for one.
    assert!(lit(1.0).check_regrowable(&[]));
    assert!(Null::zero(TypeV::Int).check_regrowable(&[]));
    assert!(!Var::make(3, TypeV::Bool).check_regrowable(&[]));
    assert!(Var::make(3, TypeV::Bool).check_regrowable(&[TypeV::Bool]));
    // The comparison below the root yields a truth value.
    let tree = Cond::make(BinOpBase::make(BinOp::Lt, x(0), lit(1.0)), x(0), lit(2.0));
    assert!(!tree.check_regrowable(&reals));
    assert!(tree.check_regrowable(&[TypeV::Bool, TypeV::Float]));
    let tree = Cond::make(Val::make(Type::Bool(true)), x(0), lit(2.0));
    assert!(tree.check_regrowable(&reals));
    let tree = Cond::make(Var::make(1, TypeV::Bool), x(0), lit(2.0));
    assert!(!tree.check_regrowable(&reals));
}

#[test]
fn generated_trees_can_be_generated_anew() {
    let fl = Ieee;
    let table = mixed_table();
    let types = [TypeV::Bool, TypeV::Int, TypeV::Float];
    let mut params = seeded(32).max_depth(4);
    for tag in types {
        for _ in 0..100 {
            let tree = table.build_random(&types, tag, 0, &mut params, &fl);
            assert!(tree.check_regrowable(&types));
            if let Some(mutant) = tree.mutant_copy(pat(0.3), 0, &types, &table, &mut params, &fl) {
                assert!(mutant.check_regrowable(&types));
            }
            assert!(tree.prune().check_regrowable(&types));
        }
    }
}

#[test]
fn without_a_shape_of_the_type_generation_gives_a_leaf() {
    let fl = Ieee;
    let table = arithmetic_table();
    let mut params = seeded(33).max_depth(4).termination_probability(pat(0.0));
    for _ in 0..100 {
        let tree = table.build_random(&[TypeV::Bool], TypeV::Bool, 0, &mut params, &fl);
        assert!(is_leaf(&tree));
        assert_eq!(tree.get_rtype(), TypeV::Bool);
    }
}

#[test]
fn early_termination_always_gives_a_leaf() {
    let fl = Ieee;
    let table = arithmetic_table();
    let mut params = seeded(34).max_depth(8).termination_probability(pat(1.0));
    for _ in 0..100 {
        let tree = table.build_random(&[TypeV::Float], TypeV::Float, 0, &mut params, &fl);
        assert!(is_leaf(&tree));
    }
}

#[test]
fn building_on_a_shape_keeps_the_shape() {
    let fl = Ieee;
    let table = mixed_table();
    let types = [TypeV::Float, TypeV::Bool, TypeV::Int];
    let mut params = seeded(35).max_depth(3);
    for _ in 0..50 {
        let shape = BinOpBase::zero(BinOp::Lt, TypeV::Float);
        let tree = shape.build_random_node(&table, &types, TypeV::Bool, 0, &mut params, &fl);
        assert_eq!(tree.get_zero_node(), shape);
        assert!(tree.type_check().is_ok());
        assert!(tree.get_max_depth() <= 4);
        let shape = Cond::zero(TypeV::Float);
        let tree = shape.build_random_node(&table, &types, TypeV::Float, 0, &mut params, &fl);
        assert_eq!(tree.get_zero_node(), shape);
        assert!(tree.type_check().is_ok());
        assert_eq!(tree.get_child(0).get_rtype(), TypeV::Bool);
        let shape = UnaryOpBase::zero(UnaryOp::Abs);
        let tree = shape.build_random_node(&table, &types, TypeV::Float, 3, &mut params, &fl);
        assert_eq!(tree.get_zero_node(), shape);
        assert_eq!(tree.get_max_depth(), 2);
        let tree = lit(0.0).build_random_node(&table, &types, TypeV::Int, 0, &mut params, &fl);
        assert!(matches!(&*tree, Node::Val(v) if v.v.get_tag() == TypeV::Int));
        let tree = x(0).build_random_node(&table, &types, TypeV::Bool, 0, &mut params, &fl);
        assert_eq!(tree, Var::make(1, TypeV::Bool));
        let tree =
            Null::zero(TypeV::Int).build_random_node(&table, &types, TypeV::UInt, 0, &mut params, &fl);
        assert_eq!(tree, Null::zero(TypeV::UInt));
    }
}

#[test]
fn nothing_mutates_at_the_depth_limit_or_in_a_placeholder() {
    let fl = Ieee;
    let table = FloatFnTable::new().table;
    let mut params = seeded(40).max_depth(3);
    let tree = bin(BinOp::Add, x(0), math(MathFn::Sin, x(0)));
    for _ in 0..100 {
        assert!(tree
            .mutant_copy(pat(100.0), 3, &[TypeV::Float], &table, &mut params, &fl)
            .is_none());
        assert!(tree
            .mutant_copy(pat(100.0), 9, &[TypeV::Float], &table, &mut params, &fl)
            .is_none());
        assert!(Null::zero(TypeV::Float)
            .mutant_copy(pat(100.0), 0, &[TypeV::Float], &table, &mut params, &fl)
            .is_none());
    }
}

#[test]
fn mutants_keep_the_type_and_stay_well_typed() {
    let fl = Ieee;
    let table = mixed_table();
    let types = [TypeV::Float, TypeV::Float, TypeV::Bool, TypeV::Int];
    let mut params = seeded(41).max_depth(4);
    let mut changed = 0;
    for round in 0..300 {
        let tree = table.build_random(&types, TypeV::Float, 0, &mut params, &fl);
        let base = [0.0f32, 0.05, 0.2, 1.0][round % 4];
        if let Some(mutant) = tree.mutant_copy(pat(base), 0, &types, &table, &mut params, &fl) {
            changed += 1;
            assert_eq!(mutant.get_rtype(), tree.get_rtype());
            assert!(mutant.type_check().is_ok());
            assert!(mutant.check_args(&types));
            assert!(mutant.get_max_depth() <= tree.get_max_depth().max(5));
        }
    }
    assert!(changed > 50);
}

#[test]
fn a_certain_mutation_replaces_the_whole_tree() {
    let fl = Ieee;
    let table = BuilderTable::new();
    let mut params = seeded(42).max_depth(2);
    let tree = bin(BinOp::Add, bin(BinOp::Mul, x(0), x(0)), math(MathFn::Sin, x(0)));
    for _ in 0..50 {
        // With an empty catalog a regenerated tree is a leaf.
        let mutant = tree
            .mutant_copy(pat(f32::INFINITY), 0, &[TypeV::Float], &table, &mut params, &fl)
            .expect("a mutant");
        assert!(is_leaf(&mutant));
        assert_eq!(mutant.get_rtype(), TypeV::Float);
    }
}

#[test]
fn a_variable_mutates_to_another_argument_of_its_type() {
    let fl = Ieee;
    let table = FloatFnTable::new().table;
    let types = [TypeV::Float, TypeV::Int, TypeV::Float];
    let mut params = seeded(43).max_depth(3);
    let mut moved = 0;
    let mut stayed = 0;
    for _ in 0..200 {
        match x(0).mutant_copy(pat(f32::INFINITY), 0, &types, &table, &mut params, &fl) {
            Some(mutant) => {
                assert_eq!(mutant, x(2));
                moved += 1;
            }
            None => stayed += 1,
        }
    }
    assert!(moved > 50 && stayed > 50);
    // The only argument of its type: nothing to change to.
    for _ in 0..50 {
        assert!(Var::make(1, TypeV::Int)
            .mutant_copy(pat(f32::INFINITY), 0, &types, &table, &mut params, &fl)
            .is_none());
    }
    // A variable of a type that no argument has cannot move.
    assert!(!Var::make(0, TypeV::Bool).check_regrowable(&types));
    assert!(Var::make(0, TypeV::Int).check_regrowable(&types));
}

#[test]
fn a_constant_mutates_to_a_constant_of_its_type() {
    let fl = Ieee;
    let table = FloatFnTable::new().table;
    let mut params = seeded(44).max_depth(3).int_range(7, 9);
    for _ in 0..50 {
        let mutant = Val::make(Type::Int(0))
            .mutant_copy(pat(f32::INFINITY), 0, &[], &table, &mut params, &fl)
            .expect("a mutant");
        match &*mutant {
            Node::Val(v) => match v.v {
                Type::Int(i) => assert!((7..=9).contains(&i)),
                other => panic!("{other:?}"),
            },
            other => panic!("{other:?}"),
        }
    }
}

#[test]
fn a_mutation_below_the_root_keeps_the_rest() {
    let fl = Ieee;
    let table = BuilderTable::new();
    // The chance is nil at depth 0 and certain at depth 1.
    let mut params = seeded(45).max_depth(3).growth_curve(pat(1000.0), pat(1.5));
    let tree = bin(BinOp::Add, math(MathFn::Sin, x(0)), math(MathFn::Cos, x(0)));
    for _ in 0..50 {
        let mutant = tree
            .mutant_copy(pat(1.0), 0, &[TypeV::Float], &table, &mut params, &fl)
            .expect("a mutant");
        match &*mutant {
            Node::Binary(n) => {
                assert_eq!(n.kind, BinOp::Add);
                assert!(is_leaf(&n.lhs));
                assert!(is_leaf(&n.rhs));
            }
            other => panic!("{other:?}"),
        }
    }
}

#[test]
fn fragments_are_subtrees() {
    let fl = Ieee;
    let table = mixed_table();
    let types = [TypeV::Float, TypeV::Bool, TypeV::Int];
    let mut params = seeded(50).max_depth(5);
    let mut found = 0;
    for round in 0..300 {
        let tree = table.build_random(&types, TypeV::Float, 0, &mut params, &fl);
        let base = [0.0f32, 0.05, 0.3, 2.0][round % 4];
        if let Some(fragment) = tree.get_random_child(pat(base), 0, &mut params, &fl) {
            found += 1;
            assert!(nodes(&tree).iter().any(|n| **n == *fragment));
            assert!(fragment.get_max_depth() <= tree.get_max_depth());
            assert!(fragment.type_check().is_ok());
        }
    }
    assert!(found > 50);
}

#[test]
fn a_certain_extraction_copies_the_whole_tree() {
    let fl = Ieee;
    let mut params = seeded(51).max_depth(3);
    let tree = Cond::make(bin(BinOp::Lt, x(0), lit(1.0)), x(0), math(MathFn::Exp, x(0)));
    for _ in 0..20 {
        assert_eq!(
            tree.get_random_child(pat(f32::INFINITY), 0, &mut params, &fl),
            Some(tree.deep_copy())
        );
    }
}

#[test]
fn nothing_is_extracted_at_the_depth_limit_or_from_a_placeholder() {
    let fl = Ieee;
    let mut params = seeded(52).max_depth(2);
    let tree = bin(BinOp::Add, x(0), x(0));
    for _ in 0..50 {
        assert!(tree.get_random_child(pat(f32::INFINITY), 2, &mut params, &fl).is_none());
        assert!(tree.get_random_child(pat(f32::INFINITY), 5, &mut params, &fl).is_none());
        assert!(Null::zero(TypeV::Float)
            .get_random_child(pat(f32::INFINITY), 0, &mut params, &fl)
            .is_none());
    }
}

#[test]
fn extraction_below_the_root_reaches_every_child() {
    let fl = Ieee;
    // The chance is nil at depth 0 and certain at depth 1.
    let mut params = seeded(53).max_depth(3).growth_curve(pat(1000.0), pat(1.5));
    let tree = Cond::make(bin(BinOp::Lt, x(0), lit(1.0)), x(0), math(MathFn::Exp, x(0)));
    let mut seen = [0, 0, 0];
    for _ in 0..300 {
        let fragment = tree
            .get_random_child(pat(1.0), 0, &mut params, &fl)
            .expect("a fragment");
        let at = (0..3).find(|i| *tree.get_child(*i) == fragment).expect("a child");
        seen[at] += 1;
    }
    assert!(seen.iter().all(|n| *n > 50), "{seen:?}");
    let tree = bin(BinOp::Sub, x(0), lit(2.0));
    let mut seen = [0, 0];
    for _ in 0..200 {
        let fragment = tree
            .get_random_child(pat(1.0), 0, &mut params, &fl)
            .expect("a fragment");
        let at = (0..2).find(|i| *tree.get_child(*i) == fragment).expect("a child");
        seen[at] += 1;
    }
    assert!(seen.iter().all(|n| *n > 50), "{seen:?}");
}

#[test]
fn nth_present_counts_only_what_is_there() {
    let (a, b, c) = (x(0), x(1), x(2));
    let some = |n: &NodeRef| Some(n.deep_copy());
    assert_eq!(nth_present(some(&a), some(&b), some(&c), 1), some(&a));
    assert_eq!(nth_present(some(&a), some(&b), some(&c), 2), some(&b));
    assert_eq!(nth_present(some(&a), some(&b), some(&c), 3), some(&c));
    assert_eq!(nth_present(some(&a), some(&b), some(&c), 4), None);
    assert_eq!(nth_present(some(&a), some(&b), some(&c), 0), None);
    assert_eq!(nth_present(None, some(&b), some(&c), 1), some(&b));
    assert_eq!(nth_present(None, some(&b), some(&c), 2), some(&c));
    assert_eq!(nth_present(None, some(&b), some(&c), 3), None);
    assert_eq!(nth_present(some(&a), None, some(&c), 1), some(&a));
    assert_eq!(nth_present(some(&a), None, some(&c), 2), some(&c));
    assert_eq!(nth_present(None, None, some(&c), 1), some(&c));
    assert_eq!(nth_present(None, some(&b), None, 1), some(&b));
    assert_eq!(nth_present(some(&a), some(&b), None, 2), some(&b));
    assert_eq!(nth_present(some(&a), some(&b), None, 3), None);
    assert_eq!(nth_present(None, None, None, 1), None);
}

#[test]
fn a_fragment_of_a_type_that_the_tree_lacks_finds_no_place() {
    let fl = Ieee;
    let table = FloatFnTable::new().table;
    let mut params = seeded(60).max_depth(6);
    for round in 0..200 {
        let tree = table.build_random(&[TypeV::Float], TypeV::Float, 0, &mut params, &fl);
        let base = [0.0f32, 0.1, 1.0, f32::INFINITY][round % 4];
        let fragment = Val::make(Type::Bool(true));
        assert!(tree.set_random_child(fragment, pat(base), 0, &mut params, &fl).is_none());
        let fragment = bin(BinOp::Lt, x(0), lit(1.0));
        assert!(tree.set_random_child(fragment, pat(base), 0, &mut params, &fl).is_none());
        let fragment = Var::make(0, TypeV::Int);
        assert!(tree.set_random_child(fragment, pat(base), 0, &mut params, &fl).is_none());
    }
}

#[test]
fn a_fragment_that_reaches_below_the_depth_limit_finds_no_place() {
    let fl = Ieee;
    let mut params = seeded(61).max_depth(3);
    let tree = bin(BinOp::Add, x(0), x(0));
    let deep = math(MathFn::Sin, math(MathFn::Cos, math(MathFn::Tan, x(0))));
    assert_eq!(deep.get_max_depth(), 4);
    for _ in 0..50 {
        assert!(tree
            .set_random_child(deep.deep_copy(), pat(f32::INFINITY), 0, &mut params, &fl)
            .is_none());
        assert!(tree
            .set_random_child(x(0), pat(f32::INFINITY), 3, &mut params, &fl)
            .is_none());
        assert!(Null::zero(TypeV::Float)
            .set_random_child(x(0), pat(f32::INFINITY), 0, &mut params, &fl)
            .is_none());
    }
    // A fragment of three levels fits at the root and nowhere below.
    let fits = math(MathFn::Sin, math(MathFn::Cos, x(0)));
    for _ in 0..50 {
        assert_eq!(
            tree.set_random_child(fits.deep_copy(), pat(f32::INFINITY), 0, &mut params, &fl),
            Some(fits.deep_copy())
        );
        let mut never = BuilderParams::new().max_depth(3).growth_curve(pat(1000.0), pat(1.5));
        never.set_seed(3);
        assert!(tree
            .set_random_child(fits.deep_copy(), pat(1.0), 0, &mut never, &fl)
            .is_none());
    }
}

#[test]
fn a_spliced_tree_differs_in_one_subtree_and_stays_within_the_limit() {
    let fl = Ieee;
    let table = mixed_table();
    let types = [TypeV::Float, TypeV::Bool, TypeV::Int];
    let limit = 5usize;
    let mut params = seeded(62).max_depth(limit);
    let mut placed = 0;
    for round in 0..400 {
        let mother = table.build_random(&types, TypeV::Float, 1, &mut params, &fl);
        let tag = [TypeV::Float, TypeV::Bool][round % 2];
        let fragment = table.build_random(&types, tag, 3, &mut params, &fl);
        let base = [0.02f32, 0.1, 0.5, 4.0][round % 4];
        let kept = fragment.deep_copy();
        if let Some(child) = mother.set_random_child(fragment, pat(base), 0, &mut params, &fl) {
            placed += 1;
            assert_eq!(child.get_rtype(), mother.get_rtype());
            assert!(child.type_check().is_ok());
            assert!(child.check_args(&types));
            assert!(mother.get_max_depth() <= limit);
            assert!(child.get_max_depth() <= limit);
            assert!(differs_in_one_subtree(&mother, &child, &kept));
        }
    }
    assert!(placed > 50);
}

#[test]
fn splicing_below_the_root_reaches_every_child() {
    let fl = Ieee;
    // The chance is nil at depth 0 and certain at depth 1.
    let mut params = seeded(63).max_depth(4).growth_curve(pat(1000.0), pat(1.5));
    let tree = Cond::make(Var::make(1, TypeV::Bool), x(0), lit(2.0));
    let mut seen = [0, 0];
    let mut missed = 0;
    for _ in 0..600 {
        match tree.set_random_child(lit(9.0), pat(1.0), 0, &mut params, &fl) {
            Some(child) => {
                if child == Cond::make(Var::make(1, TypeV::Bool), lit(9.0), lit(2.0)) {
                    seen[0] += 1;
                } else if child == Cond::make(Var::make(1, TypeV::Bool), x(0), lit(9.0)) {
                    seen[1] += 1;
                } else {
                    panic!("{child:?}");
                }
            }
            // Offered to the condition, where a real number has no place.
            None => missed += 1,
        }
    }
    assert!(seen[0] > 100 && seen[1] > 100 && missed > 100, "{seen:?}, {missed}");
    let tree = bin(BinOp::Sub, x(0), lit(2.0));
    let mut seen = [0, 0];
    for _ in 0..300 {
        let child = tree
            .set_random_child(lit(9.0), pat(1.0), 0, &mut params, &fl)
            .expect("a child");
        if child == bin(BinOp::Sub, lit(9.0), lit(2.0)) {
            seen[0] += 1;
        } else if child == bin(BinOp::Sub, x(0), lit(9.0)) {
            seen[1] += 1;
        } else {
            panic!("{child:?}");
        }
    }
    assert!(seen[0] > 100 && seen[1] > 100, "{seen:?}");
}
