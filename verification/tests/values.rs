use expr_evolution::node::base::{Type, TypeV};
use expr_evolution::node::binary_node_base::{BinOp, BinOpKind};
use expr_evolution::node::chance::{spread, unit_from};
use expr_evolution::node::cmp_nodes::{EqEval, GtEval, GteEval, LtEval, LteEval, NEqEval};
use expr_evolution::node::ieee::{
    ArithFn, Float32, FloatOps, MathFn, HALF_BITS, INFINITY_BITS, ONE_BITS, UNIT_STEP_BITS,
    ZERO_BITS,
};
use expr_evolution::node::logic_nodes::{AndEval, NotEval, OrEval};
use expr_evolution::node::math_nodes::{heaviside, relu};
use expr_evolution::node::op_nodes::{wrapping_power, AddEval, DivEval, MulEval, PowEval, SubEval};
use expr_evolution::node::params::{
    BuilderParams, DEFAULT_MIDPOINT_BITS, DEFAULT_STEEPNESS_BITS, DEFAULT_TERMINATION_BITS,
};
use expr_evolution::node::unary_node_base::{UnaryOp, UnaryOpKind};

struct Ieee;

fn num(x: Float32) -> f32 {
    f32::from_bits(x.bits)
}

fn pat(x: f32) -> Float32 {
    Float32 { bits: x.to_bits() }
}

impl FloatOps for Ieee {
    fn unary_of(&self, f: MathFn, x: Float32) -> Float32 {
        self.unary(f, x)
    }

    fn binary_of(&self, f: ArithFn, l: Float32, r: Float32) -> Float32 {
        self.binary(f, l, r)
    }

    fn count_of(&self, n: u64) -> Float32 {
        self.from_count(n)
    }

    fn text_of(&self, x: Float32) -> String {
        self.text(x)
    }

    fn unary(&self, f: MathFn, x: Float32) -> Float32 {
        let v = num(x);
        pat(match f {
            MathFn::Sin => v.sin(),
            MathFn::Cos => v.cos(),
            MathFn::Tan => v.tan(),
            MathFn::ASin => v.asin(),
            MathFn::ACos => v.acos(),
            MathFn::ATan => v.atan(),
            MathFn::Sinh => v.sinh(),
            MathFn::Cosh => v.cosh(),
            MathFn::Tanh => v.tanh(),
            MathFn::ASinh => v.asinh(),
            MathFn::ACosh => v.acosh(),
            MathFn::ATanh => v.atanh(),
            MathFn::Exp => v.exp(),
            MathFn::Log => v.ln(),
        })
    }

    fn binary(&self, f: ArithFn, l: Float32, r: Float32) -> Float32 {
        let (a, b) = (num(l), num(r));
        pat(match f {
            ArithFn::Add => a + b,
            ArithFn::Sub => a - b,
            ArithFn::Mul => a * b,
            ArithFn::Div => a / b,
            ArithFn::Pow => a.powf(b),
        })
    }

    fn from_count(&self, n: u64) -> Float32 {
        pat(n as f32)
    }

    fn text(&self, x: Float32) -> String {
        format!("{}", num(x))
    }
}

fn samples() -> Vec<f32> {
    vec![
        0.0,
        -0.0,
        1.0,
        -1.0,
        0.5,
        -0.5,
        1.5,
        -2.25,
        3.0e38,
        -3.0e38,
        1.0e-45,
        -1.0e-45,
        1.17549435e-38,
        f32::INFINITY,
        f32::NEG_INFINITY,
        f32::NAN,
        -f32::NAN,
        f32::MAX,
        f32::MIN,
        f32::EPSILON,
    ]
}

#[test]
fn named_bit_patterns_are_the_numbers_they_stand_for() {
    assert_eq!(ZERO_BITS, 0.0f32.to_bits());
    assert_eq!(ONE_BITS, 1.0f32.to_bits());
    assert_eq!(HALF_BITS, 0.5f32.to_bits());
    assert_eq!(INFINITY_BITS, f32::INFINITY.to_bits());
    assert_eq!(UNIT_STEP_BITS, (1.0f32 / 16777216.0f32).to_bits());
    assert_eq!(DEFAULT_TERMINATION_BITS, 0.05f32.to_bits());
    assert_eq!(DEFAULT_STEEPNESS_BITS, 5.5f32.to_bits());
    assert_eq!(DEFAULT_MIDPOINT_BITS, 0.7f32.to_bits());
    assert_eq!(Float32::zero().bits, 0.0f32.to_bits());
    assert_eq!(Float32::one().bits, 1.0f32.to_bits());
    assert_eq!(Float32::new(7).bits, 7);
}

#[test]
fn comparisons_on_bits_agree_with_the_machine() {
    for a in samples() {
        for b in samples() {
            let (x, y) = (pat(a), pat(b));
            assert_eq!(x.equals(y), a == b, "{a} == {b}");
            assert_eq!(x.differs(y), a != b, "{a} != {b}");
            assert_eq!(x.lt(y), a < b, "{a} < {b}");
            assert_eq!(x.le(y), a <= b, "{a} <= {b}");
            assert_eq!(x.gt(y), a > b, "{a} > {b}");
            assert_eq!(x.ge(y), a >= b, "{a} >= {b}");
            assert_eq!(
                x.total_key().cmp(&y.total_key()),
                a.total_cmp(&b),
                "total order of {a} and {b}"
            );
        }
    }
}

#[test]
fn classification_and_sign_on_bits_agree_with_the_machine() {
    for a in samples() {
        let x = pat(a);
        assert_eq!(x.is_nan(), a.is_nan());
        assert_eq!(x.is_finite(), a.is_finite());
        assert_eq!(x.abs().bits, a.abs().to_bits());
        assert_eq!(x.neg().bits, (-a).to_bits());
    }
}

#[test]
fn pow2_is_exact_up_to_127_and_infinite_beyond() {
    assert_eq!(Float32::pow2(0).bits, 1.0f32.to_bits());
    assert_eq!(Float32::pow2(1).bits, 2.0f32.to_bits());
    assert_eq!(Float32::pow2(10).bits, 1024.0f32.to_bits());
    assert_eq!(Float32::pow2(63).bits, 2.0f32.powi(63).to_bits());
    assert_eq!(Float32::pow2(127).bits, 2.0f32.powi(127).to_bits());
    assert_eq!(Float32::pow2(128).bits, f32::INFINITY.to_bits());
    assert_eq!(Float32::pow2(usize::MAX).bits, f32::INFINITY.to_bits());
}

#[test]
fn heaviside_and_relu_follow_their_definitions() {
    for a in samples() {
        let h = if a >= 0.0 { 1.0f32 } else { 0.0f32 };
        let r = if a >= 0.0 { a } else { 0.0f32 };
        assert_eq!(heaviside(pat(a)).bits, h.to_bits(), "H({a})");
        assert_eq!(relu(pat(a)).bits, r.to_bits(), "ReLu({a})");
    }
}

#[test]
fn whole_number_arithmetic_wraps() {
    let fl = Ieee;
    assert_eq!(
        AddEval::eval(Type::Int(i32::MAX), Type::Int(1), &fl),
        Some(Type::Int(i32::MIN))
    );
    assert_eq!(AddEval::eval(Type::Int(2), Type::Int(3), &fl), Some(Type::Int(5)));
    assert_eq!(AddEval::eval(Type::UInt(u32::MAX), Type::UInt(2), &fl), Some(Type::UInt(1)));
    assert_eq!(SubEval::eval(Type::Int(2), Type::Int(3), &fl), Some(Type::Int(-1)));
    assert_eq!(
        SubEval::eval(Type::Int(i32::MIN), Type::Int(1), &fl),
        Some(Type::Int(i32::MAX))
    );
    assert_eq!(SubEval::eval(Type::UInt(2), Type::UInt(3), &fl), Some(Type::UInt(u32::MAX)));
    assert_eq!(MulEval::eval(Type::Int(-4), Type::Int(6), &fl), Some(Type::Int(-24)));
    assert_eq!(
        MulEval::eval(Type::Int(65536), Type::Int(65536), &fl),
        Some(Type::Int(0))
    );
    assert_eq!(
        MulEval::eval(Type::UInt(0x8000_0001), Type::UInt(2), &fl),
        Some(Type::UInt(2))
    );
}

#[test]
fn whole_number_division_rounds_towards_zero_and_fails_on_zero() {
    let fl = Ieee;
    assert_eq!(DivEval::eval(Type::Int(7), Type::Int(2), &fl), Some(Type::Int(3)));
    assert_eq!(DivEval::eval(Type::Int(-7), Type::Int(2), &fl), Some(Type::Int(-3)));
    assert_eq!(DivEval::eval(Type::Int(7), Type::Int(-2), &fl), Some(Type::Int(-3)));
    assert_eq!(DivEval::eval(Type::Int(-7), Type::Int(-2), &fl), Some(Type::Int(3)));
    assert_eq!(DivEval::eval(Type::Int(0), Type::Int(-5), &fl), Some(Type::Int(0)));
    assert_eq!(DivEval::eval(Type::Int(1), Type::Int(0), &fl), None);
    assert_eq!(DivEval::eval(Type::Int(i32::MIN), Type::Int(-1), &fl), None);
    assert_eq!(
        DivEval::eval(Type::Int(i32::MIN), Type::Int(1), &fl),
        Some(Type::Int(i32::MIN))
    );
    assert_eq!(DivEval::eval(Type::UInt(7), Type::UInt(2), &fl), Some(Type::UInt(3)));
    assert_eq!(DivEval::eval(Type::UInt(7), Type::UInt(0), &fl), None);
}

#[test]
fn real_arithmetic_goes_through_the_provider() {
    let fl = Ieee;
    let (a, b) = (pat(1.5), pat(-0.25));
    assert_eq!(
        AddEval::eval(Type::Float(a), Type::Float(b), &fl),
        Some(Type::Float(pat(1.25)))
    );
    assert_eq!(
        SubEval::eval(Type::Float(a), Type::Float(b), &fl),
        Some(Type::Float(pat(1.75)))
    );
    assert_eq!(
        MulEval::eval(Type::Float(a), Type::Float(b), &fl),
        Some(Type::Float(pat(-0.375)))
    );
    assert_eq!(
        DivEval::eval(Type::Float(a), Type::Float(b), &fl),
        Some(Type::Float(pat(-6.0)))
    );
    assert_eq!(
        PowEval::eval(Type::Float(pat(2.0)), Type::Float(pat(10.0)), &fl),
        Some(Type::Float(pat(1024.0)))
    );
    assert_eq!(
        DivEval::eval(Type::Float(pat(1.0)), Type::Float(pat(0.0)), &fl),
        Some(Type::Float(pat(f32::INFINITY)))
    );
}

#[test]
fn operators_yield_nothing_on_operands_they_do_not_take() {
    let fl = Ieee;
    assert_eq!(AddEval::eval(Type::Bool(true), Type::Bool(false), &fl), None);
    assert_eq!(AddEval::eval(Type::Int(1), Type::UInt(1), &fl), None);
    assert_eq!(SubEval::eval(Type::Float(pat(1.0)), Type::Int(1), &fl), None);
    assert_eq!(MulEval::eval(Type::Bool(true), Type::Bool(true), &fl), None);
    assert_eq!(DivEval::eval(Type::Bool(true), Type::Bool(true), &fl), None);
    assert_eq!(PowEval::eval(Type::Int(2), Type::Int(2), &fl), None);
    assert_eq!(PowEval::eval(Type::Bool(true), Type::Bool(true), &fl), None);
    assert_eq!(AndEval::eval(Type::Float(pat(1.0)), Type::Float(pat(1.0)), &fl), None);
    assert_eq!(OrEval::eval(Type::Float(pat(1.0)), Type::Float(pat(1.0)), &fl), None);
    assert_eq!(EqEval::eval(Type::Int(1), Type::UInt(1), &fl), None);
    assert_eq!(LtEval::eval(Type::Bool(true), Type::Int(1), &fl), None);
    assert_eq!(NotEval::eval(Type::Int(1)), None);
    assert_eq!(UnaryOp::Math(MathFn::Sin).apply(Type::Int(1), &fl), None);
    assert_eq!(UnaryOp::Abs.apply(Type::Bool(true), &fl), None);
    assert_eq!(UnaryOp::Not.apply(Type::Float(pat(1.0)), &fl), None);
}

#[test]
fn unsigned_power_wraps() {
    let fl = Ieee;
    assert_eq!(wrapping_power(2, 10), 1024);
    assert_eq!(wrapping_power(2, 32), 0);
    assert_eq!(wrapping_power(3, 0), 1);
    assert_eq!(wrapping_power(0, 0), 1);
    assert_eq!(wrapping_power(7, 13), 7u32.wrapping_pow(13));
    assert_eq!(wrapping_power(0xFFFF_FFFF, 3), 0xFFFF_FFFFu32.wrapping_pow(3));
    assert_eq!(
        PowEval::eval(Type::UInt(3), Type::UInt(4), &fl),
        Some(Type::UInt(81))
    );
}

#[test]
fn comparisons_put_the_left_operand_first() {
    let fl = Ieee;
    let t = Some(Type::Bool(true));
    let f = Some(Type::Bool(false));
    assert_eq!(GtEval::eval(Type::Int(3), Type::Int(2), &fl), t);
    assert_eq!(GtEval::eval(Type::Int(2), Type::Int(3), &fl), f);
    assert_eq!(GteEval::eval(Type::UInt(2), Type::UInt(2), &fl), t);
    assert_eq!(GteEval::eval(Type::UInt(1), Type::UInt(2), &fl), f);
    assert_eq!(LtEval::eval(Type::Int(-3), Type::Int(2), &fl), t);
    assert_eq!(LtEval::eval(Type::Int(2), Type::Int(-3), &fl), f);
    assert_eq!(LteEval::eval(Type::Float(pat(1.0)), Type::Float(pat(1.0)), &fl), t);
    assert_eq!(LteEval::eval(Type::Float(pat(1.5)), Type::Float(pat(1.0)), &fl), f);
    assert_eq!(GtEval::eval(Type::Float(pat(1.5)), Type::Float(pat(1.0)), &fl), t);
    assert_eq!(GteEval::eval(Type::Float(pat(-0.0)), Type::Float(pat(0.0)), &fl), t);
    assert_eq!(LtEval::eval(Type::Float(pat(f32::NAN)), Type::Float(pat(0.0)), &fl), f);
    assert_eq!(EqEval::eval(Type::Float(pat(f32::NAN)), Type::Float(pat(f32::NAN)), &fl), f);
    assert_eq!(NEqEval::eval(Type::Float(pat(f32::NAN)), Type::Float(pat(f32::NAN)), &fl), t);
    assert_eq!(EqEval::eval(Type::Float(pat(0.0)), Type::Float(pat(-0.0)), &fl), t);
    assert_eq!(EqEval::eval(Type::Int(4), Type::Int(4), &fl), t);
    assert_eq!(NEqEval::eval(Type::UInt(4), Type::UInt(4), &fl), f);
    assert_eq!(EqEval::eval(Type::Bool(true), Type::Bool(false), &fl), f);
    assert_eq!(NEqEval::eval(Type::Bool(true), Type::Bool(false), &fl), t);
    assert_eq!(GtEval::eval(Type::Bool(true), Type::Bool(false), &fl), t);
    assert_eq!(GtEval::eval(Type::Bool(false), Type::Bool(true), &fl), f);
    assert_eq!(GteEval::eval(Type::Bool(false), Type::Bool(false), &fl), t);
    assert_eq!(GteEval::eval(Type::Bool(false), Type::Bool(true), &fl), f);
    assert_eq!(LtEval::eval(Type::Bool(false), Type::Bool(true), &fl), t);
    assert_eq!(LtEval::eval(Type::Bool(true), Type::Bool(true), &fl), f);
    assert_eq!(LteEval::eval(Type::Bool(true), Type::Bool(false), &fl), f);
    assert_eq!(LteEval::eval(Type::Bool(true), Type::Bool(true), &fl), t);
}

#[test]
fn logic_operators_act_on_truth_values_and_on_bits() {
    let fl = Ieee;
    assert_eq!(
        AndEval::eval(Type::Bool(true), Type::Bool(false), &fl),
        Some(Type::Bool(false))
    );
    assert_eq!(
        OrEval::eval(Type::Bool(true), Type::Bool(false), &fl),
        Some(Type::Bool(true))
    );
    assert_eq!(
        OrEval::eval(Type::Bool(false), Type::Bool(false), &fl),
        Some(Type::Bool(false))
    );
    assert_eq!(AndEval::eval(Type::Int(12), Type::Int(10), &fl), Some(Type::Int(8)));
    assert_eq!(OrEval::eval(Type::Int(12), Type::Int(10), &fl), Some(Type::Int(14)));
    assert_eq!(AndEval::eval(Type::Int(-1), Type::Int(10), &fl), Some(Type::Int(10)));
    assert_eq!(AndEval::eval(Type::UInt(12), Type::UInt(10), &fl), Some(Type::UInt(8)));
    assert_eq!(OrEval::eval(Type::UInt(12), Type::UInt(10), &fl), Some(Type::UInt(14)));
    assert_eq!(NotEval::eval(Type::Bool(true)), Some(Type::Bool(false)));
    assert_eq!(NotEval::eval(Type::Bool(false)), Some(Type::Bool(true)));
}

#[test]
fn operator_types_name_their_operator() {
    assert_eq!(AddEval::kind(), BinOp::Add);
    assert_eq!(SubEval::kind(), BinOp::Sub);
    assert_eq!(MulEval::kind(), BinOp::Mul);
    assert_eq!(DivEval::kind(), BinOp::Div);
    assert_eq!(PowEval::kind(), BinOp::Pow);
    assert_eq!(EqEval::kind(), BinOp::Eq);
    assert_eq!(NEqEval::kind(), BinOp::NEq);
    assert_eq!(GtEval::kind(), BinOp::Gt);
    assert_eq!(GteEval::kind(), BinOp::Gte);
    assert_eq!(LtEval::kind(), BinOp::Lt);
    assert_eq!(LteEval::kind(), BinOp::Lte);
    assert_eq!(AndEval::kind(), BinOp::And);
    assert_eq!(OrEval::kind(), BinOp::Or);
    assert_eq!(NotEval::kind(), UnaryOp::Not);
}

#[test]
fn operator_dispatch_matches_the_operator_types() {
    let fl = Ieee;
    assert_eq!(BinOp::Add.apply(Type::Int(2), Type::Int(3), &fl), Some(Type::Int(5)));
    assert_eq!(BinOp::Sub.apply(Type::Int(2), Type::Int(3), &fl), Some(Type::Int(-1)));
    assert_eq!(BinOp::Mul.apply(Type::Int(2), Type::Int(3), &fl), Some(Type::Int(6)));
    assert_eq!(BinOp::Div.apply(Type::Int(7), Type::Int(3), &fl), Some(Type::Int(2)));
    assert_eq!(BinOp::Pow.apply(Type::UInt(2), Type::UInt(3), &fl), Some(Type::UInt(8)));
    assert_eq!(BinOp::Eq.apply(Type::Int(2), Type::Int(3), &fl), Some(Type::Bool(false)));
    assert_eq!(BinOp::NEq.apply(Type::Int(2), Type::Int(3), &fl), Some(Type::Bool(true)));
    assert_eq!(BinOp::Gt.apply(Type::Int(2), Type::Int(3), &fl), Some(Type::Bool(false)));
    assert_eq!(BinOp::Gte.apply(Type::Int(3), Type::Int(3), &fl), Some(Type::Bool(true)));
    assert_eq!(BinOp::Lt.apply(Type::Int(2), Type::Int(3), &fl), Some(Type::Bool(true)));
    assert_eq!(BinOp::Lte.apply(Type::Int(4), Type::Int(3), &fl), Some(Type::Bool(false)));
    assert_eq!(BinOp::And.apply(Type::UInt(6), Type::UInt(3), &fl), Some(Type::UInt(2)));
    assert_eq!(BinOp::Or.apply(Type::UInt(6), Type::UInt(3), &fl), Some(Type::UInt(7)));
    assert_eq!(
        UnaryOp::Math(MathFn::Exp).apply(Type::Float(pat(0.0)), &fl),
        Some(Type::Float(pat(1.0)))
    );
    assert_eq!(
        UnaryOp::Abs.apply(Type::Float(pat(-2.5)), &fl),
        Some(Type::Float(pat(2.5)))
    );
    assert_eq!(
        UnaryOp::Heaviside.apply(Type::Float(pat(-2.5)), &fl),
        Some(Type::Float(pat(0.0)))
    );
    assert_eq!(
        UnaryOp::ReLu.apply(Type::Float(pat(2.5)), &fl),
        Some(Type::Float(pat(2.5)))
    );
    assert_eq!(UnaryOp::Not.apply(Type::Bool(true), &fl), Some(Type::Bool(false)));
}

#[test]
fn operators_know_their_types_and_names() {
    assert!(BinOp::Lt.get_is_comparison());
    assert!(!BinOp::Add.get_is_comparison());
    assert_eq!(BinOp::Lt.get_rtype_on(TypeV::Float), TypeV::Bool);
    assert_eq!(BinOp::Add.get_rtype_on(TypeV::Float), TypeV::Float);
    assert!(BinOp::Add.get_accepts(TypeV::Int));
    assert!(!BinOp::Add.get_accepts(TypeV::Bool));
    assert!(BinOp::Pow.get_accepts(TypeV::UInt));
    assert!(!BinOp::Pow.get_accepts(TypeV::Int));
    assert!(BinOp::And.get_accepts(TypeV::Bool));
    assert!(!BinOp::Or.get_accepts(TypeV::Float));
    assert!(BinOp::Eq.get_accepts(TypeV::Bool));
    assert_eq!(BinOp::Pow.get_name(), "**");
    assert_eq!(BinOp::NEq.get_name(), "!=");
    assert_eq!(UnaryOp::Not.get_name(), "~");
    assert_eq!(UnaryOp::Math(MathFn::ASinh).get_name(), "ASinh");
    assert_eq!(UnaryOp::Not.get_rtype(), TypeV::Bool);
    assert_eq!(UnaryOp::ReLu.get_rtype(), TypeV::Float);
    assert_eq!(MathFn::Sin.get_inverse(), MathFn::ASin);
    assert_eq!(MathFn::Log.get_inverse(), MathFn::Exp);
    assert!(UnaryOp::Math(MathFn::Cos).get_undoes(&UnaryOp::Math(MathFn::ACos)));
    assert!(UnaryOp::Math(MathFn::ACos).get_undoes(&UnaryOp::Math(MathFn::Cos)));
    assert!(!UnaryOp::Math(MathFn::Cos).get_undoes(&UnaryOp::Math(MathFn::ASin)));
    assert!(!UnaryOp::Abs.get_undoes(&UnaryOp::Abs));
    assert!(UnaryOp::Abs.get_idempotent());
    assert!(!UnaryOp::ReLu.get_idempotent());
    assert_eq!(TypeV::UInt.get_name(), "UInt");
}

#[test]
fn values_know_their_tag_and_zero() {
    assert_eq!(Type::integer(-3), Type::Int(-3));
    assert_eq!(Type::float(pat(1.5)), Type::Float(pat(1.5)));
    assert_eq!(Type::uint(3), Type::UInt(3));
    assert_eq!(Type::bool(true), Type::Bool(true));
    assert_eq!(Type::Int(1).get_tag(), TypeV::Int);
    assert_eq!(Type::Float(pat(1.0)).get_tag(), TypeV::Float);
    assert_eq!(Type::UInt(1).get_tag(), TypeV::UInt);
    assert_eq!(Type::Bool(false).get_tag(), TypeV::Bool);
    assert_eq!(Type::zero(TypeV::Int), Type::Int(0));
    assert_eq!(Type::zero(TypeV::Float), Type::Float(pat(0.0)));
    assert_eq!(Type::zero(TypeV::UInt), Type::UInt(0));
    assert_eq!(Type::zero(TypeV::Bool), Type::Bool(false));
}

#[test]
fn unit_numbers_take_the_upper_24_bits() {
    let fl = Ieee;
    assert_eq!(num(unit_from(0, &fl)), 0.0);
    assert_eq!(num(unit_from(255, &fl)), 0.0);
    assert_eq!(num(unit_from(256, &fl)), 1.0 / 16777216.0);
    assert_eq!(num(unit_from(0x8000_0000, &fl)), 0.5);
    assert_eq!(num(unit_from(u32::MAX, &fl)), 16777215.0 / 16777216.0);
    assert!(num(unit_from(u32::MAX, &fl)) < 1.0);
}

#[test]
fn spread_marks_the_point_of_the_range() {
    let fl = Ieee;
    assert_eq!(num(spread(pat(-1.0), pat(1.0), pat(0.5), &fl)), 0.0);
    assert_eq!(num(spread(pat(-1.0), pat(1.0), pat(0.0), &fl)), -1.0);
    assert_eq!(num(spread(pat(2.0), pat(10.0), pat(0.25), &fl)), 4.0);
}

#[test]
fn growth_law_matches_the_formula() {
    let fl = Ieee;
    let params = BuilderParams::new().max_depth(6);
    for depth in 0..6usize {
        for base in [0.0f32, 0.01, 0.1, 0.35, 1.0, 2.5] {
            let s = (usize::pow(2, depth as u32) as f32) * base;
            let expected = 1.0 / (1.0 + f32::exp(-5.5 * (s - 0.7)));
            let got = params.get_mut_prob(pat(base), depth, &fl);
            assert_eq!(got.bits, expected.to_bits(), "depth {depth}, base {base}");
        }
    }
    assert_eq!(params.get_mut_prob(pat(1.0), 6, &fl).bits, 0.0f32.to_bits());
    assert_eq!(params.get_mut_prob(pat(1.0), 7, &fl).bits, 0.0f32.to_bits());
    assert_eq!(params.get_mut_prob(pat(1.0), usize::MAX, &fl).bits, 0.0f32.to_bits());
}

#[test]
fn growth_law_uses_the_coefficients_that_were_set() {
    let fl = Ieee;
    let params = BuilderParams::new().max_depth(4).growth_curve(pat(2.0), pat(0.25));
    let s = 4.0f32 * 0.5;
    let expected = 1.0 / (1.0 + f32::exp(-2.0 * (s - 0.25)));
    assert_eq!(params.get_mut_prob(pat(0.5), 2, &fl).bits, expected.to_bits());
}
