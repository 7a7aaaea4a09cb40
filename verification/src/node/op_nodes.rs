//! The arithmetic operators.

use crate::node::base::{trunc_div, wrap_i32, wrap_u32, Type};
use crate::node::binary_node_base::{BinOp, BinOpKind};
use crate::node::ieee::{ArithFn, FloatOps};
use vstd::arithmetic::power::pow;
use vstd::prelude::*;

verus! {

/// Addition. Whole numbers wrap around.
pub struct AddEval;

/// Subtraction, `lhs - rhs`. Whole numbers wrap around.
pub struct SubEval;

/// Multiplication. Whole numbers wrap around.
pub struct MulEval;

/// Division, `lhs / rhs`. Whole numbers round towards zero; a zero divisor
/// and the one quotient that does not fit yield nothing.
pub struct DivEval;

/// Power, `lhs ** rhs`, of real and of unsigned numbers. Unsigned numbers
/// wrap around.
pub struct PowEval;

impl BinOpKind for AddEval {
    open spec fn op() -> BinOp {
        BinOp::Add
    }

    fn kind() -> (r: BinOp) {
        BinOp::Add
    }
}

impl AddEval {
    /// The value of `lhs op rhs`.
    pub open spec fn result<A: FloatOps>(lhs: Type, rhs: Type, fl: &A) -> Option<Type> {
        match (lhs, rhs) {
            (Type::Int(l), Type::Int(r)) => Some(Type::Int(wrap_i32(l + r))),
            (Type::Float(l), Type::Float(r)) => Some(Type::Float(fl.binary_of(ArithFn::Add, l, r))),
            (Type::UInt(l), Type::UInt(r)) => Some(Type::UInt(wrap_u32(l + r))),
            _ => None,
        }
    }

    /// Applies the operator; see `result`.
    pub fn eval<A: FloatOps>(lhs: Type, rhs: Type, fl: &A) -> (r: Option<Type>)
        ensures
            r == Self::result(lhs, rhs, fl),
    {
        match (lhs, rhs) {
            (Type::Int(l), Type::Int(r)) => Some(Type::Int(l.wrapping_add(r))),
            (Type::Float(l), Type::Float(r)) => Some(Type::Float(fl.binary(ArithFn::Add, l, r))),
            (Type::UInt(l), Type::UInt(r)) => Some(Type::UInt(l.wrapping_add(r))),
            _ => None,
        }
    }
}

impl BinOpKind for SubEval {
    open spec fn op() -> BinOp {
        BinOp::Sub
    }

    fn kind() -> (r: BinOp) {
        BinOp::Sub
    }
}

impl SubEval {
    /// The value of `lhs op rhs`.
    pub open spec fn result<A: FloatOps>(lhs: Type, rhs: Type, fl: &A) -> Option<Type> {
        match (lhs, rhs) {
            (Type::Int(l), Type::Int(r)) => Some(Type::Int(wrap_i32(l - r))),
            (Type::Float(l), Type::Float(r)) => Some(Type::Float(fl.binary_of(ArithFn::Sub, l, r))),
            (Type::UInt(l), Type::UInt(r)) => Some(Type::UInt(wrap_u32(l - r))),
            _ => None,
        }
    }

    /// Applies the operator; see `result`.
    pub fn eval<A: FloatOps>(lhs: Type, rhs: Type, fl: &A) -> (r: Option<Type>)
        ensures
            r == Self::result(lhs, rhs, fl),
    {
        match (lhs, rhs) {
            (Type::Int(l), Type::Int(r)) => Some(Type::Int(l.wrapping_sub(r))),
            (Type::Float(l), Type::Float(r)) => Some(Type::Float(fl.binary(ArithFn::Sub, l, r))),
            (Type::UInt(l), Type::UInt(r)) => Some(Type::UInt(l.wrapping_sub(r))),
            _ => None,
        }
    }
}

impl BinOpKind for MulEval {
    open spec fn op() -> BinOp {
        BinOp::Mul
    }

    fn kind() -> (r: BinOp) {
        BinOp::Mul
    }
}

impl MulEval {
    /// The value of `lhs op rhs`.
    pub open spec fn result<A: FloatOps>(lhs: Type, rhs: Type, fl: &A) -> Option<Type> {
        match (lhs, rhs) {
            (Type::Int(l), Type::Int(r)) => Some(Type::Int(wrap_i32(l * r))),
            (Type::Float(l), Type::Float(r)) => Some(Type::Float(fl.binary_of(ArithFn::Mul, l, r))),
            (Type::UInt(l), Type::UInt(r)) => Some(Type::UInt(wrap_u32(l * r))),
            _ => None,
        }
    }

    /// Applies the operator; see `result`.
    pub fn eval<A: FloatOps>(lhs: Type, rhs: Type, fl: &A) -> (r: Option<Type>)
        ensures
            r == Self::result(lhs, rhs, fl),
    {
        match (lhs, rhs) {
            (Type::Int(l), Type::Int(r)) => Some(Type::Int(l.wrapping_mul(r))),
            (Type::Float(l), Type::Float(r)) => Some(Type::Float(fl.binary(ArithFn::Mul, l, r))),
            (Type::UInt(l), Type::UInt(r)) => Some(Type::UInt(l.wrapping_mul(r))),
            _ => None,
        }
    }
}

/// A quotient of two signed 32-bit numbers fits in 32 bits but for
/// `i32::MIN / -1`.
proof fn lemma_trunc_div_fits(l: i32, r: i32)
    requires
        r != 0,
    ensures
        l == 0 ==> trunc_div(l as int, r as int) == 0,
        (l == i32::MIN && r == -1) ==> trunc_div(l as int, r as int) > i32::MAX,
        !(l == i32::MIN && r == -1) ==> i32::MIN <= trunc_div(l as int, r as int) <= i32::MAX,
{
    let x = l as int;
    let d = r as int;
    if x >= 0 && d > 0 {
        vstd::arithmetic::div_mod::lemma_div_pos_is_pos(x, d);
        vstd::arithmetic::div_mod::lemma_div_nonincreasing(x, d);
        vstd::arithmetic::div_mod::lemma_div_basics(d);
    } else if x < 0 && d < 0 {
        vstd::arithmetic::div_mod::lemma_div_pos_is_pos(-x, -d);
        vstd::arithmetic::div_mod::lemma_div_nonincreasing(-x, -d);
        vstd::arithmetic::div_mod::lemma_div_basics(-x);
        if d < -1 {
            vstd::arithmetic::div_mod::lemma_div_is_ordered_by_denominator(-x, 2, -d);
            assert((-x) / 2 <= 0x4000_0000);
        }
    } else if x < 0 {
        vstd::arithmetic::div_mod::lemma_div_pos_is_pos(-x, d);
        vstd::arithmetic::div_mod::lemma_div_nonincreasing(-x, d);
    } else {
        vstd::arithmetic::div_mod::lemma_div_pos_is_pos(x, -d);
        vstd::arithmetic::div_mod::lemma_div_nonincreasing(x, -d);
        vstd::arithmetic::div_mod::lemma_div_basics(-d);
    }
}

impl BinOpKind for DivEval {
    open spec fn op() -> BinOp {
        BinOp::Div
    }

    fn kind() -> (r: BinOp) {
        BinOp::Div
    }
}

impl DivEval {
    /// The value of `lhs op rhs`.
    pub open spec fn result<A: FloatOps>(lhs: Type, rhs: Type, fl: &A) -> Option<Type> {
        match (lhs, rhs) {
            (Type::Int(l), Type::Int(r)) => if r == 0 || (l == i32::MIN && r == -1) {
                None
            } else {
                Some(Type::Int(trunc_div(l as int, r as int) as i32))
            },
            (Type::Float(l), Type::Float(r)) => Some(Type::Float(fl.binary_of(ArithFn::Div, l, r))),
            (Type::UInt(l), Type::UInt(r)) => if r == 0 {
                None
            } else {
                Some(Type::UInt((l / r) as u32))
            },
            _ => None,
        }
    }

    /// Applies the operator; see `result`.
    pub fn eval<A: FloatOps>(lhs: Type, rhs: Type, fl: &A) -> (r: Option<Type>)
        ensures
            r == Self::result(lhs, rhs, fl),
    {
        match (lhs, rhs) {
            (Type::Int(l), Type::Int(r)) => {
                proof {
                    if r != 0 {
                        lemma_trunc_div_fits(l, r);
                    }
                }
                match l.checked_div(r) {
                    Some(q) => Some(Type::Int(q)),
                    None => None,
                }
            },
            (Type::Float(l), Type::Float(r)) => Some(Type::Float(fl.binary(ArithFn::Div, l, r))),
            (Type::UInt(l), Type::UInt(r)) => if r == 0 {
                None
            } else {
                Some(Type::UInt(l / r))
            },
            _ => None,
        }
    }
}

/// `base` to the power `exp`, modulo 2^32.
pub fn wrapping_power(base: u32, exp: u32) -> (r: u32)
    ensures
        r == wrap_u32(pow(base as int, exp as nat)),
{
    let mut acc: u32 = 1;
    let mut i: u32 = 0;
    proof {
        reveal(pow);
    }
    while i < exp
        invariant
            i <= exp,
            acc == wrap_u32(pow(base as int, i as nat)),
        decreases exp - i,
    {
        proof {
            reveal(pow);
            let p = pow(base as int, i as nat);
            assert(pow(base as int, (i + 1) as nat) == base * p);
            vstd::arithmetic::div_mod::lemma_mul_mod_noop_right(base as int, p, 0x1_0000_0000);
        }
        acc = base.wrapping_mul(acc);
        i = i + 1;
    }
    acc
}

impl BinOpKind for PowEval {
    open spec fn op() -> BinOp {
        BinOp::Pow
    }

    fn kind() -> (r: BinOp) {
        BinOp::Pow
    }
}

impl PowEval {
    /// The value of `lhs op rhs`.
    pub open spec fn result<A: FloatOps>(lhs: Type, rhs: Type, fl: &A) -> Option<Type> {
        match (lhs, rhs) {
            (Type::Float(l), Type::Float(r)) => Some(Type::Float(fl.binary_of(ArithFn::Pow, l, r))),
            (Type::UInt(l), Type::UInt(r)) => Some(Type::UInt(wrap_u32(pow(l as int, r as nat)))),
            _ => None,
        }
    }

    /// Applies the operator; see `result`.
    pub fn eval<A: FloatOps>(lhs: Type, rhs: Type, fl: &A) -> (r: Option<Type>)
        ensures
            r == Self::result(lhs, rhs, fl),
    {
        match (lhs, rhs) {
            (Type::Float(l), Type::Float(r)) => Some(Type::Float(fl.binary(ArithFn::Pow, l, r))),
            (Type::UInt(l), Type::UInt(r)) => Some(Type::UInt(wrapping_power(l, r))),
            _ => None,
        }
    }
}

} // verus!
