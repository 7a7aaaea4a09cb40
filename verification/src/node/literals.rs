//! Random values.

use crate::node::base::{Type, TypeV};
use crate::node::chance::{
    draw_bool, draw_i32, draw_range_i32, draw_range_u32, draw_u32, draw_unit, spread, spread_value,
    unit_value,
};
use crate::node::ieee::{Float32, FloatOps};
use rand::rngs::StdRng;
use vstd::prelude::*;

verus! {

/// A type of values that can be drawn at random for a given tag.
pub trait Randomize: Sized {
    /// The tag of a value.
    spec fn tag_of(self) -> TypeV;

    /// A random value with the tag `rtype`.
    fn random<A: FloatOps>(rtype: TypeV, rng: &mut StdRng, fl: &A) -> (r: Self)
        ensures
            r.tag_of() == rtype,
    ;
}

impl Randomize for Type {
    open spec fn tag_of(self) -> TypeV {
        self.tag()
    }

    fn random<A: FloatOps>(rtype: TypeV, rng: &mut StdRng, fl: &A) -> (r: Type) {
        Type::random(rtype, rng, fl)
    }
}

impl Type {
    /// A random value of the type of `self`: any whole number, a real number
    /// in `[0, 1)`, or any truth value.
    pub fn rand<A: FloatOps>(&self, rng: &mut StdRng, fl: &A) -> (r: Type)
        ensures
            r.tag() == self.tag(),
            r is Float ==> exists|raw: u32| r == Type::Float(unit_value(raw, fl)),
    {
        Self::random(self.get_tag(), rng, fl)
    }

    /// A random signed number from `a` to `b`, both included.
    pub fn int_range(a: i32, b: i32, rng: &mut StdRng) -> (r: Type)
        requires
            a <= b,
        ensures
            r is Int,
            a <= r->Int_0 <= b,
    {
        Type::Int(draw_range_i32(rng, a, b))
    }

    /// A random real number between `a` and `b`: the point `a + u * (b - a)`
    /// for a number `u` drawn in `[0, 1)`.
    pub fn float_range<A: FloatOps>(a: Float32, b: Float32, rng: &mut StdRng, fl: &A) -> (r:
        Type)
        ensures
            exists|raw: u32| r == Type::Float(spread_value(a, b, unit_value(raw, fl), fl)),
    {
        let u = draw_unit(rng, fl);
        Type::Float(spread(a, b, u, fl))
    }

    /// A random unsigned number from `a` to `b`, both included.
    pub fn uint_range(a: u32, b: u32, rng: &mut StdRng) -> (r: Type)
        requires
            a <= b,
        ensures
            r is UInt,
            a <= r->UInt_0 <= b,
    {
        Type::UInt(draw_range_u32(rng, a, b))
    }

    /// A random truth value.
    pub fn bool_rand(rng: &mut StdRng) -> (r: Type)
        ensures
            r is Bool,
    {
        Type::Bool(draw_bool(rng))
    }

    /// A random value of type `rtype`: any whole number, a real number in
    /// `[0, 1)`, or any truth value.
    pub fn random<A: FloatOps>(rtype: TypeV, rng: &mut StdRng, fl: &A) -> (r: Type)
        ensures
            r.tag() == rtype,
            r is Float ==> exists|raw: u32| r == Type::Float(unit_value(raw, fl)),
    {
        match rtype {
            TypeV::Int => Type::Int(draw_i32(rng)),
            TypeV::Float => Type::Float(draw_unit(rng, fl)),
            TypeV::UInt => Type::UInt(draw_u32(rng)),
            TypeV::Bool => Type::Bool(draw_bool(rng)),
        }
    }
}

} // verus!
