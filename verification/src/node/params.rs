//! Generation and mutation settings, and the random source.

use crate::node::base::{Type, TypeV};
use crate::node::chance::{
    draw_at_least, draw_at_most, draw_below, draw_unit, entropy_rng, seeded_rng, spread_value,
    unit_value,
};
use crate::node::ieee::{ArithFn, Float32, FloatOps, MathFn, ONE_BITS, ZERO_BITS};
use rand::rngs::StdRng;
use vstd::prelude::*;

verus! {

/// Bit pattern of `0.05`, the default chance of ending a branch early.
pub const DEFAULT_TERMINATION_BITS: u32 = 0x3D4C_CCCD;

/// Bit pattern of `5.5`, the default steepness of the growth curve.
pub const DEFAULT_STEEPNESS_BITS: u32 = 0x40B0_0000;

/// Bit pattern of `0.7`, the default midpoint of the growth curve.
pub const DEFAULT_MIDPOINT_BITS: u32 = 0x3F33_3333;

/// What steers random generation and mutation, together with the random
/// source that every draw is taken from.
pub struct BuilderParams {
    /// No operator is placed at this depth or below it.
    pub max_depth: usize,
    /// The random source.
    pub randomizer: StdRng,
    /// The chance that a branch ends in a leaf before `max_depth`.
    pub termination_probability: Float32,
    /// The range of real constants, as (low, high).
    pub float_range: (Float32, Float32),
    /// The range of signed constants, as (low, high).
    pub int_range: (i32, i32),
    /// The range of unsigned constants, as (low, high).
    pub uint_range: (u32, u32),
    /// How sharply the chance to act on a node grows with depth.
    pub steepness: Float32,
    /// The scaled probability at which the chance to act is one half.
    pub midpoint: Float32,
}

/// The settings of `BuilderParams` without the random source: what the
/// outcome of generation and mutation depends on besides the draws.
pub struct Settings {
    pub max_depth: usize,
    pub termination_probability: Float32,
    pub float_range: (Float32, Float32),
    pub int_range: (i32, i32),
    pub uint_range: (u32, u32),
    pub steepness: Float32,
    pub midpoint: Float32,
}

impl Settings {
    /// Whether the settings can be used: the depth limit leaves room to
    /// count one level more, and no range of whole numbers is reversed.
    pub open spec fn wf(self) -> bool {
        &&& self.max_depth < usize::MAX
        &&& self.int_range.0 <= self.int_range.1
        &&& self.uint_range.0 <= self.uint_range.1
    }

    /// Whether `v` is a constant of type `rtype` that the settings allow: a
    /// whole number within its range, a real number at a point of its range
    /// that a unit number marks, or a truth value.
    pub open spec fn allows<A: FloatOps>(self, v: Type, rtype: TypeV, fl: &A) -> bool {
        match rtype {
            TypeV::Int => v is Int && self.int_range.0 <= v->Int_0 <= self.int_range.1,
            TypeV::UInt => v is UInt && self.uint_range.0 <= v->UInt_0 <= self.uint_range.1,
            TypeV::Float => exists|raw: u32|
                v == Type::Float(
                    spread_value(
                        self.float_range.0,
                        self.float_range.1,
                        #[trigger] unit_value(raw, fl),
                        fl,
                    ),
                ),
            TypeV::Bool => v is Bool,
        }
    }

    /// The logistic growth law: with `s = 2^depth * base`, the value
    /// `1 / (1 + e^(-steepness * (s - midpoint)))`.
    pub open spec fn growth<A: FloatOps>(self, base: Float32, depth: nat, fl: &A) -> Float32 {
        let s = fl.binary_of(ArithFn::Mul, Float32::pow2_value(depth), base);
        let x = fl.binary_of(
            ArithFn::Mul,
            self.steepness.neg_value(),
            fl.binary_of(ArithFn::Sub, s, self.midpoint),
        );
        let one = Float32 { bits: ONE_BITS };
        fl.binary_of(ArithFn::Div, one, fl.binary_of(ArithFn::Add, one, fl.unary_of(MathFn::Exp, x)))
    }

    /// The chance to act on a node at `depth`: the growth law above
    /// `max_depth`, and zero from `max_depth` on.
    pub open spec fn mut_prob<A: FloatOps>(self, base: Float32, depth: nat, fl: &A) -> Float32 {
        if depth >= self.max_depth {
            Float32 { bits: ZERO_BITS }
        } else {
            self.growth(base, depth, fl)
        }
    }
}

impl BuilderParams {
    /// The settings without the random source.
    pub open spec fn settings(self) -> Settings {
        Settings {
            max_depth: self.max_depth,
            termination_probability: self.termination_probability,
            float_range: self.float_range,
            int_range: self.int_range,
            uint_range: self.uint_range,
            steepness: self.steepness,
            midpoint: self.midpoint,
        }
    }

    /// Whether the settings can be used; see `Settings::wf`.
    pub open spec fn wf(self) -> bool {
        self.settings().wf()
    }

    /// Whether two values differ at most in the state of the random source.
    pub open spec fn same_settings(self, other: BuilderParams) -> bool {
        self.settings() == other.settings()
    }

    /// The default settings.
    pub open spec fn is_default(self) -> bool {
        &&& self.max_depth == 10
        &&& self.termination_probability.bits == DEFAULT_TERMINATION_BITS
        &&& self.float_range == (Float32 { bits: ZERO_BITS }, Float32 { bits: ONE_BITS })
        &&& self.int_range == (-100i32, 100i32)
        &&& self.uint_range == (0u32, 100u32)
        &&& self.steepness.bits == DEFAULT_STEEPNESS_BITS
        &&& self.midpoint.bits == DEFAULT_MIDPOINT_BITS
    }

    /// The chance to act on a node at `depth`; see `Settings::mut_prob`.
    pub open spec fn mut_prob<A: FloatOps>(self, base: Float32, depth: nat, fl: &A) -> Float32 {
        self.settings().mut_prob(base, depth, fl)
    }

    /// Whether the settings allow the constant `v` for the type `rtype`; see
    /// `Settings::allows`.
    pub open spec fn allows<A: FloatOps>(self, v: Type, rtype: TypeV, fl: &A) -> bool {
        self.settings().allows(v, rtype, fl)
    }

    /// Whether the settings can be used.
    pub fn is_wf(&self) -> (r: bool)
        ensures
            r == self.wf(),
    {
        self.max_depth < usize::MAX && self.int_range.0 <= self.int_range.1 && self.uint_range.0
            <= self.uint_range.1
    }

    /// Default settings over a generator seeded by the operating system.
    /// Where the operating system has no entropy to give, the generator
    /// starts from the seed 0.
    pub fn new() -> (r: BuilderParams)
        ensures
            r.is_default(),
            r.wf(),
    {
        BuilderParams {
            max_depth: 10,
            termination_probability: Float32::new(DEFAULT_TERMINATION_BITS),
            float_range: (Float32::zero(), Float32::one()),
            int_range: (-100, 100),
            uint_range: (0, 100),
            randomizer: match entropy_rng() {
                Some(rng) => rng,
                None => seeded_rng(0),
            },
            steepness: Float32::new(DEFAULT_STEEPNESS_BITS),
            midpoint: Float32::new(DEFAULT_MIDPOINT_BITS),
        }
    }

    /// Sets the depth limit.
    pub fn max_depth(self, val: usize) -> (r: BuilderParams)
        requires
            val < usize::MAX,
        ensures
            r.settings() == (Settings { max_depth: val, ..self.settings() }),
    {
        let mut out = self;
        out.max_depth = val;
        out
    }

    /// Sets the chance that a branch ends in a leaf early.
    pub fn termination_probability(self, val: Float32) -> (r: BuilderParams)
        ensures
            r.settings() == (Settings { termination_probability: val, ..self.settings() }),
    {
        let mut out = self;
        out.termination_probability = val;
        out
    }

    /// Sets the range of real constants.
    pub fn float_range(self, a: Float32, b: Float32) -> (r: BuilderParams)
        ensures
            r.settings() == (Settings { float_range: (a, b), ..self.settings() }),
    {
        let mut out = self;
        out.float_range = (a, b);
        out
    }

    /// Sets the range of signed constants.
    pub fn int_range(self, a: i32, b: i32) -> (r: BuilderParams)
        requires
            a <= b,
        ensures
            r.settings() == (Settings { int_range: (a, b), ..self.settings() }),
    {
        let mut out = self;
        out.int_range = (a, b);
        out
    }

    /// Sets the range of unsigned constants.
    pub fn uint_range(self, a: u32, b: u32) -> (r: BuilderParams)
        requires
            a <= b,
        ensures
            r.settings() == (Settings { uint_range: (a, b), ..self.settings() }),
    {
        let mut out = self;
        out.uint_range = (a, b);
        out
    }

    /// Sets the coefficients of the growth law.
    pub fn growth_curve(self, steepness: Float32, midpoint: Float32) -> (r: BuilderParams)
        ensures
            r.settings() == (Settings { steepness, midpoint, ..self.settings() }),
    {
        let mut out = self;
        out.steepness = steepness;
        out.midpoint = midpoint;
        out
    }

    /// Sets the depth limit.
    pub fn set_max_depth(&mut self, val: usize)
        requires
            val < usize::MAX,
        ensures
            final(self).settings() == (Settings { max_depth: val, ..old(self).settings() }),
    {
        self.max_depth = val;
    }

    /// Sets the range of real constants.
    pub fn set_float_range(&mut self, a: Float32, b: Float32)
        ensures
            final(self).settings() == (Settings { float_range: (a, b), ..old(self).settings() }),
    {
        self.float_range = (a, b);
    }

    /// Sets the range of signed constants.
    pub fn set_int_range(&mut self, a: i32, b: i32)
        requires
            a <= b,
        ensures
            final(self).settings() == (Settings { int_range: (a, b), ..old(self).settings() }),
    {
        self.int_range = (a, b);
    }

    /// Sets the range of unsigned constants.
    pub fn set_uint_range(&mut self, a: u32, b: u32)
        requires
            a <= b,
        ensures
            final(self).settings() == (Settings { uint_range: (a, b), ..old(self).settings() }),
    {
        self.uint_range = (a, b);
    }

    /// Sets the chance that a branch ends in a leaf early.
    pub fn set_termination_probability(&mut self, val: Float32)
        ensures
            final(self).settings() == (Settings {
                termination_probability: val,
                ..old(self).settings()
            }),
    {
        self.termination_probability = val;
    }

    /// Restarts the random source from `seed`, so that the draws that follow
    /// repeat from run to run.
    pub fn set_seed(&mut self, seed: u64)
        ensures
            final(self).same_settings(*old(self)),
    {
        self.randomizer = seeded_rng(seed);
    }

    /// The chance to act on a node at `depth`, from the base probability.
    pub fn get_mut_prob<A: FloatOps>(&self, base_prob: Float32, depth: usize, fl: &A) -> (r: Float32)
        ensures
            r == self.mut_prob(base_prob, depth as nat, fl),
    {
        if depth >= self.max_depth {
            Float32::zero()
        } else {
            let s = fl.binary(ArithFn::Mul, Float32::pow2(depth), base_prob);
            let x = fl.binary(
                ArithFn::Mul,
                self.steepness.neg(),
                fl.binary(ArithFn::Sub, s, self.midpoint),
            );
            let one = Float32::one();
            fl.binary(ArithFn::Div, one, fl.binary(ArithFn::Add, one, fl.unary(MathFn::Exp, x)))
        }
    }

    /// Draws a constant of type `rtype` within the range set for that type.
    pub fn literal<A: FloatOps>(&mut self, rtype: TypeV, fl: &A) -> (r: Type)
        requires
            old(self).wf(),
        ensures
            final(self).same_settings(*old(self)),
            old(self).allows(r, rtype, fl),
            r.tag() == rtype,
    {
        match rtype {
            TypeV::Int => Type::int_range(self.int_range.0, self.int_range.1, &mut self.randomizer),
            TypeV::UInt => Type::uint_range(
                self.uint_range.0,
                self.uint_range.1,
                &mut self.randomizer,
            ),
            TypeV::Float => Type::float_range(
                self.float_range.0,
                self.float_range.1,
                &mut self.randomizer,
                fl,
            ),
            TypeV::Bool => Type::bool_rand(&mut self.randomizer),
        }
    }

    /// Decides by a draw whether an event of chance `p` takes place: it does
    /// when a fresh number in `[0, 1)` lies below `p`.
    pub fn happens<A: FloatOps>(&mut self, p: Float32, fl: &A) -> (r: bool)
        ensures
            final(self).same_settings(*old(self)),
            draw_below(r, p, fl),
    {
        let u = draw_unit(&mut self.randomizer, fl);
        u.lt(p)
    }

    /// Draws a fresh number in `[0, 1)` and tells whether it is at most `p`.
    pub fn draws_at_most<A: FloatOps>(&mut self, p: Float32, fl: &A) -> (r: bool)
        ensures
            final(self).same_settings(*old(self)),
            draw_at_most(r, p, fl),
    {
        let u = draw_unit(&mut self.randomizer, fl);
        u.le(p)
    }

    /// Draws a fresh number in `[0, 1)` and tells whether it is at least `p`.
    pub fn draws_at_least<A: FloatOps>(&mut self, p: Float32, fl: &A) -> (r: bool)
        ensures
            final(self).same_settings(*old(self)),
            draw_at_least(r, p, fl),
    {
        let u = draw_unit(&mut self.randomizer, fl);
        u.ge(p)
    }
}

} // verus!
