//! The random source and the draws the library takes from it.
//!
//! The generator is `rand`'s `StdRng`. The functions in the first part of
//! this file each make one call into `rand`; what they state of the outcome
//! is taken on trust. The functions in the second part turn random bits
//! into the numbers that the library works with.

use crate::node::ieee::{ArithFn, Float32, FloatOps, UNIT_STEP_BITS};
use rand::distributions::{Distribution, WeightedError, WeightedIndex};
use rand::rngs::{OsRng, StdRng};
use rand::seq::SliceRandom;
use rand::{Rng, SeedableRng};
use vstd::prelude::*;

verus! {

/// `rand::rngs::StdRng`, the generator. Nothing is known of its state.
#[verifier::external_type_specification]
#[verifier::external_body]
pub struct ExStdRng(StdRng);

/// `rand::distributions::WeightedError`, the reason why no `WeightedIndex`
/// was built.
#[verifier::external_type_specification]
#[verifier::external_body]
pub struct ExWeightedError(WeightedError);

/// A `rand::distributions::WeightedIndex` over `usize` weights: a
/// distribution over the indices of its weights. All that is known of it is
/// the weights it was built from.
#[verifier::external_body]
pub struct WeightedPicker {
    inner: WeightedIndex<usize>,
}

/// The weights that a picker was built from, in order.
pub uninterp spec fn weights_of(d: WeightedPicker) -> Seq<usize>;

/// Sum of a sequence of weights.
pub open spec fn total_weight(w: Seq<usize>) -> nat
    decreases w.len(),
{
    if w.len() == 0 {
        0
    } else {
        total_weight(w.drop_last()) + w.last() as nat
    }
}

/// `StdRng::seed_from_u64`: a generator whose stream is fixed by `seed`.
/// Nothing is claimed of the stream.
#[verifier::external_body]
pub(crate) fn seeded_rng(seed: u64) -> StdRng {
    StdRng::seed_from_u64(seed)
}

/// `StdRng::from_rng` on `OsRng`: a generator seeded by the operating
/// system, or nothing where the operating system has no entropy to give.
/// Nothing is claimed of which of the two comes back.
#[verifier::external_body]
pub(crate) fn entropy_rng() -> Option<StdRng> {
    match StdRng::from_rng(OsRng) {
        Ok(rng) => Some(rng),
        Err(_) => None,
    }
}

/// `Rng::gen::<u32>`: 32 random bits. Nothing is claimed of them.
#[verifier::external_body]
pub(crate) fn draw_u32(rng: &mut StdRng) -> u32 {
    rng.gen::<u32>()
}

/// `Rng::gen::<i32>`: a random signed number. Nothing is claimed of it.
#[verifier::external_body]
pub(crate) fn draw_i32(rng: &mut StdRng) -> i32 {
    rng.gen::<i32>()
}

/// `Rng::gen::<bool>`: a random truth value. Nothing is claimed of it.
#[verifier::external_body]
pub(crate) fn draw_bool(rng: &mut StdRng) -> bool {
    rng.gen::<bool>()
}

/// `Rng::gen_range(lo..=hi)` on `i32`. The call panics on a reversed range,
/// which `requires` leaves out; the outcome lies within the bounds.
#[verifier::external_body]
pub(crate) fn draw_range_i32(rng: &mut StdRng, lo: i32, hi: i32) -> (r: i32)
    requires
        lo <= hi,
    ensures
        lo <= r <= hi,
{
    rng.gen_range(lo..=hi)
}

/// `Rng::gen_range(lo..=hi)` on `u32`. The call panics on a reversed range,
/// which `requires` leaves out; the outcome lies within the bounds.
#[verifier::external_body]
pub(crate) fn draw_range_u32(rng: &mut StdRng, lo: u32, hi: u32) -> (r: u32)
    requires
        lo <= hi,
    ensures
        lo <= r <= hi,
{
    rng.gen_range(lo..=hi)
}

/// `SliceRandom::choose`: one element of the slice, or nothing when the
/// slice is empty.
#[verifier::external_body]
pub(crate) fn pick_one<'a, T>(items: &'a Vec<T>, rng: &mut StdRng) -> (r: Option<&'a T>)
    ensures
        items@.len() == 0 ==> r is None,
        items@.len() > 0 ==> r is Some && items@.contains(*r->0),
{
    items.choose(rng)
}

/// `WeightedIndex::new` on `usize` weights. It fails when there is no
/// weight or when all weights are zero, and otherwise keeps the weights. The
/// call adds the weights up, so their sum has to fit.
#[verifier::external_body]
pub(crate) fn weighted_index(weights: &Vec<usize>) -> (r: Result<WeightedPicker, WeightedError>)
    requires
        total_weight(weights@) <= usize::MAX,
    ensures
        (r is Ok) == (weights@.len() > 0 && total_weight(weights@) > 0),
        r is Ok ==> weights_of(r->Ok_0) == weights@,
{
    match WeightedIndex::new(weights) {
        Ok(inner) => Ok(WeightedPicker { inner }),
        Err(e) => Err(e),
    }
}

/// `WeightedIndex::sample`: the index of one of the weights, never of a zero
/// weight.
#[verifier::external_body]
pub(crate) fn weighted_sample(d: &WeightedPicker, rng: &mut StdRng) -> (r: usize)
    ensures
        r < weights_of(*d).len(),
        weights_of(*d)[r as int] > 0,
{
    d.inner.sample(rng)
}

/// The number in `[0, 1)` that 32 random bits stand for: their upper 24
/// bits, counted in steps of 2 to the power -24.
pub open spec fn unit_value<A: FloatOps>(raw: u32, fl: &A) -> Float32 {
    fl.binary_of(ArithFn::Mul, Float32 { bits: UNIT_STEP_BITS }, fl.count_of((raw / 256) as u64))
}

/// The point of the range from `lo` to `hi` that the unit number `u` marks:
/// `lo + u * (hi - lo)`.
pub open spec fn spread_value<A: FloatOps>(lo: Float32, hi: Float32, u: Float32, fl: &A) -> Float32 {
    fl.binary_of(ArithFn::Add, lo, fl.binary_of(ArithFn::Mul, u, fl.binary_of(ArithFn::Sub, hi, lo)))
}

/// Whether a draw can come out with `below` telling whether the number
/// drawn lies below `p`.
pub open spec fn draw_below<A: FloatOps>(below: bool, p: Float32, fl: &A) -> bool {
    exists|raw: u32| below == (#[trigger] unit_value(raw, fl)).lt_value(p)
}

/// Whether a draw can come out with `within` telling whether the number
/// drawn is at most `p`.
pub open spec fn draw_at_most<A: FloatOps>(within: bool, p: Float32, fl: &A) -> bool {
    exists|raw: u32| within == (#[trigger] unit_value(raw, fl)).le_value(p)
}

/// Whether a draw can come out with `reached` telling whether the number
/// drawn is at least `p`.
pub open spec fn draw_at_least<A: FloatOps>(reached: bool, p: Float32, fl: &A) -> bool {
    exists|raw: u32| reached == p.le_value(#[trigger] unit_value(raw, fl))
}

/// Turns 32 random bits into a number in `[0, 1)`.
pub fn unit_from<A: FloatOps>(raw: u32, fl: &A) -> (r: Float32)
    ensures
        r == unit_value(raw, fl),
{
    let steps: u32 = raw / 256;
    fl.binary(ArithFn::Mul, Float32::new(UNIT_STEP_BITS), fl.from_count(steps as u64))
}

/// Moves a unit number into the range from `lo` to `hi`.
pub fn spread<A: FloatOps>(lo: Float32, hi: Float32, u: Float32, fl: &A) -> (r: Float32)
    ensures
        r == spread_value(lo, hi, u, fl),
{
    fl.binary(ArithFn::Add, lo, fl.binary(ArithFn::Mul, u, fl.binary(ArithFn::Sub, hi, lo)))
}

/// Draws a number in `[0, 1)`.
pub fn draw_unit<A: FloatOps>(rng: &mut StdRng, fl: &A) -> (r: Float32)
    ensures
        exists|raw: u32| r == unit_value(raw, fl),
{
    let raw = draw_u32(rng);
    unit_from(raw, fl)
}

} // verus!
