//! The functions of one real argument that are decided on the bit pattern.

use crate::node::ieee::{Float32, ONE_BITS, ZERO_BITS};
use vstd::prelude::*;

verus! {

/// The step function: `1.0` from zero upwards, `0.0` below and on NaN.
pub open spec fn heaviside_of(x: Float32) -> Float32 {
    if (Float32 { bits: ZERO_BITS }).le_value(x) {
        Float32 { bits: ONE_BITS }
    } else {
        Float32 { bits: ZERO_BITS }
    }
}

/// The rectifier: `x` from zero upwards, `0.0` below and on NaN.
pub open spec fn relu_of(x: Float32) -> Float32 {
    if (Float32 { bits: ZERO_BITS }).le_value(x) {
        x
    } else {
        Float32 { bits: ZERO_BITS }
    }
}

/// The step function.
pub fn heaviside(x: Float32) -> (r: Float32)
    ensures
        r == heaviside_of(x),
{
    if x.ge(Float32::zero()) {
        Float32::one()
    } else {
        Float32::zero()
    }
}

/// The rectifier.
pub fn relu(x: Float32) -> (r: Float32)
    ensures
        r == relu_of(x),
{
    if x.ge(Float32::zero()) {
        x
    } else {
        Float32::zero()
    }
}

} // verus!
