//! How a training run goes on from one generation to the next: counts of
//! attempts, the test for stopping, and the watch on a best fitness that
//! no longer changes.

use crate::algorithm::expr_tree::Error;
use crate::node::ieee::{ArithFn, Float32, FloatOps, ONE_BITS, ZERO_BITS};
use vstd::prelude::*;

verus! {

/// The share `num / den` of `count`, rounded down, and the largest machine
/// word where that does not fit.
pub open spec fn share_of(count: nat, num: nat, den: nat) -> nat {
    if (count * num) / den > usize::MAX {
        usize::MAX as nat
    } else {
        (count * num) / den
    }
}

/// Computes the share `num / den` of `count`.
pub fn share(count: usize, num: usize, den: usize) -> (r: usize)
    requires
        den > 0,
    ensures
        r == share_of(count as nat, num as nat, den as nat),
{
    assert(count as u128 * num as u128 <= u128::MAX) by (nonlinear_arith)
        requires
            count as u128 <= 0xFFFF_FFFF_FFFF_FFFF,
            num as u128 <= 0xFFFF_FFFF_FFFF_FFFF,
    ;
    let product: u128 = count as u128 * num as u128;
    let quotient: u128 = product / den as u128;
    if quotient > usize::MAX as u128 {
        usize::MAX
    } else {
        quotient as usize
    }
}

/// Whether `value` lies within the relative distance `delta` of `mark`:
/// `|mark - value| / max(value, 1) <= delta`.
pub open spec fn within_delta<A: FloatOps>(
    mark: Float32,
    value: Float32,
    delta: Float32,
    fl: &A,
) -> bool {
    let one = Float32 { bits: ONE_BITS };
    let scale = if one.lt_value(value) {
        value
    } else {
        one
    };
    fl.binary_of(ArithFn::Div, fl.binary_of(ArithFn::Sub, mark, value).abs_value(), scale).le_value(
        delta,
    )
}

/// Whether the best fitness counts as unchanged against the fitness marked
/// at the last change: both are known, and the average error and the share
/// of failed rows each lie within `delta` of the mark.
pub open spec fn unchanged_of<A: FloatOps>(mark: Error, best: Error, delta: Float32, fl: &A) -> bool {
    match (mark, best) {
        (Error::Scored { real: r0, nan: n0 }, Error::Scored { real: r1, nan: n1 }) => within_delta(
            r0,
            r1,
            delta,
            fl,
        ) && within_delta(n0, n1, delta, fl),
        _ => false,
    }
}

/// Whether training may stop on the best fitness: its average error is at
/// most `ceiling` and no row failed.
pub open spec fn good_enough_of(best: Error, ceiling: Float32) -> bool {
    match best {
        Error::Scored { real: average, nan: failed } => average.le_value(ceiling) && failed.eq_value(
            Float32 { bits: ZERO_BITS },
        ),
        Error::Uncalculated => false,
    }
}

/// The mark and the count of generations without change after a generation
/// whose best fitness is `best`: the count goes up where the best fitness is
/// unchanged against the mark; otherwise `best` is the new mark, and the
/// count starts again unless there was no mark yet.
pub open spec fn stagnation_after<A: FloatOps>(
    mark: Error,
    count: usize,
    best: Error,
    delta: Float32,
    fl: &A,
) -> (Error, usize) {
    if best is Uncalculated {
        (mark, count)
    } else if mark is Uncalculated {
        (best, count)
    } else if unchanged_of(mark, best, delta, fl) {
        (
            mark,
            if count < usize::MAX {
                (count + 1) as usize
            } else {
                count
            },
        )
    } else {
        (best, 0)
    }
}

fn is_within_delta<A: FloatOps>(mark: Float32, value: Float32, delta: Float32, fl: &A) -> (r: bool)
    ensures
        r == within_delta(mark, value, delta, fl),
{
    let one = Float32::one();
    let scale = if one.lt(value) {
        value
    } else {
        one
    };
    fl.binary(ArithFn::Div, fl.binary(ArithFn::Sub, mark, value).abs(), scale).le(delta)
}

/// Whether the best fitness counts as unchanged against the mark.
pub fn unchanged<A: FloatOps>(mark: Error, best: Error, delta: Float32, fl: &A) -> (r: bool)
    ensures
        r == unchanged_of(mark, best, delta, fl),
{
    match (mark, best) {
        (Error::Scored { real: r0, nan: n0 }, Error::Scored { real: r1, nan: n1 }) => {
            is_within_delta(r0, r1, delta, fl) && is_within_delta(n0, n1, delta, fl)
        },
        _ => false,
    }
}

/// Whether training may stop on the best fitness.
pub fn good_enough(best: Error, ceiling: Float32) -> (r: bool)
    ensures
        r == good_enough_of(best, ceiling),
{
    match best {
        Error::Scored { real: average, nan: failed } => average.le(ceiling) && failed.equals(
            Float32::zero(),
        ),
        Error::Uncalculated => false,
    }
}

/// Follows the best fitness from one generation to the next.
pub fn track_stagnation<A: FloatOps>(
    mark: Error,
    count: usize,
    best: Error,
    delta: Float32,
    fl: &A,
) -> (r: (Error, usize))
    ensures
        r == stagnation_after(mark, count, best, delta, fl),
{
    match (mark, best) {
        (_, Error::Uncalculated) => (mark, count),
        (Error::Uncalculated, _) => (best, count),
        _ => {
            if unchanged(mark, best, delta, fl) {
                (
                    mark,
                    if count < usize::MAX {
                        count + 1
                    } else {
                        count
                    },
                )
            } else {
                (best, 0)
            }
        },
    }
}

/// How far a training run has come: the fitness marked at the last change,
/// the number of generations without change since, whether training may
/// stop, and whether the last generation ended in a mass extinction.
#[derive(Clone, Copy, Debug, PartialEq, Eq, Structural)]
pub struct Progress {
    pub mark: Error,
    pub stagnant: usize,
    pub stop: bool,
    pub extinction: bool,
}

/// The progress after a generation whose best fitness is `best`. Training
/// may stop where `best` is good enough; mark and count then stay. Otherwise
/// the best fitness is followed, see `stagnation_after`, and a count that
/// reaches `extinction_th` calls for a mass extinction and starts again.
pub open spec fn progress_after<A: FloatOps>(
    progress: Progress,
    best: Error,
    ceiling: Float32,
    delta: Float32,
    extinction_th: usize,
    fl: &A,
) -> Progress {
    if good_enough_of(best, ceiling) {
        Progress { mark: progress.mark, stagnant: progress.stagnant, stop: true, extinction: false }
    } else {
        let followed = stagnation_after(progress.mark, progress.stagnant, best, delta, fl);
        if followed.1 >= extinction_th {
            Progress { mark: followed.0, stagnant: 0, stop: false, extinction: true }
        } else {
            Progress { mark: followed.0, stagnant: followed.1, stop: false, extinction: false }
        }
    }
}

/// Works out the progress after a generation.
pub fn advance<A: FloatOps>(
    progress: Progress,
    best: Error,
    ceiling: Float32,
    delta: Float32,
    extinction_th: usize,
    fl: &A,
) -> (r: Progress)
    ensures
        r == progress_after(progress, best, ceiling, delta, extinction_th, fl),
{
    if good_enough(best, ceiling) {
        Progress { mark: progress.mark, stagnant: progress.stagnant, stop: true, extinction: false }
    } else {
        let followed = track_stagnation(progress.mark, progress.stagnant, best, delta, fl);
        if followed.1 >= extinction_th {
            Progress { mark: followed.0, stagnant: 0, stop: false, extinction: true }
        } else {
            Progress { mark: followed.0, stagnant: followed.1, stop: false, extinction: false }
        }
    }
}

} // verus!
