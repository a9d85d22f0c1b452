//! What a propagator settles before any formula is applied: whether an
//! orbit is near the earth or in deep space, in which band its perigee
//! lies, and how the iteration of Kepler's equation goes on and ends.

use crate::binary64::{
    is_exactly, is_nearest, lemma_is_exactly, lemma_is_nearest, lemma_powers_of_two, Binary64,
};
use crate::gp::number;
use vstd::prelude::*;

verus! {

/// The bits of 2π / 225, the mean motion in radians a minute of an orbit
/// that takes 225 minutes.
pub const NEAR_EARTH_MEAN_MOTION: u64 = 0x3f9c_9871_03b7_61f5;

/// The bits of the number that stands for 2π in the format.
pub const TWO_PI: u64 = 0x4019_21fb_5444_2d18;

/// The bits of 98, a height of the perigee in kilometres.
pub const LOW_PERIGEE: u64 = 0x4058_8000_0000_0000;

/// The bits of 156, a height of the perigee in kilometres.
pub const MIDDLE_PERIGEE: u64 = 0x4063_8000_0000_0000;

/// The bits of the number nearest to 10^-12: a correction of Kepler's
/// equation below this ends the iteration.
pub const KEPLER_TOLERANCE: u64 = 0x3d71_9799_812d_ea11;

/// The bits of the number nearest to 0.95, the largest correction that is
/// applied in one step.
pub const KEPLER_LIMIT: u64 = 0x3fee_6666_6666_6666;

/// The bits of the number nearest to -0.95.
pub const KEPLER_LOWER_LIMIT: u64 = 0xbfee_6666_6666_6666;

/// The largest number of corrections that are applied.
pub const KEPLER_ITERATIONS: u32 = 10;

/// The two formulations of the model.
#[derive(Debug, Clone, Copy, PartialEq, Eq, Structural)]
pub enum Regime {
    /// An orbit that takes less than 225 minutes.
    NearEarth,
    /// An orbit that takes 225 minutes or more.
    DeepSpace,
}

/// The bands of the height of the perigee, on which the parameter `s` of
/// the drag depends.
#[derive(Debug, Clone, Copy, PartialEq, Eq, Structural)]
pub enum PerigeeBand {
    /// Below 98 km.
    Low,
    /// From 98 km up to, not including, 156 km.
    Middle,
    /// 156 km or more.
    High,
}

/// Whether a mean motion in radians a minute is that of an orbit near the
/// earth: it is above 2π / 225.
pub open spec fn is_near_earth(mean_motion: Binary64) -> bool {
    number(NEAR_EARTH_MEAN_MOTION).less(mean_motion)
}

/// Chooses the formulation for an orbit with the given mean motion, in
/// radians a minute.
pub fn regime(mean_motion: Binary64) -> (r: Regime)
    ensures
        r == if is_near_earth(mean_motion) {
            Regime::NearEarth
        } else {
            Regime::DeepSpace
        },
{
    if mean_motion.gt(Binary64::from_bits(NEAR_EARTH_MEAN_MOTION)) {
        Regime::NearEarth
    } else {
        Regime::DeepSpace
    }
}

/// Finds the band of a perigee at the given height in kilometres.
pub fn perigee_band(height: Binary64) -> (r: PerigeeBand)
    ensures
        r == if height.less(number(LOW_PERIGEE)) {
            PerigeeBand::Low
        } else if height.less(number(MIDDLE_PERIGEE)) {
            PerigeeBand::Middle
        } else {
            PerigeeBand::High
        },
{
    if height.lt(Binary64::from_bits(LOW_PERIGEE)) {
        PerigeeBand::Low
    } else if height.lt(Binary64::from_bits(MIDDLE_PERIGEE)) {
        PerigeeBand::Middle
    } else {
        PerigeeBand::High
    }
}

/// Whether a correction of Kepler's equation is so small that the
/// iteration ends: its size is below 10^-12.
pub open spec fn is_converged(delta: Binary64) -> bool {
    !delta.nan() && -number(KEPLER_TOLERANCE).units() < delta.units() < number(
        KEPLER_TOLERANCE,
    ).units()
}

/// The correction that is applied for `delta`: `delta` itself, but not
/// less than -0.95 and not more than 0.95.
pub open spec fn limited(delta: Binary64) -> Binary64 {
    if delta.less(number(KEPLER_LOWER_LIMIT)) {
        number(KEPLER_LOWER_LIMIT)
    } else if number(KEPLER_LIMIT).less(delta) {
        number(KEPLER_LIMIT)
    } else {
        delta
    }
}

/// What to do with the correction `delta` that Kepler's equation proposes
/// when `corrections` corrections have been applied: nothing where ten
/// have been applied or the iteration has converged, else the correction
/// to apply.
pub open spec fn kepler_step_of(corrections: int, delta: Binary64) -> Option<Binary64> {
    if corrections >= KEPLER_ITERATIONS || is_converged(delta) {
        None
    } else {
        Some(limited(delta))
    }
}

/// Decides one step of the iteration of Kepler's equation. The caller
/// proposes the correction `delta` of Newton's method, having applied
/// `corrections` corrections before. The iteration ends, with `None`,
/// where ten corrections have been applied or `delta` is below 10^-12 in
/// size; else the caller applies what comes back, which is `delta` cut to
/// the range from -0.95 to 0.95, and proposes again.
pub fn kepler_step(corrections: u32, delta: Binary64) -> (r: Option<Binary64>)
    ensures
        r == kepler_step_of(corrections as int, delta),
{
    if corrections >= KEPLER_ITERATIONS || delta.abs().lt(Binary64::from_bits(KEPLER_TOLERANCE)) {
        None
    } else if delta.lt(Binary64::from_bits(KEPLER_LOWER_LIMIT)) {
        Some(Binary64::from_bits(KEPLER_LOWER_LIMIT))
    } else if delta.gt(Binary64::from_bits(KEPLER_LIMIT)) {
        Some(Binary64::from_bits(KEPLER_LIMIT))
    } else {
        Some(delta)
    }
}

/// The corrections that an iteration applies, one after the other, where
/// `done` corrections were applied before and the equation proposes the
/// corrections `deltas` in turn.
pub open spec fn applied_corrections(deltas: Seq<Binary64>, done: int) -> Seq<Binary64>
    decreases deltas.len(),
{
    if deltas.len() == 0 {
        Seq::empty()
    } else {
        match kepler_step_of(done, deltas[0]) {
            None => Seq::empty(),
            Some(by) => seq![by] + applied_corrections(deltas.drop_first(), done + 1),
        }
    }
}

/// Every correction that is applied is a number from -0.95 to 0.95,
/// whatever number was proposed.
pub proof fn lemma_corrections_are_limited(delta: Binary64)
    requires
        !delta.nan(),
    ensures
        number(KEPLER_LOWER_LIMIT).at_most(limited(delta)),
        limited(delta).at_most(number(KEPLER_LIMIT)),
{
    crate::binary64::lemma_magnitude_zero(number(KEPLER_LIMIT).low());
    crate::binary64::lemma_magnitude_zero(number(KEPLER_LOWER_LIMIT).low());
}

/// An iteration that has applied `done` corrections applies at most as
/// many more as are left of ten. Each is the proposed correction cut to
/// the range from -0.95 to 0.95, and was proposed when the iteration had
/// not converged; and where the iteration ends before ten corrections are
/// applied and before the proposals end, it ends on the first proposal that
/// is below 10^-12 in size.
pub proof fn lemma_kepler_iteration_from(deltas: Seq<Binary64>, done: int)
    requires
        0 <= done,
    ensures
        applied_corrections(deltas, done).len() <= deltas.len(),
        done + applied_corrections(deltas, done).len() <= KEPLER_ITERATIONS || (done
            > KEPLER_ITERATIONS && applied_corrections(deltas, done).len() == 0),
        forall|i: int|
            0 <= i < applied_corrections(deltas, done).len() ==> applied_corrections(
                deltas,
                done,
            )[i] == limited(#[trigger] deltas[i]) && !is_converged(deltas[i]),
        ({
            let n = applied_corrections(deltas, done).len() as int;
            done + n < KEPLER_ITERATIONS && n < deltas.len() ==> is_converged(deltas[n])
        }),
    decreases deltas.len(),
{
    if deltas.len() > 0 && kepler_step_of(done, deltas[0]) is Some {
        let rest = deltas.drop_first();
        lemma_kepler_iteration_from(rest, done + 1);
        let tail = applied_corrections(rest, done + 1);
        let all = applied_corrections(deltas, done);
        assert(all =~= seq![limited(deltas[0])] + tail);
        assert forall|i: int| 0 <= i < all.len() implies all[i] == limited(#[trigger] deltas[i])
            && !is_converged(deltas[i]) by {
            if i > 0 {
                assert(all[i] == tail[i - 1]);
                assert(deltas[i] == rest[i - 1]);
            }
        }
        let n = all.len() as int;
        if done + n < KEPLER_ITERATIONS && n < deltas.len() {
            assert(deltas[n] == rest[n - 1]);
        }
    }
}

/// The iteration of Kepler's equation applies at most ten corrections,
/// whatever the equation proposes. Each is the proposed correction cut to
/// the range from -0.95 to 0.95; and where fewer than ten are applied
/// though more were proposed, the iteration has ended on the first
/// proposal that is below 10^-12 in size.
pub proof fn lemma_kepler_iteration(deltas: Seq<Binary64>)
    ensures
        applied_corrections(deltas, 0).len() <= KEPLER_ITERATIONS,
        applied_corrections(deltas, 0).len() <= deltas.len(),
        forall|i: int|
            0 <= i < applied_corrections(deltas, 0).len() ==> applied_corrections(deltas, 0)[i]
                == limited(#[trigger] deltas[i]) && !is_converged(deltas[i]),
        ({
            let n = applied_corrections(deltas, 0).len() as int;
            n < KEPLER_ITERATIONS && n < deltas.len() ==> is_converged(deltas[n])
        }),
{
    lemma_kepler_iteration_from(deltas, 0);
}

/// The thresholds of this module are the numbers of the format nearest to
/// the decimal numbers that they are named for: 98, 156, 10^-12, 0.95 and
/// -0.95. The bound on the mean motion is the number nearest to the
/// quotient by 225 of the number that stands for 2π in the format, which is
/// 0x1921FB54442D18 / 2^50.
pub proof fn lemma_thresholds()
    ensures
        is_exactly(number(TWO_PI), 0x1921FB54442D18, 0x4000000000000),
        is_nearest(number(NEAR_EARTH_MEAN_MOTION), 0x1921FB54442D18, 225 * 0x4000000000000),
        is_exactly(number(LOW_PERIGEE), 98, 1),
        is_exactly(number(MIDDLE_PERIGEE), 156, 1),
        is_nearest(number(KEPLER_TOLERANCE), 1, 1000000000000),
        is_nearest(number(KEPLER_LIMIT), 95, 100),
        is_nearest(number(KEPLER_LOWER_LIMIT), -95, 100),
{
    lemma_powers_of_two();
    lemma_is_exactly(number(TWO_PI), 0x1921FB54442D18, 0x4000000000000, 50);
    lemma_is_nearest(number(NEAR_EARTH_MEAN_MOTION), 0x1921FB54442D18, 225 * 0x4000000000000, 58);
    lemma_is_exactly(number(LOW_PERIGEE), 98, 1, 46);
    lemma_is_exactly(number(MIDDLE_PERIGEE), 156, 1, 45);
    lemma_is_nearest(number(KEPLER_TOLERANCE), 1, 1000000000000, 92);
    lemma_is_nearest(number(KEPLER_LIMIT), 95, 100, 53);
    lemma_is_nearest(number(KEPLER_LOWER_LIMIT), -95, 100, 53);
}

} // verus!
