//! The cases of the formulation for orbits in deep space: the resonances
//! with the rotation of the earth, the steps of their integrator, and the
//! treatment of small inclinations.

use crate::binary64::{
    is_exactly, is_nearest, lemma_is_exactly, lemma_is_nearest, lemma_powers_of_two, Binary64,
};
use crate::gp::{number, ZERO};
use crate::propagator::{is_near_earth, Regime};
use vstd::prelude::*;

verus! {

/// The bits of the number nearest to 0.0034906585.
pub const ONE_DAY_LOW: u64 = 0x3f6c_9871_032b_0b4f;

/// The bits of the number nearest to 0.0052359877.
pub const ONE_DAY_HIGH: u64 = 0x3f75_7254_bef0_ac80;

/// The bits of the number nearest to 0.00826.
pub const HALF_DAY_LOW: u64 = 0x3f80_ea9e_6eeb_7026;

/// The bits of the number nearest to 0.00924.
pub const HALF_DAY_HIGH: u64 = 0x3f82_ec6b_ce85_33b1;

/// The bits of 0.5.
pub const HALF_DAY_ECCENTRICITY: u64 = 0x3fe0_0000_0000_0000;

/// The bits of the number nearest to 0.65.
pub const LOW_ECCENTRICITY: u64 = 0x3fe4_cccc_cccc_cccd;

/// The bits of the number nearest to 0.7.
pub const MIDDLE_ECCENTRICITY: u64 = 0x3fe6_6666_6666_6666;

/// The bits of the number nearest to 0.715.
pub const HIGH_ECCENTRICITY: u64 = 0x3fe6_e147_ae14_7ae1;

/// The bits of the number nearest to 0.2, an inclination in radians.
pub const LYDDANE_INCLINATION: u64 = 0x3fc9_9999_9999_999a;

/// How an orbit in deep space resonates with the rotation of the earth.
#[derive(Debug, Clone, Copy, PartialEq, Eq, Structural)]
pub enum Resonance {
    /// Not at all.
    No,
    /// The satellite goes round once a day.
    OneDay,
    /// The satellite goes round twice a day, on an eccentric orbit.
    HalfDay,
}

/// Three bands of a quantity.
#[derive(Debug, Clone, Copy, PartialEq, Eq, Structural)]
pub enum Band {
    Low,
    Middle,
    High,
}

/// Whether a mean motion in radians a minute lies strictly between
/// 0.0034906585 and 0.0052359877.
pub open spec fn is_one_day(mean_motion: Binary64) -> bool {
    mean_motion.less(number(ONE_DAY_HIGH)) && number(ONE_DAY_LOW).less(mean_motion)
}

/// Whether a mean motion in radians a minute lies from 0.00826 to 0.00924,
/// both included, and the eccentricity is 0.5 or more.
pub open spec fn is_half_day(mean_motion: Binary64, eccentricity: Binary64) -> bool {
    number(HALF_DAY_LOW).at_most(mean_motion) && mean_motion.at_most(number(HALF_DAY_HIGH))
        && number(HALF_DAY_ECCENTRICITY).at_most(eccentricity)
}

/// Classifies the resonance of an orbit in deep space by its mean motion,
/// in radians a minute, and its eccentricity.
pub fn resonance(mean_motion: Binary64, eccentricity: Binary64) -> (r: Resonance)
    ensures
        r == if is_one_day(mean_motion) {
            Resonance::OneDay
        } else if is_half_day(mean_motion, eccentricity) {
            Resonance::HalfDay
        } else {
            Resonance::No
        },
{
    if mean_motion.lt(Binary64::from_bits(ONE_DAY_HIGH)) && mean_motion.gt(
        Binary64::from_bits(ONE_DAY_LOW),
    ) {
        Resonance::OneDay
    } else if mean_motion.ge(Binary64::from_bits(HALF_DAY_LOW)) && mean_motion.le(
        Binary64::from_bits(HALF_DAY_HIGH),
    ) && eccentricity.ge(Binary64::from_bits(HALF_DAY_ECCENTRICITY)) {
        Resonance::HalfDay
    } else {
        Resonance::No
    }
}

/// A resonant mean motion is one of deep space: no orbit near the earth
/// has a mean motion in one of the two resonant ranges.
pub proof fn lemma_resonant_orbits_are_in_deep_space(
    mean_motion: Binary64,
    eccentricity: Binary64,
)
    requires
        is_one_day(mean_motion) || is_half_day(mean_motion, eccentricity),
    ensures
        !is_near_earth(mean_motion),
{
    let bound = number(crate::propagator::NEAR_EARTH_MEAN_MOTION);
    crate::binary64::lemma_magnitude_increases(ONE_DAY_HIGH as nat, bound.low());
    crate::binary64::lemma_magnitude_increases(HALF_DAY_HIGH as nat, bound.low());
}

/// Whether the lower polynomials hold for G211, G310, G322, G410 and G422
/// of a half-day resonance: the eccentricity is 0.65 or less.
pub fn is_low_eccentricity(eccentricity: Binary64) -> (r: bool)
    ensures
        r == eccentricity.at_most(number(LOW_ECCENTRICITY)),
{
    eccentricity.le(Binary64::from_bits(LOW_ECCENTRICITY))
}

/// Finds the polynomial that holds for G520 of a half-day resonance: the
/// low one for an eccentricity of 0.65 or less, the middle one for an
/// eccentricity below 0.715, else the high one.
pub fn g520_band(eccentricity: Binary64) -> (r: Band)
    ensures
        r == if eccentricity.at_most(number(LOW_ECCENTRICITY)) {
            Band::Low
        } else if eccentricity.less(number(HIGH_ECCENTRICITY)) {
            Band::Middle
        } else {
            Band::High
        },
{
    if eccentricity.le(Binary64::from_bits(LOW_ECCENTRICITY)) {
        Band::Low
    } else if eccentricity.lt(Binary64::from_bits(HIGH_ECCENTRICITY)) {
        Band::Middle
    } else {
        Band::High
    }
}

/// Whether the lower polynomials hold for G532, G521 and G533 of a
/// half-day resonance: the eccentricity is below 0.7.
pub fn is_below_middle_eccentricity(eccentricity: Binary64) -> (r: bool)
    ensures
        r == eccentricity.less(number(MIDDLE_ECCENTRICITY)),
{
    eccentricity.lt(Binary64::from_bits(MIDDLE_ECCENTRICITY))
}

/// Whether an inclination in radians is so small that node and perigee
/// are updated in Lyddane's way: it is not 0.2 or more.
pub fn is_lyddane(inclination: Binary64) -> (r: bool)
    ensures
        r == !number(LYDDANE_INCLINATION).at_most(inclination),
{
    !inclination.ge(Binary64::from_bits(LYDDANE_INCLINATION))
}

/// By how many turns a node is moved.
#[derive(Debug, Clone, Copy, PartialEq, Eq, Structural)]
pub enum Turn {
    /// One turn up: 2π is added.
    Up,
    /// One turn down: 2π is taken off.
    Down,
    /// None.
    Keep,
}

/// Tells how to move a node, found by an arc tangent, to within half a
/// turn of the node of the secular motion: up where it lies below `lower`,
/// down where it lies above `upper`, which are that node less π and plus
/// π.
pub fn node_turn(node: Binary64, lower: Binary64, upper: Binary64) -> (r: Turn)
    ensures
        r == if node.less(lower) {
            Turn::Up
        } else if upper.less(node) {
            Turn::Down
        } else {
            Turn::Keep
        },
{
    if node.lt(lower) {
        Turn::Up
    } else if node.gt(upper) {
        Turn::Down
    } else {
        Turn::Keep
    }
}

/// Whether a propagation takes the state of an integrator: it does for a
/// resonant orbit in deep space, and for no other.
pub open spec fn needs_state(regime: Regime, resonance: Resonance) -> bool {
    regime == Regime::DeepSpace && resonance != Resonance::No
}

/// Tells whether a propagation may be made with a state, or without one:
/// a resonant orbit in deep space is propagated with a state, every other
/// orbit without.
pub fn state_is_legal(regime: Regime, resonance: Resonance, has_state: bool) -> (r: bool)
    ensures
        r == (has_state == needs_state(regime, resonance)),
{
    let needed = match (regime, resonance) {
        (Regime::DeepSpace, Resonance::OneDay) => true,
        (Regime::DeepSpace, Resonance::HalfDay) => true,
        _ => false,
    };
    has_state == needed
}

/// Tells whether a propagator has an initial state of an integrator to
/// give out.
pub fn has_initial_state(regime: Regime, resonance: Resonance) -> (r: bool)
    ensures
        r == needs_state(regime, resonance),
{
    state_is_legal(regime, resonance, true)
}

/// The direction in which the integrator of a resonance steps.
#[derive(Debug, Clone, Copy, PartialEq, Eq, Structural)]
pub enum Direction {
    /// In steps of 720 minutes.
    Forward,
    /// In steps of -720 minutes.
    Backward,
}

/// Whether an integrator that stands at the time `at` may be taken to the
/// time `t`: unless it stands at 0, `t` has the sign of `at`; and the size
/// of `t` is not below that of `at`.
pub open spec fn is_reachable(at: Binary64, t: Binary64) -> bool {
    &&& at.same(number(ZERO)) || at.negative() == t.negative()
    &&& !(!at.nan() && !t.nan() && t.abs_units() < at.abs_units())
}

/// Whether an integrator that stands at the time `at` may be taken to the
/// time `t`. A series of propagations with one integrator has to go away
/// from the epoch, on one side of it.
pub fn integrator_reaches(at: Binary64, t: Binary64) -> (r: bool)
    ensures
        r == is_reachable(at, t),
{
    let apart = !at.eq(Binary64::from_bits(ZERO)) && at.is_sign_positive()
        != t.is_sign_positive();
    !(apart || t.abs().lt(at.abs()))
}

/// An integrator that stands at the epoch may be taken to any time.
pub proof fn lemma_every_time_is_reachable_from_the_epoch(t: Binary64)
    ensures
        is_reachable(number(ZERO), t),
{
    crate::binary64::lemma_magnitude_zero(t.low());
}

/// A series of propagations with one integrator, each to a time that may
/// be reached from the time before, is a series of times that may each be
/// reached from the time of the first.
pub proof fn lemma_reachable_is_transitive(first: Binary64, second: Binary64, third: Binary64)
    requires
        !first.nan() && !second.nan() && !third.nan(),
        is_reachable(first, second),
        is_reachable(second, third),
    ensures
        is_reachable(first, third),
{
    crate::binary64::lemma_magnitude_zero(first.low());
    crate::binary64::lemma_magnitude_zero(second.low());
}

/// The direction of the steps towards the time `t`: forward where `t` is
/// above 0, else backward.
pub fn direction(t: Binary64) -> (r: Direction)
    ensures
        r == if number(ZERO).less(t) {
            Direction::Forward
        } else {
            Direction::Backward
        },
{
    if t.gt(Binary64::from_bits(ZERO)) {
        Direction::Forward
    } else {
        Direction::Backward
    }
}

/// Whether the integrator, standing at the time `at`, has made its last
/// whole step: one more step would pass the target. `before` is the
/// target less one step in the direction of the steps.
pub fn is_last_step(towards: Direction, before: Binary64, at: Binary64) -> (r: bool)
    ensures
        r == match towards {
            Direction::Forward => before.less(at),
            Direction::Backward => at.less(before),
        },
{
    match towards {
        Direction::Forward => before.lt(at),
        Direction::Backward => before.gt(at),
    }
}

/// The thresholds of this module are the numbers of the format nearest to
/// the decimal numbers that they are named for: 0.0034906585 and
/// 0.0052359877; 0.00826, 0.00924 and 0.5; 0.65, 0.7 and 0.715; and 0.2.
pub proof fn lemma_thresholds()
    ensures
        is_nearest(number(ONE_DAY_LOW), 34906585, 10000000000),
        is_nearest(number(ONE_DAY_HIGH), 52359877, 10000000000),
        is_nearest(number(HALF_DAY_LOW), 826, 100000),
        is_nearest(number(HALF_DAY_HIGH), 924, 100000),
        is_exactly(number(HALF_DAY_ECCENTRICITY), 1, 2),
        is_nearest(number(LOW_ECCENTRICITY), 65, 100),
        is_nearest(number(MIDDLE_ECCENTRICITY), 7, 10),
        is_nearest(number(HIGH_ECCENTRICITY), 715, 1000),
        is_nearest(number(LYDDANE_INCLINATION), 2, 10),
{
    lemma_powers_of_two();
    lemma_is_nearest(number(ONE_DAY_LOW), 34906585, 10000000000, 61);
    lemma_is_nearest(number(ONE_DAY_HIGH), 52359877, 10000000000, 60);
    lemma_is_nearest(number(HALF_DAY_LOW), 826, 100000, 59);
    lemma_is_nearest(number(HALF_DAY_HIGH), 924, 100000, 59);
    lemma_is_exactly(number(HALF_DAY_ECCENTRICITY), 1, 2, 53);
    lemma_is_nearest(number(LOW_ECCENTRICITY), 65, 100, 53);
    lemma_is_nearest(number(MIDDLE_ECCENTRICITY), 7, 10, 53);
    lemma_is_nearest(number(HIGH_ECCENTRICITY), 715, 1000, 53);
    lemma_is_nearest(number(LYDDANE_INCLINATION), 2, 10, 55);
}

} // verus!
