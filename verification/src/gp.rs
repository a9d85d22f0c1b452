//! The errors of a propagation, and the tests on mean motion, eccentricity
//! and semi-latus rectum that raise them.

use crate::binary64::{
    is_exactly, is_nearest, lemma_is_exactly, lemma_is_nearest, lemma_powers_of_two, Binary64,
};
use vstd::prelude::*;

verus! {

/// The bits of 0.
pub const ZERO: u64 = 0x0000_0000_0000_0000;

/// The bits of 1.
pub const ONE: u64 = 0x3ff0_0000_0000_0000;

/// The bits of the number nearest to -0.001: the least eccentricity that a
/// propagation goes on with, before the perturbations of sun and moon.
pub const LEAST_ECCENTRICITY: u64 = 0xbf50_624d_d2f1_a9fc;

/// The bits of the number nearest to 0.000001: the eccentricity that
/// stands for every smaller one.
pub const ECCENTRICITY_FLOOR: u64 = 0x3eb0_c6f7_a0b5_ed8d;

/// Why an element set cannot be propagated, or not as far as was asked.
/// Times are minutes since the epoch.
#[derive(Debug, Clone, Copy, PartialEq, Eq, Structural)]
pub enum Error {
    /// The mean motion at the epoch is 0, below 0, or no number.
    InvalidMeanMotion { mean_motion: Binary64 },
    /// The eccentricity at the epoch does not lie from 0 up to, not
    /// including, 1: it is below 0, 1 or above, or no number.
    InvalidEccentricity { eccentricity: Binary64 },
    /// The eccentricity at the time `t`, before the perturbations of sun
    /// and moon are added, is below -0.001 or not below 1.
    OutOfRangeEccentricity { eccentricity: Binary64, t: Binary64 },
    /// The eccentricity at the time `t`, with the perturbations of sun
    /// and moon, is below 0 or above 1.
    OutOfRangePerturbedEccentricity { eccentricity: Binary64, t: Binary64 },
    /// The semi-latus rectum at the time `t` is below 0.
    NegativeSemiLatusRectum { t: Binary64 },
}

/// The number with the given bits.
pub open spec fn number(bits: u64) -> Binary64 {
    Binary64 { bits }
}

/// Whether a mean motion at the epoch is refused: it is not above 0. That
/// is so of 0, of every number below 0, and of what is no number.
pub open spec fn is_invalid_mean_motion(mean_motion: Binary64) -> bool {
    !number(ZERO).less(mean_motion)
}

/// Whether an eccentricity at the epoch is refused: it does not lie from 0
/// up to, not including, 1. That is so of every number below 0, of 1 and
/// every number above it, and of what is no number.
pub open spec fn is_invalid_eccentricity(eccentricity: Binary64) -> bool {
    !(number(ZERO).at_most(eccentricity) && eccentricity.less(number(ONE)))
}

/// Whether an eccentricity before the perturbations lies in the range from
/// -0.001 up to, not including, 1.
pub open spec fn is_in_range(eccentricity: Binary64) -> bool {
    number(LEAST_ECCENTRICITY).at_most(eccentricity) && eccentricity.less(number(ONE))
}

/// Whether an eccentricity with the perturbations lies in the range from 0
/// to 1, both included.
pub open spec fn is_in_perturbed_range(eccentricity: Binary64) -> bool {
    number(ZERO).at_most(eccentricity) && eccentricity.at_most(number(ONE))
}

/// The eccentricity that a propagation goes on with: the given one, or
/// 0.000001 if that is larger.
pub open spec fn floored(eccentricity: Binary64) -> Binary64 {
    if eccentricity.less(number(ECCENTRICITY_FLOOR)) {
        number(ECCENTRICITY_FLOOR)
    } else {
        eccentricity
    }
}

/// Tests a mean motion at the epoch, in Kozai's or in Brouwer's sense.
pub fn check_mean_motion(mean_motion: Binary64) -> (r: Result<(), Error>)
    ensures
        r == if is_invalid_mean_motion(mean_motion) {
            Err::<(), Error>(Error::InvalidMeanMotion { mean_motion })
        } else {
            Ok::<(), Error>(())
        },
{
    if mean_motion.gt(Binary64::from_bits(ZERO)) {
        Ok(())
    } else {
        Err(Error::InvalidMeanMotion { mean_motion })
    }
}

/// Tests an eccentricity at the epoch.
pub fn check_epoch_eccentricity(eccentricity: Binary64) -> (r: Result<(), Error>)
    ensures
        r == if is_invalid_eccentricity(eccentricity) {
            Err::<(), Error>(Error::InvalidEccentricity { eccentricity })
        } else {
            Ok::<(), Error>(())
        },
{
    if Binary64::from_bits(ZERO).le(eccentricity) && eccentricity.lt(Binary64::from_bits(ONE)) {
        Ok(())
    } else {
        Err(Error::InvalidEccentricity { eccentricity })
    }
}

/// Tests the elements of the epoch before they are taken from Kozai's
/// convention to Brouwer's: the eccentricity first, then the mean motion.
pub fn check_kozai_elements(eccentricity: Binary64, mean_motion: Binary64) -> (r: Result<
    (),
    Error,
>)
    ensures
        r == if is_invalid_eccentricity(eccentricity) {
            Err::<(), Error>(Error::InvalidEccentricity { eccentricity })
        } else if is_invalid_mean_motion(mean_motion) {
            Err::<(), Error>(Error::InvalidMeanMotion { mean_motion })
        } else {
            Ok::<(), Error>(())
        },
{
    check_epoch_eccentricity(eccentricity)?;
    check_mean_motion(mean_motion)
}

/// Elements of the epoch are accepted if the eccentricity lies from 0 up
/// to, not including, 1 and the mean motion lies above 0, and no others
/// are: what is below, above or no number is refused. Whatever is
/// accepted is a number.
pub proof fn lemma_elements_in_range_are_accepted(eccentricity: Binary64, mean_motion: Binary64)
    ensures
        (number(ZERO).at_most(eccentricity) && eccentricity.less(number(ONE)) && number(ZERO).less(
            mean_motion,
        )) <==> (!is_invalid_mean_motion(mean_motion) && !is_invalid_eccentricity(eccentricity)),
        eccentricity.nan() ==> is_invalid_eccentricity(eccentricity),
        mean_motion.nan() ==> is_invalid_mean_motion(mean_motion),
        !eccentricity.nan() ==> (is_invalid_eccentricity(eccentricity) <==> eccentricity.less(
            number(ZERO),
        ) || number(ONE).at_most(eccentricity)),
        !mean_motion.nan() ==> (is_invalid_mean_motion(mean_motion) <==> mean_motion.at_most(
            number(ZERO),
        )),
{
}

/// Tests the eccentricity that a propagation to the time `t` has reached
/// before the perturbations of sun and moon, and gives the eccentricity to
/// go on with.
pub fn check_eccentricity(eccentricity: Binary64, t: Binary64) -> (r: Result<Binary64, Error>)
    ensures
        r == if is_in_range(eccentricity) {
            Ok::<Binary64, Error>(floored(eccentricity))
        } else {
            Err::<Binary64, Error>(Error::OutOfRangeEccentricity { eccentricity, t })
        },
{
    if Binary64::from_bits(LEAST_ECCENTRICITY).le(eccentricity) && eccentricity.lt(
        Binary64::from_bits(ONE),
    ) {
        if eccentricity.lt(Binary64::from_bits(ECCENTRICITY_FLOOR)) {
            Ok(Binary64::from_bits(ECCENTRICITY_FLOOR))
        } else {
            Ok(eccentricity)
        }
    } else {
        Err(Error::OutOfRangeEccentricity { eccentricity, t })
    }
}

/// Tests the eccentricity that a propagation to the time `t` has reached
/// with the perturbations of sun and moon.
pub fn check_perturbed_eccentricity(eccentricity: Binary64, t: Binary64) -> (r: Result<(), Error>)
    ensures
        r == if is_in_perturbed_range(eccentricity) {
            Ok::<(), Error>(())
        } else {
            Err::<(), Error>(Error::OutOfRangePerturbedEccentricity { eccentricity, t })
        },
{
    if Binary64::from_bits(ZERO).le(eccentricity) && eccentricity.le(Binary64::from_bits(ONE)) {
        Ok(())
    } else {
        Err(Error::OutOfRangePerturbedEccentricity { eccentricity, t })
    }
}

/// Tests the semi-latus rectum that a propagation to the time `t` has
/// reached.
pub fn check_semi_latus_rectum(semi_latus_rectum: Binary64, t: Binary64) -> (r: Result<(), Error>)
    ensures
        r == if semi_latus_rectum.less(number(ZERO)) {
            Err::<(), Error>(Error::NegativeSemiLatusRectum { t })
        } else {
            Ok::<(), Error>(())
        },
{
    if semi_latus_rectum.lt(Binary64::from_bits(ZERO)) {
        Err(Error::NegativeSemiLatusRectum { t })
    } else {
        Ok(())
    }
}

/// The thresholds of this module are the numbers of the format nearest to
/// the decimal numbers that they are named for: 0, 1, -0.001 and 0.000001.
pub proof fn lemma_thresholds()
    ensures
        is_exactly(number(ZERO), 0, 1),
        is_exactly(number(ONE), 1, 1),
        is_nearest(number(LEAST_ECCENTRICITY), -1, 1000),
        is_nearest(number(ECCENTRICITY_FLOOR), 1, 1000000),
{
    lemma_powers_of_two();
    lemma_is_exactly(number(ONE), 1, 1, 52);
    lemma_is_nearest(number(LEAST_ECCENTRICITY), -1, 1000, 62);
    lemma_is_nearest(number(ECCENTRICITY_FLOOR), 1, 1000000, 72);
}

} // verus!
