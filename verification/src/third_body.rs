//! The case of the perturbations of sun and moon.

use crate::binary64::{
    is_exactly, is_nearest, lemma_is_exactly, lemma_is_nearest, lemma_powers_of_two, Binary64,
};
use crate::gp::number;
use vstd::prelude::*;

verus! {

/// The bits of the number nearest to 0.052359877, which is 3 degrees in
/// radians.
pub const LEAST_INCLINATION: u64 = 0x3faa_cee9_eeac_d7a0;

/// The bits of the number that stands for π in the format.
pub const PI: u64 = 0x4009_21fb_5444_2d18;

/// The bits of π less 0.052359877, computed in binary64.
pub const GREATEST_INCLINATION: u64 = 0x4008_b6bf_ac89_79ba;

/// Whether the inclination lies at least 3 degrees from 0 and from π.
pub open spec fn is_inclined(inclination: Binary64) -> bool {
    number(LEAST_INCLINATION).at_most(inclination) && inclination.at_most(
        number(GREATEST_INCLINATION),
    )
}

/// Whether a third body leaves the node of an orbit with the given
/// inclination where it is: it does unless the inclination lies at least 3
/// degrees from 0 and from π.
pub fn node_rate_vanishes(inclination: Binary64) -> (r: bool)
    ensures
        r == !is_inclined(inclination),
{
    !(Binary64::from_bits(LEAST_INCLINATION).le(inclination) && inclination.le(
        Binary64::from_bits(GREATEST_INCLINATION),
    ))
}

/// The lower threshold of this module is the number of the format
/// nearest to 0.052359877. The upper one is the number nearest to the
/// difference of two numbers of the format: the one that stands for π,
/// which is 0x1921FB54442D18 / 2^51, less the lower threshold, which is
/// 0x1ACEE9EEACD7A0 / 2^57.
pub proof fn lemma_thresholds()
    ensures
        is_nearest(number(LEAST_INCLINATION), 52359877, 1000000000),
        is_exactly(number(LEAST_INCLINATION), 0x1ACEE9EEACD7A0, 0x200000000000000),
        is_exactly(number(PI), 0x1921FB54442D18, 0x8000000000000),
        is_nearest(
            number(GREATEST_INCLINATION),
            0x1921FB54442D18 * 64 - 0x1ACEE9EEACD7A0,
            0x200000000000000,
        ),
{
    lemma_powers_of_two();
    lemma_is_exactly(number(LEAST_INCLINATION), 0x1ACEE9EEACD7A0, 0x200000000000000, 57);
    lemma_is_exactly(number(PI), 0x1921FB54442D18, 0x8000000000000, 51);
    lemma_is_nearest(
        number(GREATEST_INCLINATION),
        0x1921FB54442D18 * 64 - 0x1ACEE9EEACD7A0,
        0x200000000000000,
        51,
    );
    lemma_is_nearest(number(LEAST_INCLINATION), 52359877, 1000000000, 57);
}

} // verus!
