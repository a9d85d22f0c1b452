//! The cases of the formulation for orbits near the earth.

use crate::binary64::{is_nearest, lemma_is_nearest, lemma_powers_of_two, Binary64};
use crate::gp::number;
use vstd::prelude::*;

verus! {

/// The bits of the number nearest to 0.0001: above this eccentricity the
/// drag also turns the perigee.
pub const ELLIPTIC_ECCENTRICITY: u64 = 0x3f1a_36e2_eb1c_432d;

/// The bits of the number nearest to 1.5 * 10^-12: the least size of a
/// divisor `1 + cos I`.
pub const LEAST_DIVISOR: u64 = 0x3d7a_6366_41c4_df1a;

/// Whether the perigee is so high that the higher terms of the drag are
/// kept: the distance of the perigee from the centre of the earth, in
/// earth radii, is not below `limit`, the distance of a point 220 km above
/// the surface.
pub open spec fn is_high(perigee: Binary64, limit: Binary64) -> bool {
    !perigee.less(limit)
}

/// Tells whether the perigee is so high that the higher terms of the
/// drag are kept.
pub fn is_high_altitude(perigee: Binary64, limit: Binary64) -> (r: bool)
    ensures
        r == is_high(perigee, limit),
{
    !perigee.lt(limit)
}

/// Whether an orbit of the given eccentricity counts as elliptic: the
/// eccentricity is above 0.0001.
pub fn is_elliptic(eccentricity: Binary64) -> (r: bool)
    ensures
        r == number(ELLIPTIC_ECCENTRICITY).less(eccentricity),
{
    eccentricity.gt(Binary64::from_bits(ELLIPTIC_ECCENTRICITY))
}

/// Whether the size of `divisor` is above 1.5 * 10^-12.
pub open spec fn is_safe_divisor(divisor: Binary64) -> bool {
    !divisor.nan() && (divisor.units() > number(LEAST_DIVISOR).units() || divisor.units()
        < -number(LEAST_DIVISOR).units())
}

/// The divisor to use for `1 + cos I`: the number itself where its size
/// is above 1.5 * 10^-12, else 1.5 * 10^-12. What comes back is a number
/// whose size is at least 1.5 * 10^-12, so that nothing is divided by
/// zero for an orbit that runs against the rotation of the earth in the
/// plane of the equator.
pub fn guarded_divisor(divisor: Binary64) -> (r: Binary64)
    ensures
        r == if is_safe_divisor(divisor) {
            divisor
        } else {
            number(LEAST_DIVISOR)
        },
        !r.nan(),
        r.units() >= number(LEAST_DIVISOR).units() || r.units() <= -number(LEAST_DIVISOR).units(),
        r.units() != 0,
{
    proof {
        crate::binary64::lemma_magnitude_zero(LEAST_DIVISOR as nat);
    }
    if divisor.abs().gt(Binary64::from_bits(LEAST_DIVISOR)) {
        divisor
    } else {
        Binary64::from_bits(LEAST_DIVISOR)
    }
}

/// The thresholds of this module are the numbers of the format nearest to
/// the decimal numbers that they are named for: 0.0001 and 1.5 * 10^-12.
pub proof fn lemma_thresholds()
    ensures
        is_nearest(number(ELLIPTIC_ECCENTRICITY), 1, 10000),
        is_nearest(number(LEAST_DIVISOR), 15, 10000000000000),
{
    lemma_powers_of_two();
    lemma_is_nearest(number(ELLIPTIC_ECCENTRICITY), 1, 10000, 66);
    lemma_is_nearest(number(LEAST_DIVISOR), 15, 10000000000000, 92);
}

} // verus!
