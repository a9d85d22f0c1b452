//! The models of the gravity of the earth.

use crate::binary64::{is_nearest, lemma_is_nearest, lemma_powers_of_two, Binary64};
use crate::gp::number;
use vstd::prelude::*;

verus! {

/// A model of the radius of the earth and of its field of gravity.
#[derive(Debug, Clone, Copy, PartialEq, Eq, Structural)]
pub struct Geopotential {
    /// Radius of the earth at the equator, in kilometres.
    pub ae: Binary64,
    /// Square root of the gravitational parameter of the earth, in earth
    /// radii^1.5 a minute.
    pub ke: Binary64,
    /// Second zonal harmonic, not normalised.
    pub j2: Binary64,
    /// Third zonal harmonic, not normalised.
    pub j3: Binary64,
    /// Fourth zonal harmonic, not normalised.
    pub j4: Binary64,
}

/// The bits of the number nearest to 6378.137, the radius of the earth at the equator in kilometres in WGS 84.
pub const WGS84_AE: u64 = 0x40b8_ea23_126e_978d;

/// The bits of the number nearest to 0.07436685316871385, the square root of the gravitational parameter in WGS 84.
pub const WGS84_KE: u64 = 0x3fb3_09b4_c244_1c81;

/// The bits of the number nearest to 0.00108262998905, the second zonal harmonic in WGS 84.
pub const WGS84_J2: u64 = 0x3f51_bce1_1962_86d1;

/// The bits of the number nearest to -0.00000253215306, the third zonal harmonic in WGS 84.
pub const WGS84_J3: u64 = 0xbec5_3dc1_ddcb_b041;

/// The bits of the number nearest to -0.00000161098761, the fourth zonal harmonic in WGS 84.
pub const WGS84_J4: u64 = 0xbebb_0723_9c01_8304;

/// The bits of the number nearest to 6378.135, the radius of the earth at the equator in kilometres in WGS 72.
pub const WGS72_AE: u64 = 0x40b8_ea22_8f5c_28f6;

/// The bits of the number nearest to 0.07436691613317342, the square root of the gravitational parameter in WGS 72.
pub const WGS72_KE: u64 = 0x3fb3_09b5_d0b2_444c;

/// The bits of the number nearest to 0.001082616, the second zonal harmonic in WGS 72.
pub const WGS72_J2: u64 = 0x3f51_bcd2_141a_a559;

/// The bits of the number nearest to -0.00000253881, the third zonal harmonic in WGS 72.
pub const WGS72_J3: u64 = 0xbec5_4c0d_8ecf_b746;

/// The bits of the number nearest to -0.00000165597, the fourth zonal harmonic in WGS 72.
pub const WGS72_J4: u64 = 0xbebb_c856_452e_fcce;

/// The values of WGS 84.
pub open spec fn wgs84_values() -> Geopotential {
    Geopotential {
        ae: number(WGS84_AE),
        ke: number(WGS84_KE),
        j2: number(WGS84_J2),
        j3: number(WGS84_J3),
        j4: number(WGS84_J4),
    }
}

/// WGS 84, the model that the International Astronomical Union recommends.
pub fn wgs84() -> (r: Geopotential)
    ensures
        r == wgs84_values(),
{
    Geopotential {
        ae: Binary64::from_bits(WGS84_AE),
        ke: Binary64::from_bits(WGS84_KE),
        j2: Binary64::from_bits(WGS84_J2),
        j3: Binary64::from_bits(WGS84_J3),
        j4: Binary64::from_bits(WGS84_J4),
    }
}

/// The values of WGS 72.
pub open spec fn wgs72_values() -> Geopotential {
    Geopotential {
        ae: number(WGS72_AE),
        ke: number(WGS72_KE),
        j2: number(WGS72_J2),
        j3: number(WGS72_J3),
        j4: number(WGS72_J4),
    }
}

/// WGS 72, the model of the element sets of the Air Force Space Command.
pub fn wgs72() -> (r: Geopotential)
    ensures
        r == wgs72_values(),
{
    Geopotential {
        ae: Binary64::from_bits(WGS72_AE),
        ke: Binary64::from_bits(WGS72_KE),
        j2: Binary64::from_bits(WGS72_J2),
        j3: Binary64::from_bits(WGS72_J3),
        j4: Binary64::from_bits(WGS72_J4),
    }
}

/// The constants of the two models are the numbers of the format nearest
/// to the decimal numbers that define the models.
pub proof fn lemma_constants()
    ensures
        is_nearest(number(WGS84_AE), 6378137, 1000),
        is_nearest(number(WGS84_KE), 7436685316871385, 100000000000000000),
        is_nearest(number(WGS84_J2), 108262998905, 100000000000000),
        is_nearest(number(WGS84_J3), -253215306, 100000000000000),
        is_nearest(number(WGS84_J4), -161098761, 100000000000000),
        is_nearest(number(WGS72_AE), 6378135, 1000),
        is_nearest(number(WGS72_KE), 7436691613317342, 100000000000000000),
        is_nearest(number(WGS72_J2), 1082616, 1000000000),
        is_nearest(number(WGS72_J3), -253881, 100000000000),
        is_nearest(number(WGS72_J4), -165597, 100000000000),
{
    lemma_powers_of_two();
    lemma_is_nearest(number(WGS84_AE), 6378137, 1000, 40);
    lemma_is_nearest(number(WGS84_KE), 7436685316871385, 100000000000000000, 56);
    lemma_is_nearest(number(WGS84_J2), 108262998905, 100000000000000, 62);
    lemma_is_nearest(number(WGS84_J3), -253215306, 100000000000000, 71);
    lemma_is_nearest(number(WGS84_J4), -161098761, 100000000000000, 72);
    lemma_is_nearest(number(WGS72_AE), 6378135, 1000, 40);
    lemma_is_nearest(number(WGS72_KE), 7436691613317342, 100000000000000000, 56);
    lemma_is_nearest(number(WGS72_J2), 1082616, 1000000000, 62);
    lemma_is_nearest(number(WGS72_J3), -253881, 100000000000, 71);
    lemma_is_nearest(number(WGS72_J4), -165597, 100000000000, 72);
}

} // verus!
