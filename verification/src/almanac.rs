//! Almanac: coarse orbit and clock data for one satellite, decoded from
//! LNAV subframe 4 and 5 pages. As with the ephemeris, every element is the
//! raw integer carried by the page; scale factors are applied outside.

use vstd::prelude::*;
use crate::bits::{bits_value, getbitu, getbitu2};

verus! {

/// Almanac entry of one satellite, raw integer fields.
///
/// Scale factors (ICD-GPS-200): `e_raw` 2^-21; `omg_dot_raw` 2^-38
/// half-cycles/s; `sqrt_a_raw` 2^-11 sqrt(m); `omg0_raw`, `omg_raw`,
/// `m0_raw` 2^-23 half-cycles; `f0_raw` 2^-20 s; `f1_raw` 2^-38 s/s.
#[derive(Clone, Copy)]
pub struct Almanac {
    /// Satellite number this entry belongs to; zero when empty.
    pub sat: u32,
    /// SV health; zero is healthy.
    pub svh: u32,
    /// Anti-spoofing and configuration flags.
    pub svconf: u32,
    /// Eccentricity, raw.
    pub e_raw: u32,
    /// Almanac reference time, seconds in week.
    pub toas: u32,
    /// Rate of right ascension, raw.
    pub omg_dot_raw: u32,
    /// Square root of the semi-major axis, raw.
    pub sqrt_a_raw: u32,
    /// Longitude of ascending node at weekly epoch, raw.
    pub omg0_raw: u32,
    /// Argument of perigee, raw.
    pub omg_raw: u32,
    /// Mean anomaly at reference time, raw.
    pub m0_raw: u32,
    /// Clock bias, raw.
    pub f0_raw: u32,
    /// Clock drift, raw.
    pub f1_raw: u32,
    /// GPS week of the almanac.
    pub week: u32,
}

/// The almanac entry that decoding one subframe 4 or 5 page for satellite
/// `svid` leaves behind, given the entry it replaces.
pub open spec fn alm_page(a: Almanac, buf: Seq<u8>, svid: u32) -> Almanac {
    Almanac {
        sat: svid,
        e_raw: bits_value(buf, 68, 16) as u32,
        toas: (bits_value(buf, 90, 8) * 4096) as u32,
        omg_dot_raw: bits_value(buf, 120, 16) as u32,
        svh: bits_value(buf, 136, 8) as u32,
        sqrt_a_raw: bits_value(buf, 150, 24) as u32,
        omg0_raw: bits_value(buf, 180, 24) as u32,
        omg_raw: bits_value(buf, 210, 24) as u32,
        m0_raw: bits_value(buf, 240, 24) as u32,
        f0_raw: (bits_value(buf, 270, 8) * 8 + bits_value(buf, 289, 3)) as u32,
        f1_raw: bits_value(buf, 278, 11) as u32,
        ..a
    }
}

impl Almanac {
    /// An empty almanac entry.
    pub fn new() -> (a: Almanac)
        ensures
            a.sat == 0,
            a.week == 0,
            a.toas == 0,
    {
        Almanac {
            sat: 0,
            svh: 0,
            svconf: 0,
            e_raw: 0,
            toas: 0,
            omg_dot_raw: 0,
            sqrt_a_raw: 0,
            omg0_raw: 0,
            omg_raw: 0,
            m0_raw: 0,
            f0_raw: 0,
            f1_raw: 0,
            week: 0,
        }
    }

    /// Decode one almanac page for satellite `svid` from a subframe 4 or 5
    /// data buffer.
    pub fn nav_decode_alm(&mut self, buf: &[u8], svid: u32)
        requires
            buf@.len() >= 38,
        ensures
            *final(self) == alm_page(*old(self), buf@, svid),
    {
        proof {
            crate::bits::lemma_bits_value_bound(buf@, 90, 8);
            vstd::arithmetic::power2::lemma2_to64();
        }
        self.sat = svid;
        self.e_raw = getbitu(buf, 68, 16);
        self.toas = getbitu(buf, 90, 8) * 4096;
        self.omg_dot_raw = getbitu(buf, 120, 16);
        self.svh = getbitu(buf, 136, 8);
        self.sqrt_a_raw = getbitu(buf, 150, 24);
        self.omg0_raw = getbitu(buf, 180, 24);
        self.omg_raw = getbitu(buf, 210, 24);
        self.m0_raw = getbitu(buf, 240, 24);
        self.f0_raw = getbitu2(buf, 270, 8, 289, 3);
        self.f1_raw = getbitu(buf, 278, 11);
        proof {
            vstd::arithmetic::power2::lemma2_to64();
        }
    }
}

} // verus!
