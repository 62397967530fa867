//! Broadcast ephemeris: the Keplerian orbital elements and clock
//! corrections of one satellite, decoded from LNAV subframes 1 through 3.
//! Every element is kept as the raw signed or unsigned integer carried by
//! the subframe; the ICD scale factors (powers of two) are applied by the
//! floating-point orbit computation outside this crate.

use vstd::prelude::*;
use crate::bits::{bits_value, getbits, getbits2, getbitu, getbitu2, sbits_value};

verus! {

/// Seconds in one GPS week.
pub const SECS_PER_WEEK: u32 = 604800;

/// Decoded ephemeris of one satellite, raw integer fields.
///
/// Scale factors (ICD-GPS-200): `tgd_raw`, `f0_raw` 2^-31 s; `f1_raw`
/// 2^-43 s/s; `f2_raw` 2^-55 s/s^2; `crs_raw`, `crc_raw` 2^-5 m;
/// `deln_raw`, `omg_dot_raw`, `i_dot_raw` 2^-43 half-cycles/s; `m0_raw`,
/// `omg0_raw`, `omg_raw`, `i0_raw` 2^-31 half-cycles; `ecc_raw` 2^-33;
/// `cuc_raw`, `cus_raw`, `cic_raw`, `cis_raw` 2^-29 rad; `sqrt_a_raw`
/// 2^-19 sqrt(m).
#[derive(Clone, Copy)]
pub struct Ephemeris {
    /// Satellite PRN number.
    pub prn: u8,
    /// Time of week of the last decoded subframe, seconds.
    pub tow: u32,
    /// Receiver tick (one per code period, a millisecond) at which the last
    /// subframe was decoded; zero when none was.
    pub ts_ms: u64,
    /// GPS-time epoch of `tow`, seconds since the GPS epoch.
    pub tow_gpst: u64,
    /// GPS-time epoch of `toe`, seconds since the GPS epoch.
    pub toe_gpst: u64,
    /// Telemetry word contents.
    pub tlm: u32,
    /// Issue of data, ephemeris.
    pub iode: u32,
    /// Issue of data, clock.
    pub iodc: u32,
    /// SV accuracy index.
    pub sva: u32,
    /// SV health; zero is healthy.
    pub svh: u32,
    /// GPS week number (with the receiver's 2048-week rollover base).
    pub week: u32,
    /// Code-on-L2 indicator.
    pub code: u32,
    /// L2 P-code data flag.
    pub flag: u32,
    /// Group delay differential, raw.
    pub tgd_raw: i32,
    /// Clock data reference time, seconds.
    pub toc: u32,
    /// Clock drift rate correction, raw.
    pub f2_raw: i32,
    /// Clock drift correction, raw.
    pub f1_raw: i32,
    /// Clock bias correction, raw.
    pub f0_raw: i32,
    /// Orbit radius sine harmonic correction, raw.
    pub crs_raw: i32,
    /// Mean motion difference, raw.
    pub deln_raw: i32,
    /// Mean anomaly at reference time, raw.
    pub m0_raw: i32,
    /// Eccentricity, raw.
    pub ecc_raw: u32,
    /// Argument-of-latitude cosine harmonic correction, raw.
    pub cuc_raw: i32,
    /// Argument-of-latitude sine harmonic correction, raw.
    pub cus_raw: i32,
    /// Square root of the semi-major axis, raw.
    pub sqrt_a_raw: u32,
    /// Ephemeris reference time, seconds.
    pub toe: u32,
    /// Fit interval flag.
    pub fit: u32,
    /// Inclination cosine harmonic correction, raw.
    pub cic_raw: i32,
    /// Inclination sine harmonic correction, raw.
    pub cis_raw: i32,
    /// Longitude of ascending node at weekly epoch, raw.
    pub omg0_raw: i32,
    /// Inclination angle at reference time, raw.
    pub i0_raw: i32,
    /// Orbit radius cosine harmonic correction, raw.
    pub crc_raw: i32,
    /// Argument of perigee, raw.
    pub omg_raw: i32,
    /// Rate of right ascension, raw.
    pub omg_dot_raw: i32,
    /// Rate of inclination angle, raw.
    pub i_dot_raw: i32,
}

/// An ephemeris is complete when a week and a reference time were decoded,
/// the receiver recorded when subframe 1 arrived, and the semi-major axis
/// is at least 20 000 km (`sqrt_a_raw` carries sqrt(A) scaled by 2^19, so
/// the bound is `sqrt_a_raw^2 >= 20 000 000 * 2^38`).
pub open spec fn ephemeris_complete(e: Ephemeris) -> bool {
    &&& e.week != 0
    &&& e.toe != 0
    &&& e.ts_ms != 0
    &&& (e.sqrt_a_raw as nat) * (e.sqrt_a_raw as nat) >= 5497558138880000000
}

/// The ephemeris that decoding subframe 1 leaves behind.
pub open spec fn eph_sf1(e: Ephemeris, buf: Seq<u8>) -> Ephemeris {
    Ephemeris {
        tow: (bits_value(buf, 30, 17) * 6) as u32,
        week: (bits_value(buf, 60, 10) + 2048) as u32,
        code: bits_value(buf, 70, 2) as u32,
        sva: bits_value(buf, 72, 4) as u32,
        svh: bits_value(buf, 76, 6) as u32,
        iodc: (bits_value(buf, 82, 2) * 256 + bits_value(buf, 210, 8)) as u32,
        flag: bits_value(buf, 90, 1) as u32,
        tgd_raw: sbits_value(buf, 196, 8) as i32,
        toc: (bits_value(buf, 218, 16) * 16) as u32,
        f2_raw: sbits_value(buf, 240, 8) as i32,
        f1_raw: sbits_value(buf, 248, 16) as i32,
        f0_raw: sbits_value(buf, 270, 22) as i32,
        ..e
    }
}

/// The ephemeris that decoding subframe 2 leaves behind.
pub open spec fn eph_sf2(e: Ephemeris, buf: Seq<u8>) -> Ephemeris {
    Ephemeris {
        tow: (bits_value(buf, 30, 17) * 6) as u32,
        iode: bits_value(buf, 60, 8) as u32,
        crs_raw: sbits_value(buf, 68, 16) as i32,
        deln_raw: sbits_value(buf, 90, 16) as i32,
        m0_raw: (sbits_value(buf, 106, 8) * 0x1000000 + bits_value(buf, 120, 24)) as i32,
        ecc_raw: (bits_value(buf, 166, 8) * 0x1000000 + bits_value(buf, 180, 24)) as u32,
        cuc_raw: sbits_value(buf, 150, 16) as i32,
        cus_raw: sbits_value(buf, 210, 16) as i32,
        sqrt_a_raw: (bits_value(buf, 226, 8) * 0x1000000 + bits_value(buf, 240, 24)) as u32,
        toe: (bits_value(buf, 270, 16) * 16) as u32,
        fit: bits_value(buf, 286, 1) as u32,
        ..e
    }
}

/// The ephemeris that decoding subframe 3 leaves behind.
pub open spec fn eph_sf3(e: Ephemeris, buf: Seq<u8>) -> Ephemeris {
    Ephemeris {
        tow: (bits_value(buf, 30, 17) * 6) as u32,
        cic_raw: sbits_value(buf, 60, 16) as i32,
        cis_raw: sbits_value(buf, 120, 16) as i32,
        omg0_raw: (sbits_value(buf, 76, 8) * 0x1000000 + bits_value(buf, 90, 24)) as i32,
        i0_raw: (sbits_value(buf, 136, 8) * 0x1000000 + bits_value(buf, 150, 24)) as i32,
        crc_raw: sbits_value(buf, 180, 16) as i32,
        omg_raw: (sbits_value(buf, 196, 8) * 0x1000000 + bits_value(buf, 210, 24)) as i32,
        omg_dot_raw: sbits_value(buf, 240, 24) as i32,
        iode: bits_value(buf, 270, 8) as u32,
        i_dot_raw: sbits_value(buf, 278, 14) as i32,
        ..e
    }
}

impl Ephemeris {
    /// A fresh, empty ephemeris for one satellite.
    pub fn new(prn: u8) -> (e: Ephemeris)
        ensures
            e.prn == prn,
            e.week == 0,
            e.toe == 0,
            e.ts_ms == 0,
            !ephemeris_complete(e),
    {
        Ephemeris {
            prn,
            tow: 0,
            ts_ms: 0,
            tow_gpst: 0,
            toe_gpst: 0,
            tlm: 0,
            iode: 0,
            iodc: 0,
            sva: 0,
            svh: 0,
            week: 0,
            code: 0,
            flag: 0,
            tgd_raw: 0,
            toc: 0,
            f2_raw: 0,
            f1_raw: 0,
            f0_raw: 0,
            crs_raw: 0,
            deln_raw: 0,
            m0_raw: 0,
            ecc_raw: 0,
            cuc_raw: 0,
            cus_raw: 0,
            sqrt_a_raw: 0,
            toe: 0,
            fit: 0,
            cic_raw: 0,
            cis_raw: 0,
            omg0_raw: 0,
            i0_raw: 0,
            crc_raw: 0,
            omg_raw: 0,
            omg_dot_raw: 0,
            i_dot_raw: 0,
        }
    }

    /// Whether this ephemeris is complete enough for the position solver.
    pub fn is_complete(&self) -> (r: bool)
        ensures
            r == ephemeris_complete(*self),
    {
        proof {
            let s = self.sqrt_a_raw as int;
            assert(s * s < 0x10000000000000000) by (nonlinear_arith)
                requires
                    0 <= s < 0x100000000,
            ;
        }
        self.week != 0 && self.toe != 0 && self.ts_ms != 0 && (self.sqrt_a_raw as u64) * (
        self.sqrt_a_raw as u64) >= 5497558138880000000
    }

    /// Decode subframe 1: week, accuracy, health, clock parameters.
    pub fn decode_subframe1(&mut self, buf: &[u8])
        requires
            buf@.len() >= 38,
        ensures
            *final(self) == eph_sf1(*old(self), buf@),
    {
        proof {
            crate::bits::lemma_bits_value_bound(buf@, 30, 17);
            crate::bits::lemma_bits_value_bound(buf@, 60, 10);
            crate::bits::lemma_bits_value_bound(buf@, 218, 16);
            vstd::arithmetic::power2::lemma2_to64();
        }
        self.tow = getbitu(buf, 30, 17) * 6;
        self.week = getbitu(buf, 60, 10) + 2048;
        self.code = getbitu(buf, 70, 2);
        self.sva = getbitu(buf, 72, 4);
        self.svh = getbitu(buf, 76, 6);
        self.iodc = getbitu2(buf, 82, 2, 210, 8);
        self.flag = getbitu(buf, 90, 1);
        self.tgd_raw = getbits(buf, 196, 8);
        self.toc = getbitu(buf, 218, 16) * 16;
        self.f2_raw = getbits(buf, 240, 8);
        self.f1_raw = getbits(buf, 248, 16);
        self.f0_raw = getbits(buf, 270, 22);
        proof {
            vstd::arithmetic::power2::lemma2_to64();
        }
    }

    /// Decode subframe 2: in-plane orbital elements and reference time.
    pub fn decode_subframe2(&mut self, buf: &[u8])
        requires
            buf@.len() >= 38,
        ensures
            *final(self) == eph_sf2(*old(self), buf@),
    {
        proof {
            crate::bits::lemma_bits_value_bound(buf@, 30, 17);
            crate::bits::lemma_bits_value_bound(buf@, 270, 16);
            vstd::arithmetic::power2::lemma2_to64();
        }
        self.tow = getbitu(buf, 30, 17) * 6;
        self.iode = getbitu(buf, 60, 8);
        self.crs_raw = getbits(buf, 68, 16);
        self.deln_raw = getbits(buf, 90, 16);
        self.m0_raw = getbits2(buf, 106, 8, 120, 24);
        self.ecc_raw = getbitu2(buf, 166, 8, 180, 24);
        self.cuc_raw = getbits(buf, 150, 16);
        self.cus_raw = getbits(buf, 210, 16);
        self.sqrt_a_raw = getbitu2(buf, 226, 8, 240, 24);
        self.toe = getbitu(buf, 270, 16) * 16;
        self.fit = getbitu(buf, 286, 1);
        proof {
            vstd::arithmetic::power2::lemma2_to64();
        }
    }

    /// Decode subframe 3: out-of-plane orbital elements.
    pub fn decode_subframe3(&mut self, buf: &[u8])
        requires
            buf@.len() >= 38,
        ensures
            *final(self) == eph_sf3(*old(self), buf@),
    {
        proof {
            crate::bits::lemma_bits_value_bound(buf@, 30, 17);
            vstd::arithmetic::power2::lemma2_to64();
        }
        self.tow = getbitu(buf, 30, 17) * 6;
        self.cic_raw = getbits(buf, 60, 16);
        self.cis_raw = getbits(buf, 120, 16);
        self.omg0_raw = getbits2(buf, 76, 8, 90, 24);
        self.i0_raw = getbits2(buf, 136, 8, 150, 24);
        self.crc_raw = getbits(buf, 180, 16);
        self.omg_raw = getbits2(buf, 196, 8, 210, 24);
        self.omg_dot_raw = getbits(buf, 240, 24);
        self.iode = getbitu(buf, 270, 8);
        self.i_dot_raw = getbits(buf, 278, 14);
        proof {
            vstd::arithmetic::power2::lemma2_to64();
        }
    }
}

} // verus!
