//! Navigation-message decoding: the per-channel symbol ring, bit and frame
//! synchronization, and the dispatch of parity-checked 300-bit LNAV frames
//! into ephemeris and almanac fields.

use vstd::prelude::*;
use crate::almanac::{alm_page, Almanac};
use crate::bits::{bits_equal, bits_opposed, bits_value, getbits, getbits2, getbitu, sbits_value};
use crate::ephemeris::{eph_sf1, eph_sf2, eph_sf3, Ephemeris};
use crate::lnav::{all_bits, frame_parity_ok, nav_test_lnav_parity};

verus! {

/// Number of symbols the ring holds.
pub const SDR_MAX_NSYM: usize = 18000;

/// Symbols per navigation bit: the 50 bps message over 1 ms code periods.
pub const SYMS_PER_BIT: usize = 20;

/// The 8-bit LNAV preamble.
pub open spec fn preamble() -> Seq<u8> {
    seq![1u8, 0u8, 0u8, 0u8, 1u8, 0u8, 1u8, 1u8]
}

/// Polarity of a detected frame: `NORMAL` when both preambles match the
/// pattern, `REVERSED` when both match its complement, `NONE` otherwise.
#[derive(PartialEq, Eq, Structural, Clone, Copy, Debug)]
pub enum SyncState {
    NORMAL,
    REVERSED,
    NONE,
}

/// The last 308 symbols of the ring: one frame and the following preamble.
pub open spec fn ring_tail(bits: Seq<u8>) -> Seq<u8> {
    bits.subrange(bits.len() - 308, bits.len() as int)
}

/// Whether the eight symbols at `lo` match the preamble.
pub open spec fn tail_matches(tail: Seq<u8>, lo: int) -> bool {
    tail.subrange(lo, lo + 8) == preamble()
}

/// Whether the eight symbols at `lo` match the complemented preamble.
pub open spec fn tail_opposes(tail: Seq<u8>, lo: int) -> bool {
    forall|k: int| 0 <= k < 8 ==> preamble()[k] == 1 - tail[lo + k]
}

/// The frame-sync verdict over a symbol ring: a frame is framed by two
/// preambles 300 symbols apart, upright or complemented.
pub open spec fn frame_sync_of(bits: Seq<u8>) -> SyncState {
    if tail_matches(ring_tail(bits), 0) && tail_matches(ring_tail(bits), 300) {
        SyncState::NORMAL
    } else if tail_opposes(ring_tail(bits), 0) && tail_opposes(ring_tail(bits), 300) {
        SyncState::REVERSED
    } else {
        SyncState::NONE
    }
}

/// The 300 frame symbols taken from the ring tail, complemented when the
/// frame arrived reversed.
pub open spec fn frame_syms(bits: Seq<u8>, rev: bool) -> Seq<u8> {
    Seq::new(300, |k: int| if rev { (1 - ring_tail(bits)[k]) as u8 } else { ring_tail(bits)[k] })
}

/// The ring after one more symbol: the oldest drops out, the new one enters
/// at the end.
pub open spec fn ring_push(bits: Seq<u8>, bit: u8) -> Seq<u8> {
    bits.subrange(1, bits.len() as int).push(bit)
}

/// Per-channel navigation decoder state.
pub struct Navigation {
    /// Tick at which a navigation-bit boundary was found; zero while
    /// searching.
    pub ssync: usize,
    /// Tick of the last frame that passed parity; zero while searching.
    pub fsync: usize,
    /// Polarity of the last synchronized frame.
    pub sync_state: SyncState,
    /// The symbol ring, most recent last; every element is one bit.
    pub bits: Vec<u8>,
    /// Number of frames dropped for parity errors.
    pub count_parity_err: usize,
    /// The ephemeris decoded so far.
    pub eph: Ephemeris,
}

/// Well-formedness of the decoder state: the ring holds exactly
/// `SDR_MAX_NSYM` one-bit symbols.
pub open spec fn nav_wf(nav: Navigation) -> bool {
    &&& nav.bits@.len() == 18000
    &&& all_bits(nav.bits@)
    &&& nav.sync_state != SyncState::NONE
    &&& nav.fsync <= usize::MAX - 6000
}

/// One more counted error, capped at the type's maximum.
pub open spec fn bumped(c: usize) -> usize {
    if c < usize::MAX {
        (c + 1) as usize
    } else {
        c
    }
}

impl Navigation {
    /// A fresh decoder for one satellite: no synchronization, an all-zero
    /// symbol ring, an empty ephemeris.
    pub fn new(prn: u8) -> (nav: Navigation)
        ensures
            nav_wf(nav),
            nav.ssync == 0,
            nav.fsync == 0,
            nav.sync_state == SyncState::NORMAL,
            nav.count_parity_err == 0,
            nav.eph.prn == prn,
            nav.eph.week == 0,
            nav.eph.ts_ms == 0,
    {
        let mut bits: Vec<u8> = Vec::new();
        let mut k: usize = 0;
        while k < SDR_MAX_NSYM
            invariant
                k <= 18000,
                bits@.len() == k,
                forall|t: int| 0 <= t < k ==> bits@[t] == 0,
            decreases 18000 - k,
        {
            bits.push(0);
            k = k + 1;
        }
        Navigation {
            ssync: 0,
            fsync: 0,
            sync_state: SyncState::NORMAL,
            bits,
            count_parity_err: 0,
            eph: Ephemeris::new(prn),
        }
    }

    /// Drop all synchronization state and clear the symbol ring; the
    /// ephemeris and the parity-error count are kept.
    pub fn init(&mut self)
        requires
            nav_wf(*old(self)),
        ensures
            nav_wf(*final(self)),
            final(self).ssync == 0,
            final(self).fsync == 0,
            final(self).sync_state == SyncState::NORMAL,
            forall|t: int| 0 <= t < 18000 ==> final(self).bits@[t] == 0,
            final(self).eph == old(self).eph,
            final(self).count_parity_err == old(self).count_parity_err,
    {
        self.ssync = 0;
        self.fsync = 0;
        self.sync_state = SyncState::NORMAL;
        let mut k: usize = 0;
        while k < SDR_MAX_NSYM
            invariant
                k <= 18000,
                self.bits@.len() == 18000,
                forall|t: int| 0 <= t < k ==> self.bits@[t] == 0,
                self.ssync == 0,
                self.fsync == 0,
                self.sync_state == SyncState::NORMAL,
                self.eph == old(self).eph,
                self.count_parity_err == old(self).count_parity_err,
            decreases 18000 - k,
        {
            self.bits.set(k, 0);
            k = k + 1;
        }
    }

    /// Shift one decoded navigation bit into the ring.
    pub fn nav_add_bit(&mut self, bit: u8)
        requires
            nav_wf(*old(self)),
            bit <= 1,
        ensures
            nav_wf(*final(self)),
            final(self).bits@ == ring_push(old(self).bits@, bit),
            final(self).ssync == old(self).ssync,
            final(self).fsync == old(self).fsync,
            final(self).sync_state == old(self).sync_state,
            final(self).eph == old(self).eph,
            final(self).count_parity_err == old(self).count_parity_err,
    {
        self.bits.remove(0);
        self.bits.push(bit);
        proof {
            assert(self.bits@ =~= ring_push(old(self).bits@, bit));
        }
    }

    /// Inspect the tail of the ring for an upright or reversed frame.
    pub fn nav_get_frame_sync_state(&self) -> (s: SyncState)
        requires
            nav_wf(*self),
        ensures
            s == frame_sync_of(self.bits@),
    {
        let pre: Vec<u8> = vec![1u8, 0, 0, 0, 1, 0, 1, 1];
        proof {
            assert(pre@ =~= preamble());
        }
        let beg = vstd::slice::slice_subrange(self.bits.as_slice(), 17692, 17700);
        let end = vstd::slice::slice_subrange(self.bits.as_slice(), 17992, 18000);
        proof {
            assert(beg@ =~= ring_tail(self.bits@).subrange(0, 8));
            assert(end@ =~= ring_tail(self.bits@).subrange(300, 308));
        }
        if bits_equal(pre.as_slice(), beg) && bits_equal(pre.as_slice(), end) {
            proof {
                assert(tail_matches(ring_tail(self.bits@), 0));
                assert(tail_matches(ring_tail(self.bits@), 300));
            }
            SyncState::NORMAL
        } else if bits_opposed(pre.as_slice(), beg) && bits_opposed(pre.as_slice(), end) {
            proof {
                assert(tail_opposes(ring_tail(self.bits@), 0));
                assert(tail_opposes(ring_tail(self.bits@), 300));
                assert(!(tail_matches(ring_tail(self.bits@), 0) && tail_matches(
                    ring_tail(self.bits@),
                    300,
                )));
            }
            SyncState::REVERSED
        } else {
            proof {
                if tail_matches(ring_tail(self.bits@), 0) && tail_matches(
                    ring_tail(self.bits@),
                    300,
                ) {
                    assert(pre@ == ring_tail(self.bits@).subrange(0, 8));
                    assert(pre@ == beg@);
                }
                assert(frame_sync_of(self.bits@) == SyncState::NONE);
            }
            SyncState::NONE
        }
    }
}


/// Bit position of the SV-configuration nibble of satellite `i + 1` on subframe 4 page 25.
pub open spec fn svconf_pos(i: int) -> int {
    if i == 0 {
        68
    } else if i == 1 {
        72
    } else if i == 2 {
        76
    } else if i == 3 {
        80
    } else if i == 4 {
        90
    } else if i == 5 {
        94
    } else if i == 6 {
        98
    } else if i == 7 {
        102
    } else if i == 8 {
        106
    } else if i == 9 {
        110
    } else if i == 10 {
        120
    } else if i == 11 {
        124
    } else if i == 12 {
        128
    } else if i == 13 {
        132
    } else if i == 14 {
        136
    } else if i == 15 {
        140
    } else if i == 16 {
        150
    } else if i == 17 {
        154
    } else if i == 18 {
        158
    } else if i == 19 {
        162
    } else if i == 20 {
        166
    } else if i == 21 {
        170
    } else if i == 22 {
        180
    } else if i == 23 {
        184
    } else if i == 24 {
        188
    } else if i == 25 {
        192
    } else if i == 26 {
        196
    } else if i == 27 {
        200
    } else if i == 28 {
        210
    } else if i == 29 {
        214
    } else if i == 30 {
        218
    } else {
        222
    }
}

fn svconf_pos_at(i: usize) -> (d: usize)
    requires
        i < 32,
    ensures
        d == svconf_pos(i as int),
        d <= 222,
{
    if i == 0 {
        68
    } else if i == 1 {
        72
    } else if i == 2 {
        76
    } else if i == 3 {
        80
    } else if i == 4 {
        90
    } else if i == 5 {
        94
    } else if i == 6 {
        98
    } else if i == 7 {
        102
    } else if i == 8 {
        106
    } else if i == 9 {
        110
    } else if i == 10 {
        120
    } else if i == 11 {
        124
    } else if i == 12 {
        128
    } else if i == 13 {
        132
    } else if i == 14 {
        136
    } else if i == 15 {
        140
    } else if i == 16 {
        150
    } else if i == 17 {
        154
    } else if i == 18 {
        158
    } else if i == 19 {
        162
    } else if i == 20 {
        166
    } else if i == 21 {
        170
    } else if i == 22 {
        180
    } else if i == 23 {
        184
    } else if i == 24 {
        188
    } else if i == 25 {
        192
    } else if i == 26 {
        196
    } else if i == 27 {
        200
    } else if i == 28 {
        210
    } else if i == 29 {
        214
    } else if i == 30 {
        218
    } else {
        222
    }
}

/// Bit position of the health word of satellite `i + 25` on subframe 4 page 25.
pub open spec fn svh4_pos(i: int) -> int {
    if i == 0 {
        228
    } else if i == 1 {
        240
    } else if i == 2 {
        246
    } else if i == 3 {
        252
    } else if i == 4 {
        258
    } else if i == 5 {
        270
    } else if i == 6 {
        276
    } else {
        282
    }
}

fn svh4_pos_at(i: usize) -> (d: usize)
    requires
        i < 8,
    ensures
        d == svh4_pos(i as int),
        d <= 282,
{
    if i == 0 {
        228
    } else if i == 1 {
        240
    } else if i == 2 {
        246
    } else if i == 3 {
        252
    } else if i == 4 {
        258
    } else if i == 5 {
        270
    } else if i == 6 {
        276
    } else {
        282
    }
}

/// Bit position of the health word of satellite `i + 1` on subframe 5 page 25.
pub open spec fn svh5_pos(i: int) -> int {
    if i == 0 {
        90
    } else if i == 1 {
        96
    } else if i == 2 {
        102
    } else if i == 3 {
        108
    } else if i == 4 {
        120
    } else if i == 5 {
        126
    } else if i == 6 {
        132
    } else if i == 7 {
        138
    } else if i == 8 {
        150
    } else if i == 9 {
        156
    } else if i == 10 {
        162
    } else if i == 11 {
        168
    } else if i == 12 {
        180
    } else if i == 13 {
        186
    } else if i == 14 {
        192
    } else if i == 15 {
        198
    } else if i == 16 {
        210
    } else if i == 17 {
        216
    } else if i == 18 {
        222
    } else if i == 19 {
        228
    } else if i == 20 {
        240
    } else if i == 21 {
        246
    } else if i == 22 {
        252
    } else {
        258
    }
}

fn svh5_pos_at(i: usize) -> (d: usize)
    requires
        i < 24,
    ensures
        d == svh5_pos(i as int),
        d <= 258,
{
    if i == 0 {
        90
    } else if i == 1 {
        96
    } else if i == 2 {
        102
    } else if i == 3 {
        108
    } else if i == 4 {
        120
    } else if i == 5 {
        126
    } else if i == 6 {
        132
    } else if i == 7 {
        138
    } else if i == 8 {
        150
    } else if i == 9 {
        156
    } else if i == 10 {
        162
    } else if i == 11 {
        168
    } else if i == 12 {
        180
    } else if i == 13 {
        186
    } else if i == 14 {
        192
    } else if i == 15 {
        198
    } else if i == 16 {
        210
    } else if i == 17 {
        216
    } else if i == 18 {
        222
    } else if i == 19 {
        228
    } else if i == 20 {
        240
    } else if i == 21 {
        246
    } else if i == 22 {
        252
    } else {
        258
    }
}

/// Raw ionosphere and UTC parameters from subframe 4 page 18.
///
/// Scale factors (ICD-GPS-200): `ion_a0_raw` 2^-30 s, `ion_a1_raw` 2^-27,
/// `ion_a2_raw`, `ion_a3_raw` 2^-24; `ion_b0_raw` 2^11 s, `ion_b1_raw`
/// 2^14, `ion_b2_raw`, `ion_b3_raw` 2^16; `utc_a0_raw` 2^-30 s,
/// `utc_a1_raw` 2^-50 s/s; `utc_tot_raw` 2^12 s; `utc_dtls_raw` 1 s.
#[derive(Clone, Copy, PartialEq, Eq, Structural)]
pub struct IonoUtc {
    /// Ionosphere alpha coefficients, raw.
    pub ion_a0_raw: i32,
    pub ion_a1_raw: i32,
    pub ion_a2_raw: i32,
    pub ion_a3_raw: i32,
    /// Ionosphere beta coefficients, raw.
    pub ion_b0_raw: i32,
    pub ion_b1_raw: i32,
    pub ion_b2_raw: i32,
    pub ion_b3_raw: i32,
    /// UTC offset polynomial, raw.
    pub utc_a0_raw: i32,
    pub utc_a1_raw: i32,
    /// UTC reference time, raw.
    pub utc_tot_raw: i32,
    /// Leap seconds, raw.
    pub utc_dtls_raw: i32,
}

/// The ionosphere and UTC parameters carried by a subframe 4 buffer, when
/// it is page 18.
pub open spec fn sf4_iono_utc(buf: Seq<u8>) -> Option<IonoUtc> {
    if bits_value(buf, 60, 2) == 1 && bits_value(buf, 62, 6) == 56 {
        Some(IonoUtc {
            ion_a0_raw: sbits_value(buf, 68, 8) as i32,
            ion_a1_raw: sbits_value(buf, 76, 8) as i32,
            ion_a2_raw: sbits_value(buf, 90, 8) as i32,
            ion_a3_raw: sbits_value(buf, 98, 8) as i32,
            ion_b0_raw: sbits_value(buf, 106, 8) as i32,
            ion_b1_raw: sbits_value(buf, 120, 8) as i32,
            ion_b2_raw: sbits_value(buf, 128, 8) as i32,
            ion_b3_raw: sbits_value(buf, 136, 8) as i32,
            utc_a0_raw: (sbits_value(buf, 180, 24) * 256 + bits_value(buf, 210, 8)) as i32,
            utc_a1_raw: sbits_value(buf, 150, 24) as i32,
            utc_tot_raw: sbits_value(buf, 218, 8) as i32,
            utc_dtls_raw: sbits_value(buf, 226, 8) as i32,
        })
    } else {
        None
    }
}

/// The almanac array that decoding a subframe 4 buffer leaves behind:
/// pages for satellites 25 to 32 replace that satellite's entry, page 25
/// rewrites configuration and upper health words, other pages change
/// nothing.
pub open spec fn alm_after_sf4(alm: Seq<Almanac>, buf: Seq<u8>) -> Seq<Almanac> {
    let data_id = bits_value(buf, 60, 2);
    let svid = bits_value(buf, 62, 6);
    if data_id == 1 && 25 <= svid <= 32 {
        alm.update(svid - 1, alm_page(alm[svid - 1], buf, svid as u32))
    } else if data_id == 1 && svid == 63 {
        Seq::new(
            32,
            |i: int|
                Almanac {
                    svconf: bits_value(buf, svconf_pos(i), 4) as u32,
                    svh: if i >= 24 {
                        bits_value(buf, svh4_pos(i - 24), 6) as u32
                    } else {
                        alm[i].svh
                    },
                    ..alm[i]
                },
        )
    } else {
        alm
    }
}

/// The almanac array that decoding a subframe 5 buffer leaves behind:
/// pages for satellites 1 to 24 replace that satellite's entry, page 25
/// rewrites the shared week, reference time and lower health words.
pub open spec fn alm_after_sf5(alm: Seq<Almanac>, buf: Seq<u8>) -> Seq<Almanac> {
    let data_id = bits_value(buf, 60, 2);
    let svid = bits_value(buf, 62, 6);
    if data_id == 1 && 1 <= svid <= 24 {
        alm.update(svid - 1, alm_page(alm[svid - 1], buf, svid as u32))
    } else if data_id == 1 && svid == 51 {
        Seq::new(
            32,
            |i: int|
                Almanac {
                    week: (bits_value(buf, 76, 8) + 2048) as u32,
                    toas: (bits_value(buf, 68, 8) * 4096) as u32,
                    svh: if i < 24 {
                        bits_value(buf, svh5_pos(i), 6) as u32
                    } else {
                        alm[i].svh
                    },
                    ..alm[i]
                },
        )
    } else {
        alm
    }
}

/// Decode a subframe 4 buffer: the time of week into the ephemeris, the
/// almanac pages into the shared array, and page 18's ionosphere and UTC
/// parameters as the result.
pub fn decode_subframe4(eph: &mut Ephemeris, alm: &mut Vec<Almanac>, buf: &[u8]) -> (iu: Option<
    IonoUtc,
>)
    requires
        buf@.len() >= 38,
        old(alm)@.len() == 32,
    ensures
        *final(eph) == (Ephemeris { tow: (bits_value(buf@, 30, 17) * 6) as u32, ..*old(eph) }),
        final(alm)@ == alm_after_sf4(old(alm)@, buf@),
        iu == sf4_iono_utc(buf@),
{
    proof {
        crate::bits::lemma_bits_value_bound(buf@, 30, 17);
        crate::bits::lemma_bits_value_bound(buf@, 62, 6);
        vstd::arithmetic::power2::lemma2_to64();
    }
    eph.tow = getbitu(buf, 30, 17) * 6;
    let data_id = getbitu(buf, 60, 2);
    let svid = getbitu(buf, 62, 6);
    let mut iu: Option<IonoUtc> = None;
    if data_id == 1 {
        if 25 <= svid && svid <= 32 {
            let mut a = alm[(svid - 1) as usize];
            a.nav_decode_alm(buf, svid);
            alm.set((svid - 1) as usize, a);
            proof {
                assert(alm@ =~= alm_after_sf4(old(alm)@, buf@));
            }
        } else if svid == 63 {
            let mut i: usize = 0;
            while i < 32
                invariant
                    i <= 32,
                    buf@.len() >= 38,
                    alm@.len() == 32,
                    bits_value(buf@, 60, 2) == 1,
                    bits_value(buf@, 62, 6) == 63,
                    forall|t: int|
                        0 <= t < i ==> alm@[t] == alm_after_sf4(old(alm)@, buf@)[t],
                    forall|t: int| i <= t < 32 ==> alm@[t] == old(alm)@[t],
                decreases 32 - i,
            {
                let mut a = alm[i];
                a.svconf = getbitu(buf, svconf_pos_at(i), 4);
                if i >= 24 {
                    a.svh = getbitu(buf, svh4_pos_at(i - 24), 6);
                }
                alm.set(i, a);
                i = i + 1;
            }
            proof {
                assert(alm@ =~= alm_after_sf4(old(alm)@, buf@));
            }
        } else if svid == 56 {
            iu = Some(
                IonoUtc {
                    ion_a0_raw: getbits(buf, 68, 8),
                    ion_a1_raw: getbits(buf, 76, 8),
                    ion_a2_raw: getbits(buf, 90, 8),
                    ion_a3_raw: getbits(buf, 98, 8),
                    ion_b0_raw: getbits(buf, 106, 8),
                    ion_b1_raw: getbits(buf, 120, 8),
                    ion_b2_raw: getbits(buf, 128, 8),
                    ion_b3_raw: getbits(buf, 136, 8),
                    utc_a0_raw: getbits2(buf, 180, 24, 210, 8),
                    utc_a1_raw: getbits(buf, 150, 24),
                    utc_tot_raw: getbits(buf, 218, 8),
                    utc_dtls_raw: getbits(buf, 226, 8),
                },
            );
        }
    }
    iu
}

/// Decode a subframe 5 buffer: the time of week into the ephemeris and the
/// almanac pages into the shared array.
pub fn decode_subframe5(eph: &mut Ephemeris, alm: &mut Vec<Almanac>, buf: &[u8])
    requires
        buf@.len() >= 38,
        old(alm)@.len() == 32,
    ensures
        *final(eph) == (Ephemeris { tow: (bits_value(buf@, 30, 17) * 6) as u32, ..*old(eph) }),
        final(alm)@ == alm_after_sf5(old(alm)@, buf@),
{
    proof {
        crate::bits::lemma_bits_value_bound(buf@, 30, 17);
        crate::bits::lemma_bits_value_bound(buf@, 62, 6);
        crate::bits::lemma_bits_value_bound(buf@, 68, 8);
        crate::bits::lemma_bits_value_bound(buf@, 76, 8);
        vstd::arithmetic::power2::lemma2_to64();
    }
    eph.tow = getbitu(buf, 30, 17) * 6;
    let data_id = getbitu(buf, 60, 2);
    let svid = getbitu(buf, 62, 6);
    if data_id == 1 {
        if 1 <= svid && svid <= 24 {
            let mut a = alm[(svid - 1) as usize];
            a.nav_decode_alm(buf, svid);
            alm.set((svid - 1) as usize, a);
            proof {
                assert(alm@ =~= alm_after_sf5(old(alm)@, buf@));
            }
        } else if svid == 51 {
            let toas = getbitu(buf, 68, 8) * 4096;
            let week = getbitu(buf, 76, 8) + 2048;
            let mut i: usize = 0;
            while i < 32
                invariant
                    i <= 32,
                    buf@.len() >= 38,
                    alm@.len() == 32,
                    bits_value(buf@, 60, 2) == 1,
                    bits_value(buf@, 62, 6) == 51,
                    toas == bits_value(buf@, 68, 8) * 4096,
                    week == bits_value(buf@, 76, 8) + 2048,
                    forall|t: int|
                        0 <= t < i ==> alm@[t] == alm_after_sf5(old(alm)@, buf@)[t],
                    forall|t: int| i <= t < 32 ==> alm@[t] == old(alm)@[t],
                decreases 32 - i,
            {
                let mut a = alm[i];
                a.week = week;
                a.toas = toas;
                if i < 24 {
                    a.svh = getbitu(buf, svh5_pos_at(i), 6);
                }
                alm.set(i, a);
                i = i + 1;
            }
            proof {
                assert(alm@ =~= alm_after_sf5(old(alm)@, buf@));
            }
        }
    }
}

/// An ephemeris stamped with the receiver time of its last subframe and
/// with the GPS-time epochs of `tow` and `toe`, once a week is known.
pub open spec fn eph_with_time(e: Ephemeris, ts_ms: u64) -> Ephemeris {
    if e.week != 0 {
        Ephemeris {
            ts_ms,
            tow_gpst: (e.week * 604800 + e.tow) as u64,
            toe_gpst: (e.week * 604800 + e.toe) as u64,
            ..e
        }
    } else {
        e
    }
}

/// Whether the decoded frame starts with the LNAV preamble and carries
/// zeros in the two reserved handover bits.
pub open spec fn frame_head_ok(buf: Seq<u8>) -> bool {
    bits_value(buf, 0, 8) == 0x8b && bits_value(buf, 58, 2) == 0
}

/// Decode one parity-checked LNAV frame buffer into the ephemeris and the
/// almanac array, dispatching on the subframe ID in the handover word; the
/// telemetry word and, once the week is known, the receiver and GPS
/// timestamps are updated with it. A frame whose preamble or reserved bits
/// are wrong is refused.
pub fn decode_subframe(eph: &mut Ephemeris, alm: &mut Vec<Almanac>, buf: &[u8], ts_ms: u64) -> (id:
    Option<u32>)
    requires
        buf@.len() >= 38,
        old(alm)@.len() == 32,
    ensures
        final(alm)@.len() == 32,
        id is None <==> !frame_head_ok(buf@),
        !frame_head_ok(buf@) ==> *final(eph) == *old(eph) && final(alm)@ == old(alm)@,
        frame_head_ok(buf@) ==> {
            let sid = bits_value(buf@, 49, 3);
            let tl = (Ephemeris { tlm: bits_value(buf@, 8, 14) as u32, ..*old(eph) });
            &&& id == Some(sid as u32)
            &&& (sid == 1 ==> *final(eph) == eph_with_time(eph_sf1(tl, buf@), ts_ms)
                && final(alm)@ == old(alm)@)
            &&& (sid == 2 ==> *final(eph) == eph_with_time(eph_sf2(tl, buf@), ts_ms)
                && final(alm)@ == old(alm)@)
            &&& (sid == 3 ==> *final(eph) == eph_with_time(eph_sf3(tl, buf@), ts_ms)
                && final(alm)@ == old(alm)@)
            &&& (sid == 4 ==> *final(eph) == eph_with_time(
                (Ephemeris { tow: (bits_value(buf@, 30, 17) * 6) as u32, ..tl }),
                ts_ms,
            ) && final(alm)@ == alm_after_sf4(old(alm)@, buf@))
            &&& (sid == 5 ==> *final(eph) == eph_with_time(
                (Ephemeris { tow: (bits_value(buf@, 30, 17) * 6) as u32, ..tl }),
                ts_ms,
            ) && final(alm)@ == alm_after_sf5(old(alm)@, buf@))
            &&& (!(1 <= sid <= 5) ==> *final(eph) == eph_with_time(tl, ts_ms)
                && final(alm)@ == old(alm)@)
        },
{
    let preamble_val = getbitu(buf, 0, 8);
    let reserved = getbitu(buf, 58, 2);
    if preamble_val != 0x8b || reserved != 0 {
        return None;
    }
    eph.tlm = getbitu(buf, 8, 14);
    let subframe_id = getbitu(buf, 49, 3);
    if subframe_id == 1 {
        eph.decode_subframe1(buf);
    } else if subframe_id == 2 {
        eph.decode_subframe2(buf);
    } else if subframe_id == 3 {
        eph.decode_subframe3(buf);
    } else if subframe_id == 4 {
        let _ = decode_subframe4(eph, alm, buf);
    } else if subframe_id == 5 {
        decode_subframe5(eph, alm, buf);
    }
    if eph.week != 0 {
        proof {
            crate::bits::lemma_bits_value_bound(buf@, 60, 10);
            vstd::arithmetic::power2::lemma2_to64();
        }
        eph.ts_ms = ts_ms;
        let week64 = eph.week as u64;
        eph.tow_gpst = week64 * 604800 + eph.tow as u64;
        eph.toe_gpst = week64 * 604800 + eph.toe as u64;
    }
    Some(subframe_id)
}


/// The subframe ID carried by a frame of symbols: bits 49 to 52 of the
/// restored data words.
pub open spec fn frame_subframe_id(syms: Seq<u8>) -> nat {
    ((crate::lnav::data24(syms, 1) as nat) / 4) % 8
}

/// Whether the restored data words of a frame of symbols start with the
/// LNAV preamble: its eight leading data bits are the pattern 0x8b.
pub open spec fn frame_data_head_ok(syms: Seq<u8>) -> bool {
    (crate::lnav::data24(syms, 0) as nat) / 0x10000 == 0x8b
}

impl Navigation {
    /// The 300 frame symbols from the tail of the ring, complemented when
    /// the frame is reversed.
    fn extract_syms(&self, rev: bool) -> (syms: Vec<u8>)
        requires
            nav_wf(*self),
        ensures
            syms@ == frame_syms(self.bits@, rev),
            syms@.len() == 300,
            all_bits(syms@),
    {
        let mut syms: Vec<u8> = Vec::new();
        let mut k: usize = 0;
        while k < 300
            invariant
                nav_wf(*self),
                k <= 300,
                syms@.len() == k,
                forall|t: int| 0 <= t < k ==> syms@[t] == frame_syms(self.bits@, rev)[t],
                forall|t: int| 0 <= t < k ==> syms@[t] <= 1,
            decreases 300 - k,
        {
            let b = self.bits[17692 + k];
            syms.push(if rev {
                1 - b
            } else {
                b
            });
            k = k + 1;
        }
        proof {
            assert(syms@ =~= frame_syms(self.bits@, rev));
        }
        syms
    }

    /// Parity-check the frame at the tail of the ring and, when all 60
    /// parity bits hold, decode its subframe; a parity failure drops frame
    /// sync and is counted. Only a frame that passed every parity check
    /// reaches subframe decoding.
    pub fn nav_decode_lnav(
        &mut self,
        sync: SyncState,
        alm: &mut Vec<Almanac>,
        num_trk: usize,
        ts_ms: u64,
    ) -> (id: Option<u32>)
        requires
            nav_wf(*old(self)),
            sync != SyncState::NONE,
            old(alm)@.len() == 32,
            1 <= num_trk <= usize::MAX - 6000,
        ensures
            nav_wf(*final(self)),
            final(self).bits@ == old(self).bits@,
            final(self).ssync == old(self).ssync,
            final(alm)@.len() == 32,
            ({
                let syms = frame_syms(old(self).bits@, sync == SyncState::REVERSED);
                &&& (id is Some ==> frame_parity_ok(syms))
                &&& (frame_parity_ok(syms) ==> {
                    &&& final(self).fsync == num_trk
                    &&& final(self).sync_state == sync
                    &&& final(self).count_parity_err == old(self).count_parity_err
                    &&& (id is None <==> !frame_data_head_ok(syms))
                    &&& (id matches Some(i) ==> i == frame_subframe_id(syms))
                })
                &&& (!frame_parity_ok(syms) ==> {
                    &&& final(self).fsync == 0
                    &&& final(self).sync_state == SyncState::NORMAL
                    &&& final(self).count_parity_err == bumped(old(self).count_parity_err)
                    &&& final(self).eph == old(self).eph
                    &&& final(alm)@ == old(alm)@
                    &&& id is None
                })
            }),
    {
        let rev = match sync {
            SyncState::REVERSED => true,
            _ => false,
        };
        let syms = self.extract_syms(rev);
        let mut nav_data: Vec<u8> = Vec::new();
        let mut k: usize = 0;
        while k < 38
            invariant
                k <= 38,
                nav_data@.len() == k,
            decreases 38 - k,
        {
            nav_data.push(0);
            k = k + 1;
        }
        if nav_test_lnav_parity(syms.as_slice(), &mut nav_data) {
            self.fsync = num_trk;
            self.sync_state = sync;
            proof {
                let nd = nav_data@;
                let sy = syms@;
                vstd::arithmetic::power2::lemma2_to64();
                // The packed head: the first eight buffer bits are the top
                // bits of the first data word.
                crate::bits::lemma_bits_value_split(nd, 0, 8, 16);
                crate::bits::lemma_bits_value_bound(nd, 8, 16);
                vstd::arithmetic::div_mod::lemma_fundamental_div_mod_converse(
                    crate::lnav::data24(sy, 0) as int,
                    0x10000,
                    bits_value(nd, 0, 8) as int,
                    bits_value(nd, 8, 16) as int,
                );
                // The reserved bits sit in the zero padding of word 1.
                crate::bits::lemma_bits_value_split(nd, 54, 4, 2);
                // The subframe ID: bits 49 to 52 inside data word 1.
                crate::bits::lemma_bits_value_split(nd, 30, 19, 5);
                crate::bits::lemma_bits_value_split(nd, 49, 3, 2);
                crate::bits::lemma_bits_value_bound(nd, 49, 3);
                crate::bits::lemma_bits_value_bound(nd, 52, 2);
                let b19 = bits_value(nd, 30, 19) as int;
                let id3 = bits_value(nd, 49, 3) as int;
                let r2 = bits_value(nd, 52, 2) as int;
                assert(b19 * 32 + (id3 * 4 + r2) == (b19 * 8 + id3) * 4 + r2)
                    by (nonlinear_arith);
                vstd::arithmetic::div_mod::lemma_fundamental_div_mod_converse(
                    crate::lnav::data24(sy, 1) as int,
                    4,
                    b19 * 8 + id3,
                    r2,
                );
                vstd::arithmetic::div_mod::lemma_mod_multiples_vanish(b19, id3, 8);
                vstd::arithmetic::div_mod::lemma_small_mod(id3 as nat, 8);
            }
            decode_subframe(&mut self.eph, alm, nav_data.as_slice(), ts_ms)
        } else {
            self.fsync = 0;
            self.sync_state = SyncState::NORMAL;
            if self.count_parity_err < usize::MAX {
                self.count_parity_err = self.count_parity_err + 1;
            }
            None
        }
    }

    /// Record a navigation-bit boundary found at tick `num_trk`, `n` ticks
    /// after it; ignored while bit sync is already held.
    pub fn nav_bitsync(&mut self, num_trk: usize, n: usize, found: bool)
        requires
            nav_wf(*old(self)),
            n <= num_trk,
        ensures
            nav_wf(*final(self)),
            final(self).ssync == (if old(self).ssync == 0 && found {
                (num_trk - n) as usize
            } else {
                old(self).ssync
            }),
            final(self).fsync == old(self).fsync,
            final(self).sync_state == old(self).sync_state,
            final(self).bits@ == old(self).bits@,
            final(self).eph == old(self).eph,
            final(self).count_parity_err == old(self).count_parity_err,
    {
        if self.ssync == 0 && found {
            self.ssync = num_trk - n;
        }
    }

    /// Take one navigation-bit decision at an aligned tick: a mean below
    /// the loss threshold drops bit sync; otherwise the bit named by the
    /// mean's sign enters the ring and, at the expected frame boundary or
    /// during the initial search, the frame at the tail is checked and
    /// decoded. Any subframe decode happens only on a frame whose 60
    /// parity bits all hold.
    pub fn nav_on_symbol(
        &mut self,
        nonneg: bool,
        lost: bool,
        num_trk: usize,
        alm: &mut Vec<Almanac>,
        ts_ms: u64,
    ) -> (id: Option<u32>)
        requires
            nav_wf(*old(self)),
            old(alm)@.len() == 32,
            1 <= num_trk <= usize::MAX - 6000,
        ensures
            nav_wf(*final(self)),
            final(alm)@.len() == 32,
            id is Some ==> frame_parity_ok(
                frame_syms(final(self).bits@, final(self).sync_state == SyncState::REVERSED),
            ) && final(self).fsync == num_trk,
            lost ==> {
                &&& final(self).ssync == 0
                &&& final(self).sync_state == SyncState::NORMAL
                &&& final(self).fsync == old(self).fsync
                &&& final(self).bits@ == old(self).bits@
                &&& final(self).eph == old(self).eph
                &&& final(alm)@ == old(alm)@
                &&& id is None
            },
            !lost ==> {
                let bit: u8 = if nonneg {
                    1u8
                } else {
                    0u8
                };
                let nb = ring_push(old(self).bits@, bit);
                let sync = frame_sync_of(nb);
                &&& final(self).bits@ == nb
                &&& (old(self).fsync > 0 && num_trk == old(self).fsync + 6000 && sync == old(
                    self,
                ).sync_state ==> decode_done(*old(self), *final(self), nb, sync, num_trk))
                &&& (old(self).fsync > 0 && num_trk == old(self).fsync + 6000 && sync != old(
                    self,
                ).sync_state ==> unchanged_but_ring(*old(self), *final(self)) && id is None)
                &&& (old(self).fsync > 0 && num_trk > old(self).fsync + 6000 ==> {
                    &&& final(self).fsync == 0
                    &&& final(self).ssync == 0
                    &&& final(self).sync_state == SyncState::NORMAL
                    &&& final(self).eph == old(self).eph
                    &&& id is None
                })
                &&& (old(self).fsync > 0 && num_trk < old(self).fsync + 6000
                    ==> unchanged_but_ring(*old(self), *final(self)) && id is None)
                &&& (old(self).fsync == 0 && num_trk >= 7160 && sync != SyncState::NONE
                    ==> decode_done(*old(self), *final(self), nb, sync, num_trk))
                &&& (old(self).fsync == 0 && (num_trk < 7160 || sync == SyncState::NONE)
                    ==> unchanged_but_ring(*old(self), *final(self)) && id is None)
            },
    {
        if lost {
            self.ssync = 0;
            self.sync_state = SyncState::NORMAL;
            return None;
        }
        let bit: u8 = if nonneg {
            1
        } else {
            0
        };
        self.nav_add_bit(bit);
        if self.fsync > 0 {
            if num_trk == self.fsync + 6000 {
                let sync = self.nav_get_frame_sync_state();
                if sync == self.sync_state {
                    return self.nav_decode_lnav(sync, alm, num_trk, ts_ms);
                }
            } else if num_trk > self.fsync + 6000 {
                self.fsync = 0;
                self.ssync = 0;
                self.sync_state = SyncState::NORMAL;
            }
        } else if num_trk >= 20 * 308 + 1000 {
            let sync = self.nav_get_frame_sync_state();
            if !(sync == SyncState::NONE) {
                return self.nav_decode_lnav(sync, alm, num_trk, ts_ms);
            }
        }
        None
    }
}

/// Everything but the symbol ring is as it was.
pub open spec fn unchanged_but_ring(pre: Navigation, post: Navigation) -> bool {
    &&& post.ssync == pre.ssync
    &&& post.fsync == pre.fsync
    &&& post.sync_state == pre.sync_state
    &&& post.eph == pre.eph
    &&& post.count_parity_err == pre.count_parity_err
}

/// The frame at the tail of ring `nb` was parity-checked with polarity
/// `sync`: on success frame sync moves to `num_trk`, on failure it is
/// dropped and the error counted.
pub open spec fn decode_done(
    pre: Navigation,
    post: Navigation,
    nb: Seq<u8>,
    sync: SyncState,
    num_trk: usize,
) -> bool {
    let syms = frame_syms(nb, sync == SyncState::REVERSED);
    &&& (frame_parity_ok(syms) ==> post.fsync == num_trk && post.sync_state == sync
        && post.count_parity_err == pre.count_parity_err)
    &&& (!frame_parity_ok(syms) ==> post.fsync == 0 && post.sync_state == SyncState::NORMAL
        && post.count_parity_err == bumped(pre.count_parity_err) && post.eph == pre.eph)
    &&& post.ssync == pre.ssync
}

} // verus!
