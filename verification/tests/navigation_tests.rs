use gnss_rcv::almanac::Almanac;
use gnss_rcv::bits::{setbitu, xor_bits};
use gnss_rcv::navigation::{
    decode_subframe, decode_subframe4, decode_subframe5, Navigation, SyncState,
};

const MASK: [u32; 6] = [
    0x2EC7CD2, 0x1763E69, 0x2BB1F34, 0x15D8F9A, 0x1AEC7CD, 0x22DEA27,
];

fn build_frame(words: &[u32; 10]) -> Vec<u8> {
    let mut bits = Vec::new();
    let mut d29: u32 = 0;
    let mut d30: u32 = 0;
    for w in 0..10 {
        let data = words[w] & 0xFFFFFF;
        let trans = if d30 == 1 { data ^ 0xFFFFFF } else { data };
        let basis: u32 = (d29 << 25) | (d30 << 24) | data;
        let mut parity = [0u8; 6];
        for j in 0..6 {
            parity[j] = xor_bits(basis & MASK[j]);
        }
        for k in 0..24 {
            bits.push(((trans >> (23 - k)) & 1) as u8);
        }
        for j in 0..6 {
            bits.push(parity[j]);
        }
        d29 = parity[4] as u32;
        d30 = parity[5] as u32;
    }
    bits
}

fn fresh_almanac() -> Vec<Almanac> {
    (0..32).map(|_| Almanac::new()).collect()
}

/// A frame whose handover word names subframe 1: frame bit 51 is the low
/// bit of the ID field, which is bit 21 of data word 1.
fn subframe1_words() -> [u32; 10] {
    let mut words = [0u32; 10];
    words[0] = 0x8B0000;
    words[1] = 1 << 2;
    words
}

const PRE: [u8; 8] = [1, 0, 0, 0, 1, 0, 1, 1];

#[test]
fn frame_sync_detects_upright_and_reversed_preambles() {
    let mut nav = Navigation::new(5);
    assert_eq!(nav.nav_get_frame_sync_state(), SyncState::NONE);

    for k in 0..308usize {
        let bit = if k < 8 {
            PRE[k]
        } else if k >= 300 {
            PRE[k - 300]
        } else {
            0
        };
        nav.nav_add_bit(bit);
    }
    assert_eq!(nav.nav_get_frame_sync_state(), SyncState::NORMAL);

    for k in 0..308usize {
        let bit = if k < 8 {
            1 - PRE[k]
        } else if k >= 300 {
            1 - PRE[k - 300]
        } else {
            1
        };
        nav.nav_add_bit(bit);
    }
    assert_eq!(nav.nav_get_frame_sync_state(), SyncState::REVERSED);
}

#[test]
fn nav_on_symbol_decodes_a_clean_frame() {
    let mut nav = Navigation::new(9);
    let mut alm = fresh_almanac();
    let frame = build_frame(&subframe1_words());

    // The ring tail must read: 300 frame symbols, then the next preamble.
    // The last preamble symbol (a one) enters through the decoder entry.
    for k in 0..300usize {
        nav.nav_add_bit(frame[k]);
    }
    for k in 0..7usize {
        nav.nav_add_bit(PRE[k]);
    }
    let id = nav.nav_on_symbol(true, false, 8000, &mut alm, 4242);

    assert_eq!(id, Some(1));
    assert_eq!(nav.fsync, 8000);
    assert_eq!(nav.sync_state, SyncState::NORMAL);
    assert_eq!(nav.count_parity_err, 0);
    assert_eq!(nav.eph.week, 2048);
    assert_eq!(nav.eph.tow, 0);
    assert_eq!(nav.eph.ts_ms, 4242);
    assert_eq!(nav.eph.tow_gpst, 2048 * 604800);
}

#[test]
fn nav_on_symbol_decodes_a_reversed_frame() {
    let mut nav = Navigation::new(9);
    let mut alm = fresh_almanac();
    let frame = build_frame(&subframe1_words());

    for k in 0..300usize {
        nav.nav_add_bit(1 - frame[k]);
    }
    for k in 0..7usize {
        nav.nav_add_bit(1 - PRE[k]);
    }
    // The complemented stream ends in the complement of a one: a zero.
    let id = nav.nav_on_symbol(false, false, 9000, &mut alm, 77);

    assert_eq!(id, Some(1));
    assert_eq!(nav.sync_state, SyncState::REVERSED);
    assert_eq!(nav.eph.week, 2048);
}

#[test]
fn nav_on_symbol_counts_a_parity_error() {
    let mut nav = Navigation::new(9);
    let mut alm = fresh_almanac();
    let mut frame = build_frame(&subframe1_words());
    // Corrupt one mid-frame data bit; the preambles stay intact.
    frame[45] = 1 - frame[45];

    for k in 0..300usize {
        nav.nav_add_bit(frame[k]);
    }
    for k in 0..7usize {
        nav.nav_add_bit(PRE[k]);
    }
    let id = nav.nav_on_symbol(true, false, 8000, &mut alm, 4242);

    assert_eq!(id, None);
    assert_eq!(nav.fsync, 0);
    assert_eq!(nav.count_parity_err, 1);
    assert_eq!(nav.eph.week, 0);
}

#[test]
fn nav_on_symbol_loss_drops_bit_sync() {
    let mut nav = Navigation::new(3);
    let mut alm = fresh_almanac();
    nav.ssync = 40;
    let id = nav.nav_on_symbol(true, true, 100, &mut alm, 1);
    assert_eq!(id, None);
    assert_eq!(nav.ssync, 0);
    assert_eq!(nav.sync_state, SyncState::NORMAL);
}

#[test]
fn nav_bitsync_records_the_boundary_once() {
    let mut nav = Navigation::new(3);
    nav.nav_bitsync(100, 19, false);
    assert_eq!(nav.ssync, 0);
    nav.nav_bitsync(100, 19, true);
    assert_eq!(nav.ssync, 81);
    nav.nav_bitsync(200, 19, true);
    assert_eq!(nav.ssync, 81);
}

#[test]
fn dispatcher_refuses_a_bad_preamble() {
    let mut eph = gnss_rcv::ephemeris::Ephemeris::new(1);
    let mut alm = fresh_almanac();
    let buf = vec![0u8; 38];
    assert_eq!(decode_subframe(&mut eph, &mut alm, &buf, 5), None);
    assert_eq!(eph.week, 0);
}

#[test]
fn dispatcher_decodes_subframe_two_fields() {
    let mut eph = gnss_rcv::ephemeris::Ephemeris::new(1);
    let mut alm = fresh_almanac();
    let mut buf = vec![0u8; 38];
    setbitu(&mut buf, 0, 8, 0x8B);
    setbitu(&mut buf, 49, 3, 2);
    setbitu(&mut buf, 30, 17, 1000);
    setbitu(&mut buf, 60, 8, 42); // IODE
    setbitu(&mut buf, 68, 16, 0x8000); // Crs: most negative
    setbitu(&mut buf, 226, 8, 0xA1); // sqrt(A) high bits
    setbitu(&mut buf, 240, 24, 0x2C5E93); // sqrt(A) low bits
    setbitu(&mut buf, 270, 16, 600); // toe / 16
    let id = decode_subframe(&mut eph, &mut alm, &buf, 9);
    assert_eq!(id, Some(2));
    assert_eq!(eph.tow, 6000);
    assert_eq!(eph.iode, 42);
    assert_eq!(eph.crs_raw, -32768);
    assert_eq!(eph.sqrt_a_raw, (0xA1 << 24) | 0x2C5E93);
    assert_eq!(eph.toe, 9600);
    // No week yet: the receiver timestamp stays unset.
    assert_eq!(eph.ts_ms, 0);
}

#[test]
fn subframe_four_page_eighteen_yields_iono_and_utc() {
    let mut eph = gnss_rcv::ephemeris::Ephemeris::new(1);
    let mut alm = fresh_almanac();
    let mut buf = vec![0u8; 38];
    setbitu(&mut buf, 60, 2, 1); // data id
    setbitu(&mut buf, 62, 6, 56); // page 18
    setbitu(&mut buf, 68, 8, 0x80); // alpha0: most negative
    setbitu(&mut buf, 76, 8, 0x7F); // alpha1: most positive
    setbitu(&mut buf, 150, 24, 3); // A1
    setbitu(&mut buf, 180, 24, 0xFFFFFF); // A0 high: -1
    setbitu(&mut buf, 210, 8, 0xFF); // A0 low
    setbitu(&mut buf, 226, 8, 18); // leap seconds
    let iu = decode_subframe4(&mut eph, &mut alm, &buf).expect("page 18");
    assert_eq!(iu.ion_a0_raw, -128);
    assert_eq!(iu.ion_a1_raw, 127);
    assert_eq!(iu.utc_a1_raw, 3);
    assert_eq!(iu.utc_a0_raw, -1);
    assert_eq!(iu.utc_dtls_raw, 18);
}

#[test]
fn subframe_four_carries_upper_almanac_pages() {
    let mut eph = gnss_rcv::ephemeris::Ephemeris::new(1);
    let mut alm = fresh_almanac();
    let mut buf = vec![0u8; 38];
    setbitu(&mut buf, 60, 2, 1);
    setbitu(&mut buf, 62, 6, 27); // SV 27 almanac page
    setbitu(&mut buf, 68, 16, 0x1234); // eccentricity
    setbitu(&mut buf, 90, 8, 5); // toa
    setbitu(&mut buf, 150, 24, 0xABCDEF); // sqrt(A)
    let iu = decode_subframe4(&mut eph, &mut alm, &buf);
    assert!(iu.is_none());
    assert_eq!(alm[26].sat, 27);
    assert_eq!(alm[26].e_raw, 0x1234);
    assert_eq!(alm[26].toas, 5 * 4096);
    assert_eq!(alm[26].sqrt_a_raw, 0xABCDEF);
    assert_eq!(alm[25].sat, 0);
}

#[test]
fn subframe_five_page_25_spreads_week_and_health() {
    let mut eph = gnss_rcv::ephemeris::Ephemeris::new(1);
    let mut alm = fresh_almanac();
    let mut buf = vec![0u8; 38];
    setbitu(&mut buf, 60, 2, 1);
    setbitu(&mut buf, 62, 6, 51); // page 25
    setbitu(&mut buf, 68, 8, 7); // toa
    setbitu(&mut buf, 76, 8, 30); // week
    setbitu(&mut buf, 90, 6, 0x3F); // health of SV 1
    decode_subframe5(&mut eph, &mut alm, &buf);
    for i in 0..32 {
        assert_eq!(alm[i].week, 30 + 2048);
        assert_eq!(alm[i].toas, 7 * 4096);
    }
    assert_eq!(alm[0].svh, 0x3F);
    assert_eq!(alm[1].svh, 0);
}

#[test]
fn subframe_five_carries_lower_almanac_pages() {
    let mut eph = gnss_rcv::ephemeris::Ephemeris::new(1);
    let mut alm = fresh_almanac();
    let mut buf = vec![0u8; 38];
    setbitu(&mut buf, 60, 2, 1);
    setbitu(&mut buf, 62, 6, 3); // SV 3 almanac page
    setbitu(&mut buf, 278, 11, 0x7FF); // clock drift
    decode_subframe5(&mut eph, &mut alm, &buf);
    assert_eq!(alm[2].sat, 3);
    assert_eq!(alm[2].f1_raw, 0x7FF);
    assert_eq!(alm[3].sat, 0);
}

#[test]
fn frame_window_hit_redecodes_and_miss_drops_sync() {
    // A channel holding frame sync re-checks exactly 6000 ticks after the
    // last good frame.
    let mut nav = Navigation::new(9);
    let mut alm = fresh_almanac();
    let frame = build_frame(&subframe1_words());
    for k in 0..300usize {
        nav.nav_add_bit(frame[k]);
    }
    for k in 0..7usize {
        nav.nav_add_bit(PRE[k]);
    }
    nav.fsync = 1000;
    let id = nav.nav_on_symbol(true, false, 7000, &mut alm, 50);
    assert_eq!(id, Some(1));
    assert_eq!(nav.fsync, 7000);

    // Past the expected window the sync is dropped.
    let mut nav2 = Navigation::new(9);
    nav2.fsync = 1000;
    nav2.ssync = 40;
    let id2 = nav2.nav_on_symbol(true, false, 7002, &mut alm, 51);
    assert_eq!(id2, None);
    assert_eq!(nav2.fsync, 0);
    assert_eq!(nav2.ssync, 0);

    // Before the window nothing changes but the ring.
    let mut nav3 = Navigation::new(9);
    nav3.fsync = 1000;
    let id3 = nav3.nav_on_symbol(true, false, 5000, &mut alm, 52);
    assert_eq!(id3, None);
    assert_eq!(nav3.fsync, 1000);

    // Without frame sync, the search does not begin before enough symbols
    // have accumulated.
    let mut nav4 = Navigation::new(9);
    let id4 = nav4.nav_on_symbol(true, false, 7000, &mut alm, 53);
    assert_eq!(id4, None);
    assert_eq!(nav4.fsync, 0);
}
