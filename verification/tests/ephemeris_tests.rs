use gnss_rcv::almanac::Almanac;
use gnss_rcv::bits::setbitu;
use gnss_rcv::ephemeris::Ephemeris;

#[test]
fn subframe_one_fields_decode_with_icd_placement() {
    let mut e = Ephemeris::new(4);
    let mut buf = vec![0u8; 38];
    setbitu(&mut buf, 30, 17, 33); // tow count
    setbitu(&mut buf, 60, 10, 150); // week
    setbitu(&mut buf, 70, 2, 1); // code on L2
    setbitu(&mut buf, 72, 4, 2); // accuracy
    setbitu(&mut buf, 76, 6, 0); // health
    setbitu(&mut buf, 82, 2, 3); // IODC high
    setbitu(&mut buf, 210, 8, 0x55); // IODC low
    setbitu(&mut buf, 196, 8, 0xFE); // TGD: -2
    setbitu(&mut buf, 218, 16, 2345); // toc / 16
    setbitu(&mut buf, 270, 22, 0x200000); // f0: most negative
    e.decode_subframe1(&buf);
    assert_eq!(e.tow, 198);
    assert_eq!(e.week, 150 + 2048);
    assert_eq!(e.code, 1);
    assert_eq!(e.sva, 2);
    assert_eq!(e.svh, 0);
    assert_eq!(e.iodc, 3 * 256 + 0x55);
    assert_eq!(e.tgd_raw, -2);
    assert_eq!(e.toc, 2345 * 16);
    assert_eq!(e.f0_raw, -(1 << 21));
    assert_eq!(e.prn, 4);
}

#[test]
fn subframe_three_fields_decode_with_icd_placement() {
    let mut e = Ephemeris::new(4);
    let mut buf = vec![0u8; 38];
    setbitu(&mut buf, 76, 8, 0xFF); // omega0 high byte: sign
    setbitu(&mut buf, 90, 24, 0xFFFFFF); // omega0 low bits
    setbitu(&mut buf, 240, 24, 0x800000); // omega dot: most negative
    setbitu(&mut buf, 270, 8, 99); // IODE
    setbitu(&mut buf, 278, 14, 0x2001); // i dot
    e.decode_subframe3(&buf);
    assert_eq!(e.omg0_raw, -1);
    assert_eq!(e.omg_dot_raw, -(1 << 23));
    assert_eq!(e.iode, 99);
    assert_eq!(e.i_dot_raw, -(1 << 13) + 1);
}

#[test]
fn completeness_needs_week_toe_timestamp_and_orbit_size() {
    let mut e = Ephemeris::new(1);
    assert!(!e.is_complete());
    e.week = 2100;
    e.toe = 144000;
    e.ts_ms = 55_000;
    // sqrt(26 560 km) is about 5153.6 sqrt(m); scaled by 2^19.
    e.sqrt_a_raw = 2_702_000_000;
    assert!(e.is_complete());

    // A small orbit is rejected: sqrt(10 000 km) scaled by 2^19.
    e.sqrt_a_raw = 1_658_000_000;
    assert!(!e.is_complete());
    e.sqrt_a_raw = 2_702_000_000;
    e.week = 0;
    assert!(!e.is_complete());
    e.week = 2100;
    e.toe = 0;
    assert!(!e.is_complete());
    e.toe = 144000;
    e.ts_ms = 0;
    assert!(!e.is_complete());
}

#[test]
fn almanac_page_fields_decode() {
    let mut a = Almanac::new();
    let mut buf = vec![0u8; 38];
    setbitu(&mut buf, 68, 16, 0x0123);
    setbitu(&mut buf, 90, 8, 9);
    setbitu(&mut buf, 136, 8, 0x3F);
    setbitu(&mut buf, 270, 8, 0xAB); // f0 high bits
    setbitu(&mut buf, 289, 3, 0x5); // f0 low bits
    setbitu(&mut buf, 278, 11, 0x400);
    a.nav_decode_alm(&buf, 13);
    assert_eq!(a.sat, 13);
    assert_eq!(a.e_raw, 0x0123);
    assert_eq!(a.toas, 9 * 4096);
    assert_eq!(a.svh, 0x3F);
    assert_eq!(a.f0_raw, 0xAB * 8 + 5);
    assert_eq!(a.f1_raw, 0x400);
}
