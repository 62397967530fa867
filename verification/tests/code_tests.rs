use gnss_rcv::code::Code;

fn chip_bits(prn: u8, n: usize) -> Vec<u8> {
    let g = Code::gen_l1ca_code(prn);
    g[..n].iter().map(|&c| if c == 1 { 1u8 } else { 0u8 }).collect()
}

#[test]
fn prn1_first_ten_chips_match_icd() {
    // ICD-GPS-200 gives the first ten chips of PRN 1 as octal 1440.
    let bits = chip_bits(1, 10);
    assert_eq!(bits, vec![1, 1, 0, 0, 1, 0, 0, 0, 0, 0]);
}

#[test]
fn prn2_first_chips_match_icd() {
    // PRN 2's sequence differs from PRN 1's by its G2 delay; its first ten
    // chips are the ICD value 1110010000 (octal 1620).
    let bits = chip_bits(2, 10);
    assert_eq!(bits, vec![1, 1, 1, 0, 0, 1, 0, 0, 0, 0]);
    assert_ne!(chip_bits(1, 16), chip_bits(2, 16));
}

#[test]
fn every_gps_code_is_balanced() {
    // Each C/A Gold code is 1023 chips with exactly 512 ones.
    for prn in 1..=32u8 {
        let g = Code::gen_l1ca_code(prn);
        assert_eq!(g.len(), 1023);
        assert!(g.iter().all(|&c| c == 1 || c == -1));
        let ones = g.iter().filter(|&&c| c == 1).count();
        assert_eq!(ones, 512, "prn {}", prn);
    }
}

#[test]
fn gen_code_knows_only_l1ca() {
    let g = Code::gen_code("L1CA", 7).unwrap();
    assert_eq!(g, Code::gen_l1ca_code(7));
    assert!(Code::gen_code("L5", 7).is_none());
    assert!(Code::gen_code("", 7).is_none());
}

#[test]
fn codes_differ_between_satellites() {
    let a = Code::gen_l1ca_code(11);
    let b = Code::gen_l1ca_code(12);
    assert_ne!(a, b);
}
