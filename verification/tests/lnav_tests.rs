use gnss_rcv::bits::{getbitu, xor_bits};
use gnss_rcv::lnav::nav_test_lnav_parity;

const MASK: [u32; 6] = [
    0x2EC7CD2, 0x1763E69, 0x2BB1F34, 0x15D8F9A, 0x1AEC7CD, 0x22DEA27,
];

/// Build the 300 received symbols of one LNAV frame from ten 24-bit data
/// words, computing the six parity bits of each word from the mask set and
/// complementing the data bits whenever the previous word ended in one.
fn build_frame(words: &[u32; 10]) -> Vec<u8> {
    let mut bits = Vec::new();
    let mut d29: u32 = 0;
    let mut d30: u32 = 0;
    for w in 0..10 {
        let data = words[w] & 0xFFFFFF;
        let trans = if d30 == 1 { data ^ 0xFFFFFF } else { data };
        let basis: u32 = (d29 << 25) | (d30 << 24) | data;
        let mut parity = [0u8; 6];
        for j in 0..6 {
            parity[j] = xor_bits(basis & MASK[j]);
        }
        for k in 0..24 {
            bits.push(((trans >> (23 - k)) & 1) as u8);
        }
        for j in 0..6 {
            bits.push(parity[j]);
        }
        d29 = parity[4] as u32;
        d30 = parity[5] as u32;
    }
    bits
}

fn preamble_frame() -> [u32; 10] {
    let mut words = [0u32; 10];
    words[0] = 0x8B0000;
    words
}

#[test]
fn well_formed_frame_passes_parity() {
    let bits = build_frame(&preamble_frame());
    assert_eq!(bits.len(), 300);
    let mut nav_data = vec![0u8; 38];
    assert!(nav_test_lnav_parity(&bits, &mut nav_data));
    // The restored data words come back on the 30-bit grid, parity zeroed.
    assert_eq!(getbitu(&nav_data, 0, 24), 0x8B0000);
    for w in 0..10 {
        assert_eq!(getbitu(&nav_data, 30 * w + 24, 6), 0);
    }
}

#[test]
fn arbitrary_data_words_survive_the_round_trip() {
    let words = [
        0x8B29C1u32, 0x123456, 0xFFFFFF, 0x000001, 0xABCDEF, 0x555555, 0xAAAAAA, 0x7E57ED,
        0xC0FFEE, 0xDECADE,
    ];
    let bits = build_frame(&words);
    let mut nav_data = vec![0u8; 38];
    assert!(nav_test_lnav_parity(&bits, &mut nav_data));
    for w in 0..10 {
        assert_eq!(getbitu(&nav_data, 30 * w, 24), words[w], "word {}", w);
    }
}

#[test]
fn flipping_any_single_data_bit_fails_parity() {
    let good = build_frame(&preamble_frame());
    for w in 0..10 {
        for k in 0..24 {
            let pos = 30 * w + k;
            let mut bits = good.clone();
            bits[pos] = 1 - bits[pos];
            let mut nav_data = vec![0u8; 38];
            assert!(
                !nav_test_lnav_parity(&bits, &mut nav_data),
                "flip at {} accepted",
                pos
            );
        }
    }
}

#[test]
fn flipping_a_parity_bit_fails_parity() {
    let good = build_frame(&preamble_frame());
    let mut bits = good.clone();
    bits[29] = 1 - bits[29];
    let mut nav_data = vec![0u8; 38];
    assert!(!nav_test_lnav_parity(&bits, &mut nav_data));
}
