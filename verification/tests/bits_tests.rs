use gnss_rcv::bits::{
    bits_equal, bits_opposed, getbits, getbits2, getbitu, getbitu2, hex_str, setbitu, xor_bits,
};

#[test]
fn getbitu_reads_msb_first() {
    let buf = [0b1010_0000u8, 0x00];
    assert_eq!(getbitu(&buf, 0, 1), 1);
    assert_eq!(getbitu(&buf, 1, 1), 0);
    assert_eq!(getbitu(&buf, 0, 4), 0b1010);
    assert_eq!(getbitu(&buf, 0, 8), 0xA0);
}

#[test]
fn getbitu_full_word() {
    let buf = [0x12u8, 0x34, 0x56, 0x78];
    assert_eq!(getbitu(&buf, 0, 32), 0x12345678);
    assert_eq!(getbitu(&buf, 4, 8), 0x23);
}

#[test]
fn getbitu_24_bits_straddling_byte_boundary() {
    // The 24-bit field at bits 8..32 crosses three byte boundaries.
    let buf = [0xAAu8, 0x12, 0x34, 0x56, 0x78];
    assert_eq!(getbitu(&buf, 8, 24), 0x123456);
    assert_eq!(getbitu(&buf, 12, 24), 0x234567);
}

#[test]
fn getbits_sign_extends() {
    let buf = [0xFFu8, 0x00];
    assert_eq!(getbits(&buf, 0, 8), -1);
    assert_eq!(getbits(&buf, 0, 4), -1);
    assert_eq!(getbits(&buf, 4, 8), -16);
    let buf2 = [0x7Fu8];
    assert_eq!(getbits(&buf2, 0, 8), 127);
    assert_eq!(getbits(&buf2, 1, 7), -1);
}

#[test]
fn getbits_32_bit_field() {
    let buf = [0x80u8, 0x00, 0x00, 0x01];
    assert_eq!(getbits(&buf, 0, 32), i32::MIN + 1);
}

#[test]
fn getbitu2_concatenates_high_bits_first() {
    let buf = [0xABu8, 0xCD, 0xEF];
    let hi = getbitu(&buf, 0, 8);
    let lo = getbitu(&buf, 16, 8);
    assert_eq!(getbitu2(&buf, 0, 8, 16, 8), (hi << 8) + lo);
    assert_eq!(getbitu2(&buf, 0, 8, 16, 8), 0xABEF);
}

#[test]
fn getbits2_sign_comes_from_first_range() {
    let buf = [0xFFu8, 0x01];
    // First range 4 bits (all ones: -1), second range 8 bits (0x01).
    assert_eq!(getbits2(&buf, 0, 4, 8, 8), -256 + 1);
    let buf2 = [0x01u8, 0x02];
    assert_eq!(getbits2(&buf2, 0, 8, 8, 8), 0x0102);
}

#[test]
fn setbitu_then_getbitu_round_trips() {
    // Round trip over a spread of positions, widths and values.
    for &(pos, len, v) in &[
        (0usize, 8usize, 0x8Bu32),
        (3, 5, 0x1F),
        (8, 24, 0x123456),
        (13, 17, 0x1ABCD),
        (30, 17, 98765),
        (60, 10, 1023),
        (270, 22, 0x3FFFFF),
        (268, 32, 0xDEADBEEF),
    ] {
        let mut buf = vec![0u8; 38];
        setbitu(&mut buf, pos, len, v);
        assert_eq!(getbitu(&buf, pos, len), v & (((1u64 << len) - 1) as u32));
    }
}

#[test]
fn setbitu_leaves_other_bits_alone() {
    let mut buf = vec![0xFFu8; 4];
    setbitu(&mut buf, 8, 8, 0);
    assert_eq!(buf, vec![0xFF, 0x00, 0xFF, 0xFF]);
    let mut buf2 = vec![0u8; 4];
    setbitu(&mut buf2, 4, 8, 0xFF);
    assert_eq!(buf2, vec![0x0F, 0xF0, 0x00, 0x00]);
}

#[test]
fn setbitu_writes_only_low_bits_of_value() {
    let mut buf = vec![0u8; 2];
    setbitu(&mut buf, 0, 4, 0xAB);
    assert_eq!(getbitu(&buf, 0, 4), 0xB);
}

#[test]
fn xor_bits_is_bit_parity() {
    assert_eq!(xor_bits(0), 0);
    assert_eq!(xor_bits(1), 1);
    assert_eq!(xor_bits(3), 0);
    assert_eq!(xor_bits(7), 1);
    assert_eq!(xor_bits(0x80000000), 1);
    assert_eq!(xor_bits(0x80000001), 0);
    assert_eq!(xor_bits(0xFFFFFFFF), 0);
    assert_eq!(xor_bits(0x2EC7CD2), 1);
}

#[test]
fn xor_bits_is_xor_homomorphism() {
    let cases = [
        (0x2EC7CD2u32, 0x1763E69u32),
        (0xDEADBEEF, 0x12345678),
        (0, 0xFFFFFFFF),
        (0x55555555, 0xAAAAAAAA),
    ];
    for &(a, b) in &cases {
        assert_eq!(xor_bits(a ^ b), xor_bits(a) ^ xor_bits(b));
    }
}

#[test]
fn hex_str_renders_two_digits_per_byte() {
    // The length of the input names a bit count: ceil(len / 8) bytes print.
    let data = [0xABu8, 0xCD, 0x00, 0x12, 0x34, 0x56, 0x78, 0x9A, 0xEF];
    assert_eq!(hex_str(&data[0..8]), "ab");
    assert_eq!(hex_str(&data[0..9]), "abcd");
    assert_eq!(hex_str(&data[0..1]), "ab");
    assert_eq!(hex_str(&data[0..0]), "");
}

#[test]
fn bits_equal_compares_elementwise() {
    assert!(bits_equal(&[1, 0, 1], &[1, 0, 1]));
    assert!(!bits_equal(&[1, 0, 1], &[1, 1, 1]));
    assert!(bits_equal(&[], &[]));
}

#[test]
fn bits_opposed_compares_complements() {
    assert!(bits_opposed(&[1, 0, 1], &[0, 1, 0]));
    assert!(!bits_opposed(&[1, 0, 1], &[0, 0, 0]));
    assert!(!bits_opposed(&[1, 1, 1], &[1, 1, 1]));
}
