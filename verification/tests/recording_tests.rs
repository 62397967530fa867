use gnss_rcv::recording::{
    decode_i16_pairs, decode_i8_samples, decode_u32_pairs, decode_u8_pairs, parse_iq_file_type,
    IQFileType, IQRecording,
};

#[test]
fn file_type_tags_parse() {
    assert_eq!(parse_iq_file_type("2xf32"), Some(IQFileType::TypePairFloat32));
    assert_eq!(parse_iq_file_type("2xi16"), Some(IQFileType::TypePairInt16));
    assert_eq!(
        parse_iq_file_type("rtlsdr-file"),
        Some(IQFileType::TypeRtlSdrFile)
    );
    assert_eq!(parse_iq_file_type("i8"), Some(IQFileType::TypeOneInt8));
    assert_eq!(parse_iq_file_type("2xf64"), None);
    assert_eq!(parse_iq_file_type(""), None);
}

#[test]
fn sample_sizes_per_layout() {
    assert_eq!(
        IQRecording::get_sample_size_bytes(&IQFileType::TypeRtlSdrFile),
        2
    );
    assert_eq!(
        IQRecording::get_sample_size_bytes(&IQFileType::TypeOneInt8),
        1
    );
    assert_eq!(
        IQRecording::get_sample_size_bytes(&IQFileType::TypePairInt16),
        4
    );
    assert_eq!(
        IQRecording::get_sample_size_bytes(&IQFileType::TypePairFloat32),
        8
    );
    let rec = IQRecording::new(IQFileType::TypePairInt16);
    assert_eq!(rec.file_type, IQFileType::TypePairInt16);
}

#[test]
fn int16_pairs_deframe_little_endian() {
    let bytes = [0x01u8, 0x00, 0xFF, 0xFF, 0x00, 0x80, 0xFF, 0x7F, 0xAA];
    let out = decode_i16_pairs(&bytes);
    assert_eq!(out.len(), 2);
    assert_eq!(out[0], (1, -1));
    assert_eq!(out[1], (i16::MIN, i16::MAX));
}

#[test]
fn rtlsdr_pairs_deframe() {
    let bytes = [127u8, 128, 0, 255, 9];
    let out = decode_u8_pairs(&bytes);
    assert_eq!(out, vec![(127, 128), (0, 255)]);
}

#[test]
fn int8_samples_deframe() {
    let bytes = [0u8, 0x7F, 0x80, 0xFF];
    let out = decode_i8_samples(&bytes);
    assert_eq!(out, vec![0, 127, -128, -1]);
}

#[test]
fn float_bit_patterns_deframe() {
    let one = 1.0f32.to_le_bytes();
    let minus_half = (-0.5f32).to_le_bytes();
    let mut bytes = Vec::new();
    bytes.extend_from_slice(&one);
    bytes.extend_from_slice(&minus_half);
    let out = decode_u32_pairs(&bytes);
    assert_eq!(out.len(), 1);
    assert_eq!(f32::from_bits(out[0].0), 1.0);
    assert_eq!(f32::from_bits(out[0].1), -0.5);
}
