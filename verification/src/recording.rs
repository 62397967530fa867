//! I/Q sample-file layouts: the tag names of the recognized formats, their
//! sample sizes, and the deframing of raw bytes into the integer values
//! each format carries. Scaling the integers into unit-range floating
//! point, and the file reading itself, happen outside this crate.

use vstd::prelude::*;

verus! {

/// A recognized I/Q file layout.
#[derive(PartialEq, Eq, Structural, Clone, Copy, Debug)]
pub enum IQFileType {
    /// Interleaved little-endian float32 I then Q.
    TypePairFloat32,
    /// Interleaved little-endian signed int16 I then Q.
    TypePairInt16,
    /// Interleaved unsigned int8 I then Q, offset 127.
    TypeRtlSdrFile,
    /// A single signed int8 per sample, real only.
    TypeOneInt8,
}

/// The file-type tag that a name denotes, if any.
pub open spec fn iq_tag_of(s: Seq<char>) -> Option<IQFileType> {
    if s == "2xf32"@ {
        Some(IQFileType::TypePairFloat32)
    } else if s == "2xi16"@ {
        Some(IQFileType::TypePairInt16)
    } else if s == "rtlsdr-file"@ {
        Some(IQFileType::TypeRtlSdrFile)
    } else if s == "i8"@ {
        Some(IQFileType::TypeOneInt8)
    } else {
        None
    }
}

/// Compare a name against one ASCII tag given as its byte values.
fn bytes_are(b: &[u8], pat: &[u8]) -> (r: bool)
    ensures
        r == (b@ == pat@),
{
    if b.len() != pat.len() {
        return false;
    }
    let n = b.len();
    let mut i: usize = 0;
    while i < n
        invariant
            n == b@.len() == pat@.len(),
            i <= n,
            forall|k: int| 0 <= k < i ==> b@[k] == pat@[k],
        decreases n - i,
    {
        if b[i] != pat[i] {
            return false;
        }
        i = i + 1;
    }
    proof {
        assert(b@ =~= pat@);
    }
    true
}

/// Parse a file-type tag name.
pub fn parse_iq_file_type(s: &str) -> (r: Option<IQFileType>)
    ensures
        r == iq_tag_of(s@),
{
    proof {
        reveal_strlit("2xf32");
        reveal_strlit("2xi16");
        reveal_strlit("rtlsdr-file");
        reveal_strlit("i8");
        vstd::utf8::is_ascii_chars_encode_utf8("2xf32"@);
        vstd::utf8::is_ascii_chars_encode_utf8("2xi16"@);
        vstd::utf8::is_ascii_chars_encode_utf8("rtlsdr-file"@);
        vstd::utf8::is_ascii_chars_encode_utf8("i8"@);
        vstd::utf8::encode_utf8_decode_utf8(s@);
        vstd::utf8::encode_utf8_decode_utf8("2xf32"@);
        vstd::utf8::encode_utf8_decode_utf8("2xi16"@);
        vstd::utf8::encode_utf8_decode_utf8("rtlsdr-file"@);
        vstd::utf8::encode_utf8_decode_utf8("i8"@);
    }
    let b = s.as_bytes();
    let t_f32: Vec<u8> = vec![50u8, 120, 102, 51, 50];
    let t_i16: Vec<u8> = vec![50u8, 120, 105, 49, 54];
    let t_rtl: Vec<u8> = vec![114u8, 116, 108, 115, 100, 114, 45, 102, 105, 108, 101];
    let t_i8: Vec<u8> = vec![105u8, 56];
    proof {
        assert(vstd::utf8::encode_utf8("2xf32"@) =~= seq![50u8, 120u8, 102u8, 51u8, 50u8]);
        assert(vstd::utf8::encode_utf8("2xi16"@) =~= seq![50u8, 120u8, 105u8, 49u8, 54u8]);
        assert(vstd::utf8::encode_utf8("rtlsdr-file"@) =~= seq![
            114u8, 116u8, 108u8, 115u8, 100u8, 114u8, 45u8, 102u8, 105u8, 108u8, 101u8,
        ]);
        assert(vstd::utf8::encode_utf8("i8"@) =~= seq![105u8, 56u8]);
        assert(t_f32@ =~= vstd::utf8::encode_utf8("2xf32"@));
        assert(t_i16@ =~= vstd::utf8::encode_utf8("2xi16"@));
        assert(t_rtl@ =~= vstd::utf8::encode_utf8("rtlsdr-file"@));
        assert(t_i8@ =~= vstd::utf8::encode_utf8("i8"@));
    }
    if bytes_are(b, t_f32.as_slice()) {
        Some(IQFileType::TypePairFloat32)
    } else if bytes_are(b, t_i16.as_slice()) {
        Some(IQFileType::TypePairInt16)
    } else if bytes_are(b, t_rtl.as_slice()) {
        Some(IQFileType::TypeRtlSdrFile)
    } else if bytes_are(b, t_i8.as_slice()) {
        Some(IQFileType::TypeOneInt8)
    } else {
        None
    }
}

/// The signed 16-bit value carried little-endian by two bytes.
pub open spec fn i16_le(lo: u8, hi: u8) -> int {
    if hi >= 128 {
        lo + hi * 256 - 0x10000
    } else {
        lo + hi * 256
    }
}

/// The unsigned 32-bit value carried little-endian by four bytes.
pub open spec fn u32_le(b0: u8, b1: u8, b2: u8, b3: u8) -> int {
    b0 + b1 * 0x100 + b2 * 0x10000 + b3 * 0x1000000
}

/// The signed value of one byte read as int8.
pub open spec fn i8_of(b: u8) -> int {
    if b >= 128 {
        b - 256
    } else {
        b as int
    }
}

/// A recording's layout; the file itself is handled by the caller.
pub struct IQRecording {
    /// The layout of the recording's bytes.
    pub file_type: IQFileType,
}

impl IQRecording {
    /// A recording of the given layout.
    pub fn new(file_type: IQFileType) -> (r: IQRecording)
        ensures
            r.file_type == file_type,
    {
        IQRecording { file_type }
    }

    /// Bytes per sample of each layout.
    pub fn get_sample_size_bytes(file_type: &IQFileType) -> (n: usize)
        ensures
            n == (match *file_type {
                IQFileType::TypeRtlSdrFile => 2int,
                IQFileType::TypeOneInt8 => 1int,
                IQFileType::TypePairInt16 => 4int,
                IQFileType::TypePairFloat32 => 8int,
            }),
    {
        match file_type {
            IQFileType::TypeRtlSdrFile => 2,
            IQFileType::TypeOneInt8 => 1,
            IQFileType::TypePairInt16 => 4,
            IQFileType::TypePairFloat32 => 8,
        }
    }
}

/// Deframe interleaved little-endian int16 I/Q pairs; a ragged tail that
/// holds no whole pair is ignored.
pub fn decode_i16_pairs(buf: &[u8]) -> (out: Vec<(i16, i16)>)
    ensures
        out@.len() == buf@.len() / 4,
        forall|k: int|
            0 <= k < out@.len() ==> out@[k].0 as int == i16_le(buf@[4 * k], buf@[4 * k + 1])
                && out@[k].1 as int == i16_le(buf@[4 * k + 2], buf@[4 * k + 3]),
{
    let mut out: Vec<(i16, i16)> = Vec::new();
    let blen = buf.len();
    let n = blen / 4;
    let mut k: usize = 0;
    while k < n
        invariant
            blen == buf@.len(),
            n == buf@.len() / 4,
            k <= n,
            out@.len() == k,
            forall|t: int|
                0 <= t < k ==> out@[t].0 as int == i16_le(buf@[4 * t], buf@[4 * t + 1])
                    && out@[t].1 as int == i16_le(buf@[4 * t + 2], buf@[4 * t + 3]),
        decreases n - k,
    {
        proof {
            assert(4 * (k as int) + 3 < buf@.len()) by (nonlinear_arith)
                requires
                    (k as int) < buf@.len() / 4,
                    buf@.len() <= usize::MAX,
            ;
        }
        let re = half_word(buf[4 * k], buf[4 * k + 1]);
        let im = half_word(buf[4 * k + 2], buf[4 * k + 3]);
        out.push((re, im));
        k = k + 1;
    }
    out
}

/// Assemble one little-endian signed 16-bit value.
fn half_word(lo: u8, hi: u8) -> (v: i16)
    ensures
        v as int == i16_le(lo, hi),
{
    let u: u16 = (lo as u16) | ((hi as u16) << 8u16);
    proof {
        assert((lo as u16) | ((hi as u16) << 8u16) == lo + hi * 256) by (bit_vector);
        let uu = (lo as u16) | ((hi as u16) << 8u16);
        assert(uu as i16 as int == (if uu >= 0x8000 {
            uu - 0x10000
        } else {
            uu as int
        })) by (bit_vector);
    }
    u as i16
}

/// Deframe interleaved unsigned int8 I/Q pairs (the RTL-SDR layout); a
/// ragged final byte is ignored.
pub fn decode_u8_pairs(buf: &[u8]) -> (out: Vec<(u8, u8)>)
    ensures
        out@.len() == buf@.len() / 2,
        forall|k: int|
            0 <= k < out@.len() ==> out@[k].0 == buf@[2 * k] && out@[k].1 == buf@[2 * k + 1],
{
    let mut out: Vec<(u8, u8)> = Vec::new();
    let blen = buf.len();
    let n = blen / 2;
    let mut k: usize = 0;
    while k < n
        invariant
            blen == buf@.len(),
            n == buf@.len() / 2,
            k <= n,
            out@.len() == k,
            forall|t: int|
                0 <= t < k ==> out@[t].0 == buf@[2 * t] && out@[t].1 == buf@[2 * t + 1],
        decreases n - k,
    {
        proof {
            assert(2 * (k as int) + 1 < buf@.len()) by (nonlinear_arith)
                requires
                    (k as int) < buf@.len() / 2,
                    buf@.len() <= usize::MAX,
            ;
        }
        out.push((buf[2 * k], buf[2 * k + 1]));
        k = k + 1;
    }
    out
}

/// Deframe single signed int8 samples.
pub fn decode_i8_samples(buf: &[u8]) -> (out: Vec<i8>)
    ensures
        out@.len() == buf@.len(),
        forall|k: int| 0 <= k < out@.len() ==> out@[k] as int == i8_of(buf@[k]),
{
    let mut out: Vec<i8> = Vec::new();
    let n = buf.len();
    let mut k: usize = 0;
    while k < n
        invariant
            n == buf@.len(),
            k <= n,
            out@.len() == k,
            forall|t: int| 0 <= t < k ==> out@[t] as int == i8_of(buf@[t]),
        decreases n - k,
    {
        let b = buf[k];
        proof {
            assert(b as i8 as int == (if b >= 128 {
                b - 256
            } else {
                b as int
            })) by (bit_vector);
        }
        out.push(b as i8);
        k = k + 1;
    }
    out
}

/// Deframe interleaved little-endian 32-bit words, two per sample: the raw
/// bit patterns of float32 I/Q pairs. A ragged tail is ignored.
pub fn decode_u32_pairs(buf: &[u8]) -> (out: Vec<(u32, u32)>)
    ensures
        out@.len() == buf@.len() / 8,
        forall|k: int|
            0 <= k < out@.len() ==> out@[k].0 as int == u32_le(
                buf@[8 * k],
                buf@[8 * k + 1],
                buf@[8 * k + 2],
                buf@[8 * k + 3],
            ) && out@[k].1 as int == u32_le(
                buf@[8 * k + 4],
                buf@[8 * k + 5],
                buf@[8 * k + 6],
                buf@[8 * k + 7],
            ),
{
    let mut out: Vec<(u32, u32)> = Vec::new();
    let blen = buf.len();
    let n = blen / 8;
    let mut k: usize = 0;
    while k < n
        invariant
            blen == buf@.len(),
            n == buf@.len() / 8,
            k <= n,
            out@.len() == k,
            forall|t: int|
                0 <= t < k ==> out@[t].0 as int == u32_le(
                    buf@[8 * t],
                    buf@[8 * t + 1],
                    buf@[8 * t + 2],
                    buf@[8 * t + 3],
                ) && out@[t].1 as int == u32_le(
                    buf@[8 * t + 4],
                    buf@[8 * t + 5],
                    buf@[8 * t + 6],
                    buf@[8 * t + 7],
                ),
        decreases n - k,
    {
        proof {
            assert(8 * (k as int) + 7 < buf@.len()) by (nonlinear_arith)
                requires
                    (k as int) < buf@.len() / 8,
                    buf@.len() <= usize::MAX,
            ;
        }
        let re = full_word(buf[8 * k], buf[8 * k + 1], buf[8 * k + 2], buf[8 * k + 3]);
        let im = full_word(buf[8 * k + 4], buf[8 * k + 5], buf[8 * k + 6], buf[8 * k + 7]);
        out.push((re, im));
        k = k + 1;
    }
    out
}

/// Assemble one little-endian unsigned 32-bit word.
fn full_word(b0: u8, b1: u8, b2: u8, b3: u8) -> (v: u32)
    ensures
        v as int == u32_le(b0, b1, b2, b3),
{
    let v: u32 = (b0 as u32) | ((b1 as u32) << 8u32) | ((b2 as u32) << 16u32) | ((b3 as u32)
        << 24u32);
    proof {
        assert((b0 as u32) | ((b1 as u32) << 8u32) | ((b2 as u32) << 16u32) | ((b3 as u32)
            << 24u32) == b0 + b1 * 0x100 + b2 * 0x10000 + b3 * 0x1000000) by (bit_vector);
    }
    v
}

} // verus!
