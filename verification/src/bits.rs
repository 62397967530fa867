//! Big-endian bit-field access into byte buffers, as used by the LNAV
//! navigation-message decoder: bit 0 is the most significant bit of byte 0.

use vstd::prelude::*;
use vstd::arithmetic::power2::pow2;
use vstd::string::StringExecFns;

verus! {

/// Bit `i` of the bit stream carried by `buf`, counting from the most
/// significant bit of byte 0; either 0 or 1.
pub open spec fn stream_bit(buf: Seq<u8>, i: int) -> u32 {
    ((buf[i / 8] >> ((7 - (i % 8)) as u8)) & 1) as u32
}

/// The unsigned value of the `len` bits starting at bit `pos`, most
/// significant bit first.
pub open spec fn bits_value(buf: Seq<u8>, pos: int, len: nat) -> nat
    decreases len,
{
    if len == 0 {
        0
    } else {
        bits_value(buf, pos, (len - 1) as nat) * 2 + stream_bit(buf, pos + len - 1) as nat
    }
}

/// A `len`-bit field is below `pow2(len)`.
pub proof fn lemma_bits_value_bound(buf: Seq<u8>, pos: int, len: nat)
    ensures
        bits_value(buf, pos, len) < pow2(len),
    decreases len,
{
    if len == 0 {
        vstd::arithmetic::power2::lemma2_to64();
    } else {
        vstd::arithmetic::power2::lemma_pow2_unfold(len);
        lemma_bits_value_bound(buf, pos, (len - 1) as nat);
        let byte = buf[(pos + len - 1) / 8];
        let sh = (7 - ((pos + len - 1) % 8)) as u8;
        assert((byte >> sh) & 1 <= 1) by (bit_vector);
    }
}

/// Unsigned big-endian bit extraction: the `len`-bit field at bit `pos`.
pub fn getbitu(buf: &[u8], pos: usize, len: usize) -> (r: u32)
    requires
        len <= 32,
        pos + len <= buf@.len() * 8,
        pos + len <= usize::MAX,
    ensures
        r == bits_value(buf@, pos as int, len as nat),
{
    let mut bits: u32 = 0;
    let mut i: usize = pos;
    proof {
        vstd::arithmetic::power2::lemma2_to64();
    }
    while i < pos + len
        invariant
            pos <= i <= pos + len,
            len <= 32,
            pos + len <= buf@.len() * 8,
            pos + len <= usize::MAX,
            bits == bits_value(buf@, pos as int, (i - pos) as nat),
            bits < pow2((i - pos) as nat),
        decreases pos + len - i,
    {
        let byte: u8 = buf[i / 8];
        let sh: u8 = (7 - i % 8) as u8;
        let bit8: u8 = (byte >> sh) & 1;
        let b: u32 = bit8 as u32;
        assert(bit8 <= 1) by (bit_vector)
            requires
                bit8 == (byte >> sh) & 1u8,
        ;
        assert(b == stream_bit(buf@, i as int));
        proof {
            vstd::arithmetic::power2::lemma2_to64();
            if i - pos < 31 {
                vstd::arithmetic::power2::lemma_pow2_strictly_increases((i - pos) as nat, 31);
            }
        }
        assert((bits << 1u32) | b == bits * 2 + b) by (bit_vector)
            requires
                bits < 0x80000000u32,
                b <= 1u32,
        ;
        bits = (bits << 1u32) | b;
        proof {
            vstd::arithmetic::power2::lemma_pow2_unfold((i + 1 - pos) as nat);
        }
        i = i + 1;
    }
    bits
}

/// Two buffers that agree on every bit of a range carry the same field
/// value over that range.
pub proof fn lemma_bits_value_congruence(s1: Seq<u8>, s2: Seq<u8>, pos: int, len: nat)
    requires
        forall|j: int| pos <= j < pos + len ==> stream_bit(s1, j) == stream_bit(s2, j),
    ensures
        bits_value(s1, pos, len) == bits_value(s2, pos, len),
    decreases len,
{
    if len > 0 {
        lemma_bits_value_congruence(s1, s2, pos, (len - 1) as nat);
    }
}

/// A field splits at any point into its high and low parts.
pub proof fn lemma_bits_value_split(s: Seq<u8>, pos: int, n1: nat, n2: nat)
    ensures
        bits_value(s, pos, (n1 + n2) as nat) == bits_value(s, pos, n1) * pow2(n2) + bits_value(
            s,
            pos + n1,
            n2,
        ),
    decreases n2,
{
    vstd::arithmetic::power2::lemma2_to64();
    if n2 == 0 {
        assert(bits_value(s, pos, n1) * 1 == bits_value(s, pos, n1))
            by (nonlinear_arith);
    } else {
        lemma_bits_value_split(s, pos, n1, (n2 - 1) as nat);
        vstd::arithmetic::power2::lemma_pow2_unfold(n2);
        let a = bits_value(s, pos, n1) as int;
        let p = pow2((n2 - 1) as nat) as int;
        assert((a * p) * 2 == a * (2 * p)) by (nonlinear_arith);
    }
}

/// The value of the `len`-bit field at bit `pos` read as a two's-complement
/// signed integer.
pub open spec fn sbits_value(buf: Seq<u8>, pos: int, len: nat) -> int {
    if bits_value(buf, pos, len) >= pow2((len - 1) as nat) {
        bits_value(buf, pos, len) - pow2(len)
    } else {
        bits_value(buf, pos, len) as int
    }
}

/// Signed big-endian bit extraction: the `len`-bit field at bit `pos`,
/// sign-extended.
pub fn getbits(buf: &[u8], pos: usize, len: usize) -> (r: i32)
    requires
        1 <= len <= 32,
        pos + len <= buf@.len() * 8,
        pos + len <= usize::MAX,
    ensures
        r as int == sbits_value(buf@, pos as int, len as nat),
{
    let bits = getbitu(buf, pos, len);
    proof {
        lemma_bits_value_bound(buf@, pos as int, len as nat);
        vstd::arithmetic::power2::lemma2_to64();
        vstd::bits::lemma_u32_shl_is_mul(1u32, (len - 1) as u32);
        vstd::bits::lemma_u64_shl_is_mul(1u64, len as u64);
        vstd::arithmetic::power2::lemma_pow2_unfold(len as nat);
    }
    let half: u32 = 1u32 << ((len - 1) as u32);
    if bits >= half {
        ((bits as i64) - ((1u64 << (len as u64)) as i64)) as i32
    } else {
        bits as i32
    }
}

/// Unsigned extraction of two concatenated bit ranges, high bits first.
pub fn getbitu2(buf: &[u8], p1: usize, l1: usize, p2: usize, l2: usize) -> (r: u32)
    requires
        1 <= l1,
        l1 + l2 <= 32,
        p1 + l1 <= buf@.len() * 8,
        p2 + l2 <= buf@.len() * 8,
        p1 + l1 <= usize::MAX,
        p2 + l2 <= usize::MAX,
    ensures
        r == bits_value(buf@, p1 as int, l1 as nat) * pow2(l2 as nat) + bits_value(
            buf@,
            p2 as int,
            l2 as nat,
        ),
{
    let hi = getbitu(buf, p1, l1);
    let lo = getbitu(buf, p2, l2);
    proof {
        lemma_bits_value_bound(buf@, p1 as int, l1 as nat);
        lemma_bits_value_bound(buf@, p2 as int, l2 as nat);
        vstd::arithmetic::power2::lemma_pow2_adds(l1 as nat, l2 as nat);
        vstd::arithmetic::power2::lemma_pow2_pos(l2 as nat);
        vstd::arithmetic::power2::lemma2_to64();
        vstd::arithmetic::power2::lemma2_to64_rest();
        if l1 + l2 < 32 {
            vstd::arithmetic::power2::lemma_pow2_strictly_increases((l1 + l2) as nat, 32);
        }
        let hv = hi as int;
        let p = pow2(l2 as nat) as int;
        let q = pow2(l1 as nat) as int;
        assert(hv * p + p <= q * p && 0 <= hv * p) by (nonlinear_arith)
            requires
                0 <= hv,
                hv + 1 <= q,
                0 < p,
        ;
        vstd::bits::lemma_u32_shl_is_mul(hi, l2 as u32);
    }
    (hi << (l2 as u32)) + lo
}

/// Signed extraction of two concatenated bit ranges: the first range carries
/// the sign, the second extends the magnitude.
pub fn getbits2(buf: &[u8], p1: usize, l1: usize, p2: usize, l2: usize) -> (r: i32)
    requires
        1 <= l1,
        l1 + l2 <= 32,
        p1 + l1 <= buf@.len() * 8,
        p2 + l2 <= buf@.len() * 8,
        p1 + l1 <= usize::MAX,
        p2 + l2 <= usize::MAX,
    ensures
        r as int == sbits_value(buf@, p1 as int, l1 as nat) * pow2(l2 as nat) + bits_value(
            buf@,
            p2 as int,
            l2 as nat,
        ),
{
    let hi = getbits(buf, p1, l1);
    let lo = getbitu(buf, p2, l2);
    proof {
        lemma_bits_value_bound(buf@, p1 as int, l1 as nat);
        lemma_bits_value_bound(buf@, p2 as int, l2 as nat);
        vstd::arithmetic::power2::lemma_pow2_adds((l1 - 1) as nat, l2 as nat);
        vstd::arithmetic::power2::lemma_pow2_pos(l2 as nat);
        vstd::arithmetic::power2::lemma_pow2_unfold(l1 as nat);
        vstd::arithmetic::power2::lemma2_to64();
        vstd::arithmetic::power2::lemma2_to64_rest();
        vstd::bits::lemma_u64_shl_is_mul(1u64, l2 as u64);
        if l1 + l2 < 32 {
            vstd::arithmetic::power2::lemma_pow2_strictly_increases(
                (l1 + l2 - 1) as nat,
                31,
            );
        }
        let hv = hi as int;
        let p = pow2(l2 as nat) as int;
        let a = pow2((l1 - 1) as nat) as int;
        let cap = pow2((l1 + l2 - 1) as nat) as int;
        assert(-cap <= hv * p && hv * p + p <= cap) by (nonlinear_arith)
            requires
                -a <= hv,
                hv + 1 <= a,
                0 < p,
                a * p == cap,
        ;
    }
    let prod: i64 = (hi as i64) * ((1u64 << (l2 as u64)) as i64);
    let sum: i64 = prod + (lo as i64);
    sum as i32
}

/// Bit `k` of `v`, counted from the least significant bit; either 0 or 1.
pub open spec fn word_bit(v: u32, k: int) -> u32 {
    ((v >> (k as u32)) & 1) as u32
}

/// Setting or clearing one bit of a byte changes that bit and no other.
proof fn lemma_u8_bit_update(b: u8, sh: u8, t: u8)
    by (bit_vector)
    requires
        sh < 8,
        t < 8,
    ensures
        ((b | (1u8 << sh)) >> sh) & 1 == 1u8,
        ((b & !(1u8 << sh)) >> sh) & 1 == 0u8,
        t != sh ==> ((b | (1u8 << sh)) >> t) & 1 == (b >> t) & 1,
        t != sh ==> ((b & !(1u8 << sh)) >> t) & 1 == (b >> t) & 1,
{
}

/// A buffer whose bits at `pos .. pos + len` spell out the low `len` bits of
/// `data`, most significant first, carries the field value `data % pow2(len)`.
proof fn lemma_bits_value_from_word(s: Seq<u8>, pos: int, len: nat, data: u32)
    requires
        forall|j: int|
            pos <= j < pos + len ==> stream_bit(s, j) == word_bit(data, pos + len - 1 - j),
        len <= 32,
    ensures
        bits_value(s, pos, len) == data as nat % pow2(len),
    decreases len,
{
    vstd::arithmetic::power2::lemma_pow2_pos(len);
    vstd::arithmetic::power2::lemma2_to64();
    if len == 0 {
    } else {
        let d2 = data >> 1u32;
        assert forall|j: int| pos <= j < pos + (len - 1) implies stream_bit(s, j) == word_bit(
            d2,
            pos + (len - 1) - 1 - j,
        ) by {
            let k = pos + len - 1 - j;
            assert(1 <= k <= 31);
            let ku = k as u32;
            assert((data >> ku) & 1 == ((data >> 1u32) >> (ku - 1) as u32) & 1) by (bit_vector)
                requires
                    1 <= ku <= 31,
            ;
        }
        lemma_bits_value_from_word(s, pos, (len - 1) as nat, d2);
        vstd::arithmetic::power2::lemma_pow2_unfold(len);
        vstd::arithmetic::power2::lemma_pow2_pos((len - 1) as nat);
        vstd::bits::lemma_u32_shr_is_div(data, 1u32);
        assert(data & 1 == data as nat % 2) by (bit_vector);
        assert((data >> 0u32) & 1 == data & 1) by (bit_vector);
        assert(stream_bit(s, pos + len - 1) == word_bit(data, 0));
        assert(stream_bit(s, pos + len - 1) == (data & 1) as u32);
        // data % 2^len == 2 * ((data / 2) % 2^(len - 1)) + data % 2
        vstd::arithmetic::div_mod::lemma_mod_breakdown(
            data as int,
            2,
            pow2((len - 1) as nat) as int,
        );
        assert(d2 as int == data as int / 2);
    }
}

/// Write the low `len` bits of `data` into the buffer at bit `pos`, most
/// significant bit first; every other bit of the buffer is untouched.
pub fn setbitu(buf: &mut Vec<u8>, pos: usize, len: usize, data: u32)
    requires
        1 <= len <= 32,
        pos + len <= old(buf)@.len() * 8,
        pos + len <= usize::MAX,
    ensures
        final(buf)@.len() == old(buf)@.len(),
        forall|j: int|
            pos <= j < pos + len ==> stream_bit(final(buf)@, j) == word_bit(
                data,
                pos + len - 1 - j,
            ),
        forall|j: int|
            0 <= j < old(buf)@.len() * 8 && !(pos <= j < pos + len) ==> stream_bit(
                final(buf)@,
                j,
            ) == stream_bit(old(buf)@, j),
        forall|k: int|
            0 <= k < old(buf)@.len() && (8 * k + 8 <= pos || 8 * k >= pos + len)
                ==> final(buf)@[k] == old(buf)@[k],
        bits_value(final(buf)@, pos as int, len as nat) == data as nat % pow2(len as nat),
{
    let ghost orig = old(buf)@;
    let mut i: usize = pos;
    while i < pos + len
        invariant
            pos <= i <= pos + len,
            1 <= len <= 32,
            pos + len <= orig.len() * 8,
            pos + len <= usize::MAX,
            buf@.len() == orig.len(),
            forall|j: int|
                pos <= j < i ==> stream_bit(buf@, j) == word_bit(data, pos + len - 1 - j),
            forall|j: int|
                0 <= j < orig.len() * 8 && !(pos <= j < i) ==> stream_bit(buf@, j) == stream_bit(
                    orig,
                    j,
                ),
            forall|k: int|
                0 <= k < orig.len() && (8 * k + 8 <= pos || 8 * k >= i) ==> buf@[k] == orig[k],
        decreases pos + len - i,
    {
        let byte_idx = i / 8;
        let sh: u8 = (7 - i % 8) as u8;
        let k: u32 = (pos + len - 1 - i) as u32;
        let on: bool = (data >> k) & 1 == 1;
        let old_byte = buf[byte_idx];
        let new_byte = if on {
            old_byte | (1u8 << sh)
        } else {
            old_byte & !(1u8 << sh)
        };
        let ghost prev = buf@;
        buf.set(byte_idx, new_byte);
        proof {
            assert((data >> k) & 1 <= 1) by (bit_vector);
            assert(stream_bit(buf@, i as int) == word_bit(data, pos + len - 1 - i)) by {
                lemma_u8_bit_update(old_byte, sh, sh);
            }
            assert forall|j: int| 0 <= j < orig.len() * 8 && j != i implies stream_bit(buf@, j)
                == stream_bit(prev, j) by {
                vstd::arithmetic::div_mod::lemma_fundamental_div_mod(j, 8);
                vstd::arithmetic::div_mod::lemma_fundamental_div_mod(i as int, 8);
                if j / 8 == byte_idx {
                    let t = (7 - (j % 8)) as u8;
                    assert(t != sh);
                    lemma_u8_bit_update(old_byte, sh, t);
                } else {
                    assert(buf@[j / 8] == prev[j / 8]);
                }
            }
            assert forall|j: int| pos <= j < i + 1 implies stream_bit(buf@, j) == word_bit(
                data,
                pos + len - 1 - j,
            ) by {
                if j != i {
                    assert(stream_bit(prev, j) == word_bit(data, pos + len - 1 - j));
                }
            }
            assert forall|j: int|
                0 <= j < orig.len() * 8 && !(pos <= j < i + 1) implies stream_bit(buf@, j)
                == stream_bit(orig, j) by {
                assert(stream_bit(prev, j) == stream_bit(orig, j));
            }
            assert forall|kk: int|
                0 <= kk < orig.len() && (8 * kk + 8 <= pos || 8 * kk >= i + 1) implies buf@[kk]
                == orig[kk] by {
                assert(kk != byte_idx);
                assert(prev[kk] == orig[kk]);
            }
        }
        i = i + 1;
    }
    proof {
        lemma_bits_value_from_word(buf@, pos as int, len as nat, data);
    }
}

/// Round trip of the bit-field writer and reader: a buffer whose field at
/// `pos .. pos + len` was written from `v`, with `v` below `pow2(len)`,
/// reads back exactly `v`. Together with the contracts of `setbitu` and
/// `getbitu` this says `getbitu(setbitu(buf, pos, len, v), pos, len) == v`.
pub proof fn lemma_set_get_roundtrip(s: Seq<u8>, pos: int, len: nat, v: u32)
    requires
        len <= 32,
        v < pow2(len),
        forall|j: int|
            pos <= j < pos + len ==> stream_bit(s, j) == word_bit(v, pos + len - 1 - j),
    ensures
        bits_value(s, pos, len) == v,
{
    lemma_bits_value_from_word(s, pos, len, v);
    vstd::arithmetic::power2::lemma_pow2_pos(len);
    vstd::arithmetic::div_mod::lemma_small_mod(v as nat, pow2(len));
}

/// The exclusive-or of bits `0 .. n` of `v`.
pub open spec fn parity_up_to(v: u32, n: nat) -> u32
    decreases n,
{
    if n == 0 {
        0
    } else {
        parity_up_to(v, (n - 1) as nat) ^ ((v >> ((n - 1) as u32)) & 1)
    }
}

/// The exclusive-or of all 32 bits of `v`; either 0 or 1.
pub open spec fn parity(v: u32) -> u32 {
    parity_up_to(v, 32)
}

proof fn lemma_parity_up_to_le_one(v: u32, n: nat)
    ensures
        parity_up_to(v, n) <= 1,
    decreases n,
{
    if n > 0 {
        lemma_parity_up_to_le_one(v, (n - 1) as nat);
        let p = parity_up_to(v, (n - 1) as nat);
        let m = (n - 1) as u32;
        assert(p ^ ((v >> m) & 1) <= 1) by (bit_vector)
            requires
                p <= 1,
        ;
    }
}

/// The exclusive-or of all 32 bits of `v`.
pub fn xor_bits(v: u32) -> (r: u8)
    ensures
        r == parity(v),
        r <= 1,
{
    let mut p: u32 = 0;
    let mut n: u32 = 0;
    while n < 32
        invariant
            n <= 32,
            p == parity_up_to(v, n as nat),
            p <= 1,
        decreases 32 - n,
    {
        let b: u32 = (v >> n) & 1;
        assert(b <= 1 && (p ^ b) <= 1) by (bit_vector)
            requires
                b == (v >> n) & 1,
                p <= 1,
        ;
        p = p ^ b;
        n = n + 1;
    }
    proof {
        lemma_parity_up_to_le_one(v, 32);
    }
    p as u8
}

proof fn lemma_parity_up_to_hom(a: u32, b: u32, n: nat)
    requires
        n <= 32,
    ensures
        parity_up_to(a ^ b, n) == parity_up_to(a, n) ^ parity_up_to(b, n),
    decreases n,
{
    if n == 0 {
        assert(0u32 ^ 0u32 == 0u32) by (bit_vector);
    } else {
        lemma_parity_up_to_hom(a, b, (n - 1) as nat);
        let m = (n - 1) as u32;
        let pa = parity_up_to(a, (n - 1) as nat);
        let pb = parity_up_to(b, (n - 1) as nat);
        assert((((a ^ b) >> m) & 1) == ((a >> m) & 1) ^ ((b >> m) & 1)) by (bit_vector);
        assert((pa ^ pb) ^ (((a >> m) & 1) ^ ((b >> m) & 1)) == (pa ^ ((a >> m) & 1)) ^ (pb ^ ((b
            >> m) & 1))) by (bit_vector);
        assert(parity_up_to(a ^ b, n) == parity_up_to(a ^ b, (n - 1) as nat) ^ (((a ^ b) >> m)
            & 1));
        assert(parity_up_to(a, n) == pa ^ ((a >> m) & 1));
        assert(parity_up_to(b, n) == pb ^ ((b >> m) & 1));
    }
}

/// Bit parity is a homomorphism from exclusive-or of words to exclusive-or
/// of parities: `xor_bits(a ^ b) == xor_bits(a) ^ xor_bits(b)`.
pub proof fn lemma_xor_bits_hom(a: u32, b: u32)
    ensures
        parity(a ^ b) == parity(a) ^ parity(b),
{
    lemma_parity_up_to_hom(a, b, 32);
}

/// Element-wise equality of two bit (or byte) slices of equal length.
pub fn bits_equal(bits0: &[u8], bits1: &[u8]) -> (r: bool)
    requires
        bits0@.len() == bits1@.len(),
    ensures
        r == (bits0@ == bits1@),
{
    let n = bits0.len();
    let mut i: usize = 0;
    while i < n
        invariant
            n == bits0@.len() == bits1@.len(),
            i <= n,
            forall|k: int| 0 <= k < i ==> bits0@[k] == bits1@[k],
        decreases n - i,
    {
        if bits0[i] != bits1[i] {
            assert(bits0@ != bits1@);
            return false;
        }
        i = i + 1;
    }
    proof {
        assert(bits0@ =~= bits1@);
    }
    true
}

/// True when the second slice is the bitwise complement of the first:
/// every element of `bits1` is one minus the matching element of `bits0`.
pub fn bits_opposed(bits0: &[u8], bits1: &[u8]) -> (r: bool)
    requires
        bits0@.len() == bits1@.len(),
        forall|k: int| 0 <= k < bits1@.len() ==> bits1@[k] <= 1,
    ensures
        r == (forall|k: int| 0 <= k < bits0@.len() ==> bits0@[k] == 1 - bits1@[k]),
{
    let n = bits0.len();
    let mut i: usize = 0;
    while i < n
        invariant
            n == bits0@.len() == bits1@.len(),
            i <= n,
            forall|k: int| 0 <= k < bits1@.len() ==> bits1@[k] <= 1,
            forall|k: int| 0 <= k < i ==> bits0@[k] == 1 - bits1@[k],
        decreases n - i,
    {
        if bits0[i] != 1 - bits1[i] {
            return false;
        }
        i = i + 1;
    }
    true
}

/// The lower-case hexadecimal digit for a nibble value.
pub open spec fn hex_digit(n: u8) -> char {
    if n == 0 {
        '0'
    } else if n == 1 {
        '1'
    } else if n == 2 {
        '2'
    } else if n == 3 {
        '3'
    } else if n == 4 {
        '4'
    } else if n == 5 {
        '5'
    } else if n == 6 {
        '6'
    } else if n == 7 {
        '7'
    } else if n == 8 {
        '8'
    } else if n == 9 {
        '9'
    } else if n == 10 {
        'a'
    } else if n == 11 {
        'b'
    } else if n == 12 {
        'c'
    } else if n == 13 {
        'd'
    } else if n == 14 {
        'e'
    } else {
        'f'
    }
}

/// The two hexadecimal digits of one byte, high nibble first.
pub open spec fn hex_of_byte(b: u8) -> Seq<char> {
    seq![hex_digit(b / 16), hex_digit(b % 16)]
}

/// The hexadecimal rendering of the first `n` bytes of `data`.
pub open spec fn hex_of(data: Seq<u8>, n: int) -> Seq<char>
    decreases n,
{
    if n <= 0 {
        Seq::empty()
    } else {
        hex_of(data, n - 1) + hex_of_byte(data[n - 1])
    }
}

fn push_hex_digit(s: &mut String, n: u8)
    requires
        n < 16,
    ensures
        final(s)@ == old(s)@ + seq![hex_digit(n)],
{
    let ghost pre = s@;
    if n == 0 {
        proof {
            reveal_strlit("0");
        }
        s.append("0");
    } else if n == 1 {
        proof {
            reveal_strlit("1");
        }
        s.append("1");
    } else if n == 2 {
        proof {
            reveal_strlit("2");
        }
        s.append("2");
    } else if n == 3 {
        proof {
            reveal_strlit("3");
        }
        s.append("3");
    } else if n == 4 {
        proof {
            reveal_strlit("4");
        }
        s.append("4");
    } else if n == 5 {
        proof {
            reveal_strlit("5");
        }
        s.append("5");
    } else if n == 6 {
        proof {
            reveal_strlit("6");
        }
        s.append("6");
    } else if n == 7 {
        proof {
            reveal_strlit("7");
        }
        s.append("7");
    } else if n == 8 {
        proof {
            reveal_strlit("8");
        }
        s.append("8");
    } else if n == 9 {
        proof {
            reveal_strlit("9");
        }
        s.append("9");
    } else if n == 10 {
        proof {
            reveal_strlit("a");
        }
        s.append("a");
    } else if n == 11 {
        proof {
            reveal_strlit("b");
        }
        s.append("b");
    } else if n == 12 {
        proof {
            reveal_strlit("c");
        }
        s.append("c");
    } else if n == 13 {
        proof {
            reveal_strlit("d");
        }
        s.append("d");
    } else if n == 14 {
        proof {
            reveal_strlit("e");
        }
        s.append("e");
    } else {
        proof {
            reveal_strlit("f");
        }
        s.append("f");
    }
    proof {
        assert(s@ =~= pre + seq![hex_digit(n)]);
    }
}

/// Render a prefix of the buffer as lower-case hexadecimal, two digits per
/// byte. The length of `data` is taken as a bit count, as the navigation
/// decoder uses it: `ceil(len / 8)` bytes are rendered.
pub fn hex_str(data: &[u8]) -> (s: String)
    requires
        data@.len() + 7 <= usize::MAX,
    ensures
        s@ == hex_of(data@, ((data@.len() + 7) / 8) as int),
{
    let num_bits = data.len();
    let nbytes = (num_bits + 7) / 8;
    let mut s = String::new();
    let mut i: usize = 0;
    while i < nbytes
        invariant
            nbytes == (data@.len() + 7) / 8,
            nbytes <= data@.len() || nbytes == 0,
            i <= nbytes,
            s@ == hex_of(data@, i as int),
        decreases nbytes - i,
    {
        let b = data[i];
        let hi: u8 = b >> 4u8;
        let lo: u8 = b & 0xf;
        proof {
            vstd::bits::lemma_u8_shr_is_div(b, 4u8);
            vstd::arithmetic::power2::lemma2_to64();
            assert(b & 0xf == b % 16 && (b & 0xf) < 16 && (b >> 4u8) < 16) by (bit_vector);
        }
        let ghost pre = s@;
        push_hex_digit(&mut s, hi);
        push_hex_digit(&mut s, lo);
        proof {
            assert(s@ =~= pre + hex_of_byte(data@[i as int]));
        }
        i = i + 1;
    }
    s
}

} // verus!
