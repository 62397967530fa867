//! LNAV word parity: each 30-bit word of a 300-bit frame carries 24 data
//! bits and 6 parity bits, checked against the ICD parity equations, with
//! the last two bits of the preceding word carried in as polarity and
//! parity history.

use vstd::prelude::*;
use vstd::arithmetic::power2::pow2;
use crate::bits::{bits_value, parity, setbitu, stream_bit, word_bit, xor_bits};

verus! {

/// A sequence of symbols where every element is a single bit.
pub open spec fn all_bits(bits: Seq<u8>) -> bool {
    forall|k: int| 0 <= k < bits.len() ==> bits[k] <= 1
}

/// The unsigned value of `n` one-bit symbols starting at `lo`, most
/// significant first.
pub open spec fn sym_value(bits: Seq<u8>, lo: int, n: nat) -> nat
    decreases n,
{
    if n == 0 {
        0
    } else {
        sym_value(bits, lo, (n - 1) as nat) * 2 + bits[lo + n - 1] as nat
    }
}

proof fn lemma_sym_value_bound(bits: Seq<u8>, lo: int, n: nat)
    requires
        forall|k: int| lo <= k < lo + n ==> bits[k] <= 1,
    ensures
        sym_value(bits, lo, n) < pow2(n),
    decreases n,
{
    vstd::arithmetic::power2::lemma2_to64();
    if n > 0 {
        vstd::arithmetic::power2::lemma_pow2_unfold(n);
        lemma_sym_value_bound(bits, lo, (n - 1) as nat);
    }
}

/// The two bits of the previous word that the parity equations of word `w`
/// depend on: its 29th and 30th transmitted bits; zero before the first word.
pub open spec fn carry2(bits: Seq<u8>, w: int) -> u32 {
    if w == 0 {
        0
    } else {
        (bits[30 * w - 2] * 2 + bits[30 * w - 1]) as u32
    }
}

/// The 32-bit register holding word `w`: the two carried bits above the 30
/// received bits.
pub open spec fn reg_word(bits: Seq<u8>, w: int) -> u32 {
    (carry2(bits, w) * 0x40000000 + sym_value(bits, 30 * w, 30)) as u32
}

/// Word `w` with its 24 data bits restored to true polarity: when the
/// previous word ended in one, the data bits arrive complemented.
pub open spec fn corrected_word(bits: Seq<u8>, w: int) -> u32 {
    if reg_word(bits, w) & 0x40000000u32 != 0u32 {
        reg_word(bits, w) ^ 0x3FFFFFC0u32
    } else {
        reg_word(bits, w)
    }
}

/// The restored 24 data bits of word `w`.
pub open spec fn data24(bits: Seq<u8>, w: int) -> u32 {
    (corrected_word(bits, w) >> 6u32) & 0xFFFFFFu32
}

/// The ICD parity-equation mask for parity bit `j`, over the carried two
/// bits and the 24 data bits.
pub open spec fn parity_mask(j: int) -> u32 {
    if j == 0 {
        0x2EC7CD2
    } else if j == 1 {
        0x1763E69
    } else if j == 2 {
        0x2BB1F34
    } else if j == 3 {
        0x15D8F9A
    } else if j == 4 {
        0x1AEC7CD
    } else {
        0x22DEA27
    }
}

/// Parity equation `j` of word `w`: the exclusive-or of the masked history
/// and data bits equals the received parity bit.
pub open spec fn word_parity_ok(bits: Seq<u8>, w: int) -> bool {
    forall|j: int|
        0 <= j < 6 ==> parity((corrected_word(bits, w) >> 6u32) & parity_mask(j)) == ((
        corrected_word(bits, w) >> ((5 - j) as u32)) & 1)
}

/// All 60 parity bits of a 300-bit frame are satisfied.
pub open spec fn frame_parity_ok(bits: Seq<u8>) -> bool {
    forall|w: int| 0 <= w < 10 ==> word_parity_ok(bits, w)
}

fn parity_mask_at(j: usize) -> (m: u32)
    requires
        j < 6,
    ensures
        m == parity_mask(j as int),
{
    if j == 0 {
        0x2EC7CD2
    } else if j == 1 {
        0x1763E69
    } else if j == 2 {
        0x2BB1F34
    } else if j == 3 {
        0x15D8F9A
    } else if j == 4 {
        0x1AEC7CD
    } else {
        0x22DEA27
    }
}

/// Check the 60 parity bits of a 300-bit frame and, when all hold, pack the
/// ten restored 24-bit data words into `nav_data`, each padded with six zero
/// bits to keep the 30-bit word grid.
pub fn nav_test_lnav_parity(bits: &[u8], nav_data: &mut Vec<u8>) -> (r: bool)
    requires
        bits@.len() == 300,
        all_bits(bits@),
        old(nav_data)@.len() >= 38,
    ensures
        final(nav_data)@.len() == old(nav_data)@.len(),
        r == frame_parity_ok(bits@),
        r ==> forall|w: int|
            0 <= w < 10 ==> bits_value(final(nav_data)@, 30 * w, 24) == data24(bits@, w)
                && bits_value(final(nav_data)@, 30 * w + 24, 6) == 0,
{
    let mut w: usize = 0;
    while w < 10
        invariant
            w <= 10,
            bits@.len() == 300,
            all_bits(bits@),
            nav_data@.len() == old(nav_data)@.len() >= 38,
            forall|t: int| 0 <= t < w ==> word_parity_ok(bits@, t),
            forall|t: int|
                0 <= t < w ==> bits_value(nav_data@, 30 * t, 24) == data24(bits@, t)
                    && bits_value(nav_data@, 30 * t + 24, 6) == 0,
        decreases 10 - w,
    {
        // Assemble the 30 received bits of word w.
        proof {
            vstd::arithmetic::power2::lemma2_to64();
        }
        let mut raw: u32 = 0;
        let mut j: usize = 0;
        while j < 30
            invariant
                j <= 30,
                w < 10,
                bits@.len() == 300,
                all_bits(bits@),
                raw == sym_value(bits@, 30 * (w as int), j as nat),
                raw < pow2(j as nat),
            decreases 30 - j,
        {
            proof {
                vstd::arithmetic::power2::lemma2_to64();
                if (j as nat) < 31 {
                    vstd::arithmetic::power2::lemma_pow2_strictly_increases(j as nat, 31);
                }
            }
            let b: u32 = bits[30 * w + j] as u32;
            assert((raw << 1u32) | b == raw * 2 + b) by (bit_vector)
                requires
                    raw < 0x40000000u32,
                    b <= 1u32,
            ;
            raw = (raw << 1u32) | b;
            proof {
                vstd::arithmetic::power2::lemma_pow2_unfold((j + 1) as nat);
            }
            j = j + 1;
        }
        proof {
            lemma_sym_value_bound(bits@, 30 * (w as int), 30);
            vstd::arithmetic::power2::lemma2_to64();
        }

        // Prepend the last two bits of the previous word.
        let c2: u32 = if w == 0 {
            0
        } else {
            (bits[30 * w - 2] as u32) * 2 + (bits[30 * w - 1] as u32)
        };
        assert((c2 << 30u32) | raw == c2 * 0x40000000 + raw) by (bit_vector)
            requires
                c2 <= 3u32,
                raw < 0x40000000u32,
        ;
        let reg: u32 = (c2 << 30u32) | raw;
        assert(reg == reg_word(bits@, w as int));

        // Restore data-bit polarity when the previous word ended in one.
        let data: u32 = if reg & 0x40000000 != 0 {
            reg ^ 0x3FFFFFC0
        } else {
            reg
        };
        assert(data == corrected_word(bits@, w as int));

        // The six parity equations.
        let mut j: usize = 0;
        while j < 6
            invariant
                j <= 6,
                w < 10,
                bits@.len() == 300,
                all_bits(bits@),
                nav_data@.len() == old(nav_data)@.len() >= 38,
                data == corrected_word(bits@, w as int),
                forall|t: int|
                    0 <= t < j ==> parity((corrected_word(bits@, w as int) >> 6u32)
                        & parity_mask(t)) == ((corrected_word(bits@, w as int) >> ((5 - t) as u32))
                        & 1),
                forall|t: int| 0 <= t < w ==> word_parity_ok(bits@, t),
                forall|t: int|
                    0 <= t < w ==> bits_value(nav_data@, 30 * t, 24) == data24(bits@, t)
                        && bits_value(nav_data@, 30 * t + 24, 6) == 0,
            decreases 6 - j,
        {
            let v0: u32 = (data >> 6u32) & parity_mask_at(j);
            let v1: u32 = (data >> ((5 - j) as u32)) & 1;
            if xor_bits(v0) as u32 != v1 {
                proof {
                    assert(!word_parity_ok(bits@, w as int));
                }
                return false;
            }
            j = j + 1;
        }
        proof {
            assert(word_parity_ok(bits@, w as int));
        }

        // Store the restored data bits on the 30-bit word grid.
        let ghost before = nav_data@;
        setbitu(nav_data, 30 * w, 24, (data >> 6u32) & 0xFFFFFF);
        let ghost mid = nav_data@;
        setbitu(nav_data, 30 * w + 24, 6, 0);
        proof {
            vstd::arithmetic::power2::lemma2_to64();
            assert((data >> 6u32) & 0xFFFFFF < 0x1000000) by (bit_vector);
            vstd::arithmetic::div_mod::lemma_small_mod(
                (((data >> 6u32) & 0xFFFFFF) as nat),
                pow2(24),
            );
            assert((data >> 6u32) & 0xFFFFFF == data24(bits@, w as int));
            // The two writes do not disturb each other or earlier words.
            crate::bits::lemma_bits_value_congruence(
                nav_data@,
                mid,
                30 * (w as int),
                24,
            );
            assert forall|t: int| 0 <= t < w implies bits_value(nav_data@, 30 * t, 24) == data24(
                bits@,
                t,
            ) && bits_value(nav_data@, 30 * t + 24, 6) == 0 by {
                crate::bits::lemma_bits_value_congruence(nav_data@, mid, 30 * t, 24);
                crate::bits::lemma_bits_value_congruence(mid, before, 30 * t, 24);
                crate::bits::lemma_bits_value_congruence(nav_data@, mid, 30 * t + 24, 6);
                crate::bits::lemma_bits_value_congruence(mid, before, 30 * t + 24, 6);
            }
        }
        w = w + 1;
    }
    true
}

} // verus!
