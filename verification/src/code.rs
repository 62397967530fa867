//! GPS L1 C/A Gold-code generation: two 10-bit linear feedback shift
//! registers G1 (taps 3, 10) and G2 (taps 2, 3, 6, 8, 9, 10), both seeded
//! with all ones; chip `i` is the G1 output exclusive-or the G2 output
//! delayed by a per-PRN amount.

use vstd::prelude::*;

verus! {

/// Number of chips in one L1 C/A code period.
pub const L1CA_CODE_LEN: usize = 1023;

/// One step of the G1 register: feedback from taps 3 and 10 (1-based)
/// shifted in at the front.
pub open spec fn g1_step(r: Seq<bool>) -> Seq<bool> {
    seq![r[2] != r[9]] + r.take(9)
}

/// One step of the G2 register: feedback from taps 2, 3, 6, 8, 9 and 10
/// (1-based) shifted in at the front.
pub open spec fn g2_step(r: Seq<bool>) -> Seq<bool> {
    seq![(((((r[1] != r[2]) != r[5]) != r[7]) != r[8]) != r[9])] + r.take(9)
}

/// Both registers start from the all-ones state.
pub open spec fn reg_all_ones() -> Seq<bool> {
    Seq::new(10, |k: int| true)
}

/// The G1 register after `i` steps.
pub open spec fn g1_reg(i: nat) -> Seq<bool>
    decreases i,
{
    if i == 0 {
        reg_all_ones()
    } else {
        g1_step(g1_reg((i - 1) as nat))
    }
}

/// The G2 register after `i` steps.
pub open spec fn g2_reg(i: nat) -> Seq<bool>
    decreases i,
{
    if i == 0 {
        reg_all_ones()
    } else {
        g2_step(g2_reg((i - 1) as nat))
    }
}

/// The G1 output bit at chip `i`: the last register cell before step `i + 1`.
pub open spec fn g1_out(i: nat) -> bool {
    g1_reg(i)[9]
}

/// The G2 output bit at chip `i`.
pub open spec fn g2_out(i: nat) -> bool {
    g2_reg(i)[9]
}

/// The per-PRN delay, in chips, applied to the G2 output (ICD-GPS-200
/// table of C/A code phase assignments, PRNs 1 through 210).
pub open spec fn g2_delays() -> Seq<u16> {
    seq![
        5u16, 6u16, 7u16, 8u16, 17u16, 18u16, 139u16, 140u16, 141u16, 251u16, 252u16, 254u16,
        255u16, 256u16, 257u16, 258u16, 469u16, 470u16, 471u16, 472u16, 473u16, 474u16, 509u16,
        512u16, 513u16, 514u16, 515u16, 516u16, 859u16, 860u16, 861u16, 862u16, 863u16, 950u16,
        947u16, 948u16, 950u16, 67u16, 103u16, 91u16, 19u16, 679u16, 225u16, 625u16, 946u16,
        638u16, 161u16, 1001u16, 554u16, 280u16, 710u16, 709u16, 775u16, 864u16, 558u16, 220u16,
        397u16, 55u16, 898u16, 759u16, 367u16, 299u16, 1018u16, 729u16, 695u16, 780u16, 801u16,
        788u16, 732u16, 34u16, 320u16, 327u16, 389u16, 407u16, 525u16, 405u16, 221u16, 761u16,
        260u16, 326u16, 955u16, 653u16, 699u16, 422u16, 188u16, 438u16, 959u16, 539u16, 879u16,
        677u16, 586u16, 153u16, 792u16, 814u16, 446u16, 264u16, 1015u16, 278u16, 536u16, 819u16,
        156u16, 957u16, 159u16, 712u16, 885u16, 461u16, 248u16, 713u16, 126u16, 807u16, 279u16,
        122u16, 197u16, 693u16, 632u16, 771u16, 467u16, 647u16, 203u16, 145u16, 175u16, 52u16,
        21u16, 237u16, 235u16, 886u16, 657u16, 634u16, 762u16, 355u16, 1012u16, 176u16, 603u16,
        130u16, 359u16, 595u16, 68u16, 386u16, 797u16, 456u16, 499u16, 883u16, 307u16, 127u16,
        211u16, 121u16, 118u16, 163u16, 628u16, 853u16, 484u16, 289u16, 811u16, 202u16, 1021u16,
        463u16, 568u16, 904u16, 670u16, 230u16, 911u16, 684u16, 309u16, 644u16, 932u16, 12u16,
        314u16, 891u16, 212u16, 185u16, 675u16, 503u16, 150u16, 395u16, 345u16, 846u16, 798u16,
        992u16, 357u16, 995u16, 877u16, 112u16, 144u16, 476u16, 193u16, 109u16, 445u16, 291u16,
        87u16, 399u16, 292u16, 901u16, 339u16, 208u16, 711u16, 189u16, 263u16, 537u16, 663u16,
        942u16, 173u16, 900u16, 30u16, 500u16, 935u16, 556u16, 373u16, 85u16, 652u16, 310u16
]
}

/// Chip `i` of the C/A Gold code for `prn` as a bit: the G1 output
/// exclusive-or the G2 output delayed by the PRN's assigned amount.
pub open spec fn ca_chip(prn: u8, i: int) -> bool {
    g1_out(i as nat) != g2_out(((i + 1023 - g2_delays()[prn - 1]) % 1023) as nat)
}

proof fn lemma_reg_len(i: nat)
    ensures
        g1_reg(i).len() == 10,
        g2_reg(i).len() == 10,
    decreases i,
{
    if i > 0 {
        lemma_reg_len((i - 1) as nat);
    }
}

/// Shift a new bit into the front of a ten-cell register, dropping the
/// last cell.
fn shift_in(r: &mut Vec<bool>, c: bool)
    requires
        old(r)@.len() == 10,
    ensures
        final(r)@ == seq![c] + old(r)@.take(9),
{
    r.insert(0, c);
    r.pop();
    proof {
        assert(r@ =~= seq![c] + old(r)@.take(9));
    }
}

/// Marker type that groups the C/A code generators, as the receiver's
/// signal table.
pub struct Code {}

impl Code {
    /// The G2 delay assigned to `prn`.
    fn g2_delay(prn: u8) -> (d: u16)
        requires
            1 <= prn <= 210,
        ensures
            d == g2_delays()[prn as int - 1],
    {
    let t: Vec<u16> = vec![
        5u16, 6u16, 7u16, 8u16, 17u16, 18u16, 139u16, 140u16, 141u16, 251u16, 252u16, 254u16,
        255u16, 256u16, 257u16, 258u16, 469u16, 470u16, 471u16, 472u16, 473u16, 474u16, 509u16,
        512u16, 513u16, 514u16, 515u16, 516u16, 859u16, 860u16, 861u16, 862u16, 863u16, 950u16,
        947u16, 948u16, 950u16, 67u16, 103u16, 91u16, 19u16, 679u16, 225u16, 625u16, 946u16,
        638u16, 161u16, 1001u16, 554u16, 280u16, 710u16, 709u16, 775u16, 864u16, 558u16, 220u16,
        397u16, 55u16, 898u16, 759u16, 367u16, 299u16, 1018u16, 729u16, 695u16, 780u16, 801u16,
        788u16, 732u16, 34u16, 320u16, 327u16, 389u16, 407u16, 525u16, 405u16, 221u16, 761u16,
        260u16, 326u16, 955u16, 653u16, 699u16, 422u16, 188u16, 438u16, 959u16, 539u16, 879u16,
        677u16, 586u16, 153u16, 792u16, 814u16, 446u16, 264u16, 1015u16, 278u16, 536u16, 819u16,
        156u16, 957u16, 159u16, 712u16, 885u16, 461u16, 248u16, 713u16, 126u16, 807u16, 279u16,
        122u16, 197u16, 693u16, 632u16, 771u16, 467u16, 647u16, 203u16, 145u16, 175u16, 52u16,
        21u16, 237u16, 235u16, 886u16, 657u16, 634u16, 762u16, 355u16, 1012u16, 176u16, 603u16,
        130u16, 359u16, 595u16, 68u16, 386u16, 797u16, 456u16, 499u16, 883u16, 307u16, 127u16,
        211u16, 121u16, 118u16, 163u16, 628u16, 853u16, 484u16, 289u16, 811u16, 202u16, 1021u16,
        463u16, 568u16, 904u16, 670u16, 230u16, 911u16, 684u16, 309u16, 644u16, 932u16, 12u16,
        314u16, 891u16, 212u16, 185u16, 675u16, 503u16, 150u16, 395u16, 345u16, 846u16, 798u16,
        992u16, 357u16, 995u16, 877u16, 112u16, 144u16, 476u16, 193u16, 109u16, 445u16, 291u16,
        87u16, 399u16, 292u16, 901u16, 339u16, 208u16, 711u16, 189u16, 263u16, 537u16, 663u16,
        942u16, 173u16, 900u16, 30u16, 500u16, 935u16, 556u16, 373u16, 85u16, 652u16, 310u16
];
        proof {
            assert(t@ =~= g2_delays());
        }
        t[(prn - 1) as usize]
    }

    /// Generate the 1023-chip C/A code for `prn`, one chip per element,
    /// mapped to +1 where the Gold-code bit is one and -1 where it is zero.
    pub fn gen_l1ca_code(prn: u8) -> (g: Vec<i8>)
        requires
            1 <= prn <= 210,
        ensures
            g@.len() == 1023,
            forall|i: int|
                0 <= i < 1023 ==> g@[i] == (if ca_chip(prn, i) {
                    1i8
                } else {
                    -1i8
                }),
    {
        let mut r1: Vec<bool> = Vec::new();
        let mut r2: Vec<bool> = Vec::new();
        let mut k: usize = 0;
        while k < 10
            invariant
                k <= 10,
                r1@.len() == k,
                r2@.len() == k,
                forall|t: int| 0 <= t < k ==> r1@[t] == true,
                forall|t: int| 0 <= t < k ==> r2@[t] == true,
            decreases 10 - k,
        {
            r1.push(true);
            r2.push(true);
            k = k + 1;
        }
        proof {
            assert(r1@ =~= reg_all_ones());
            assert(r2@ =~= reg_all_ones());
        }

        let mut g1b: Vec<bool> = Vec::new();
        let mut g2b: Vec<bool> = Vec::new();
        let mut i: usize = 0;
        while i < 1023
            invariant
                i <= 1023,
                r1@ == g1_reg(i as nat),
                r2@ == g2_reg(i as nat),
                g1b@.len() == i,
                g2b@.len() == i,
                forall|t: int| 0 <= t < i ==> g1b@[t] == g1_out(t as nat),
                forall|t: int| 0 <= t < i ==> g2b@[t] == g2_out(t as nat),
            decreases 1023 - i,
        {
            proof {
                lemma_reg_len(i as nat);
            }
            g1b.push(r1[9]);
            g2b.push(r2[9]);
            let c1 = r1[2] != r1[9];
            let c2 = ((((r2[1] != r2[2]) != r2[5]) != r2[7]) != r2[8]) != r2[9];
            shift_in(&mut r1, c1);
            shift_in(&mut r2, c2);
            i = i + 1;
        }

        let delay = Self::g2_delay(prn);
        let mut g: Vec<i8> = Vec::new();
        let mut j: usize = 1023 - (delay as usize);
        let mut i: usize = 0;
        while i < 1023
            invariant
                i <= 1023,
                1 <= delay <= 1023,
                j == 1023 - delay + i,
                g1b@.len() == 1023,
                g2b@.len() == 1023,
                forall|t: int| 0 <= t < 1023 ==> g1b@[t] == g1_out(t as nat),
                forall|t: int| 0 <= t < 1023 ==> g2b@[t] == g2_out(t as nat),
                delay == g2_delays()[prn as int - 1],
                g@.len() == i,
                forall|t: int|
                    0 <= t < i ==> g@[t] == (if ca_chip(prn, t) {
                        1i8
                    } else {
                        -1i8
                    }),
            decreases 1023 - i,
        {
            let jm = j % 1023;
            let bit = g1b[i] != g2b[jm];
            let v: i8 = if bit {
                1
            } else {
                -1
            };
            proof {
                assert((j % 1023) as int == (i + 1023 - delay) % 1023) by (nonlinear_arith)
                    requires
                        j == 1023 - delay + i,
                        1 <= delay <= 1023,
                        0 <= i < 1023,
                ;
            }
            g.push(v);
            j = j + 1;
            i = i + 1;
        }
        g
    }

    /// Generate the code for a named signal; only L1 C/A is known.
    pub fn gen_code(sig: &str, prn: u8) -> (res: Option<Vec<i8>>)
        requires
            1 <= prn <= 210,
        ensures
            sig@ == "L1CA"@ ==> (match res {
                Some(g) => g@.len() == 1023 && forall|i: int|
                    0 <= i < 1023 ==> g@[i] == (if ca_chip(prn, i) {
                        1i8
                    } else {
                        -1i8
                    }),
                None => false,
            }),
            sig@ != "L1CA"@ ==> res is None,
    {
        if str_is_l1ca(sig) {
            Some(Self::gen_l1ca_code(prn))
        } else {
            None
        }
    }
}

/// True exactly when the signal name is the L1 C/A identifier.
fn str_is_l1ca(sig: &str) -> (r: bool)
    ensures
        r == (sig@ == "L1CA"@),
{
    proof {
        reveal_strlit("L1CA");
        vstd::utf8::is_ascii_chars_encode_utf8("L1CA"@);
        assert(vstd::utf8::encode_utf8("L1CA"@) =~= seq![76u8, 49u8, 67u8, 65u8]);
    }
    let b = sig.as_bytes();
    if b.len() != 4 {
        proof {
            if sig@ == "L1CA"@ {
                assert(b@.len() == 4);
            }
        }
        return false;
    }
    let r = b[0] == 76 && b[1] == 49 && b[2] == 67 && b[3] == 65;
    proof {
        if r {
            assert(b@ =~= seq![76u8, 49u8, 67u8, 65u8]);
            vstd::utf8::encode_utf8_decode_utf8(sig@);
            vstd::utf8::encode_utf8_decode_utf8("L1CA"@);
        } else {
            if sig@ == "L1CA"@ {
                assert(b@ =~= seq![76u8, 49u8, 67u8, 65u8]);
            }
        }
    }
    r
}

} // verus!
