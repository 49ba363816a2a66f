//! Decoding of the probed RISC-V instruction: its length and, for the
//! stack-pointer adjustments that a function prologue starts with, the signed
//! byte delta that it applies to `sp`.
use vstd::prelude::*;
use vstd::arithmetic::power2::{pow2, lemma_pow2_unfold, lemma_pow2_pos};

verus! {

/// Length in bytes of the instruction whose first byte is `b0`: the two low
/// bits `0b11` mark an uncompressed (4-byte) instruction.
pub open spec fn insn_len_spec(b0: u8) -> nat {
    if b0 & 3u8 == 3u8 { 4 } else { 2 }
}

/// The value of a `size`-bit two's-complement field whose bits read as `v`.
pub open spec fn sign_extend(v: int, size: nat) -> int {
    if size > 0 && v >= pow2((size - 1) as nat) { v - pow2(size) } else { v }
}

/// Little-endian 16-bit value of the first two bytes.
pub open spec fn half_word(b: Seq<u8>) -> u16 {
    (b[0] as u16 | ((b[1] as u16) << 8u16)) as u16
}

/// Little-endian 32-bit value of the first four bytes.
pub open spec fn word(b: Seq<u8>) -> u32 {
    (b[0] as u32 | ((b[1] as u32) << 8u32) | ((b[2] as u32) << 16u32) | ((b[3] as u32) << 24u32)) as u32
}

/// `addi sp, sp, imm`.
pub open spec fn is_addi_sp(inst: u32) -> bool {
    inst & 0xfffffu32 == 0x10113u32
}

/// `c.addi16sp imm`.
pub open spec fn is_c_addi16sp(inst: u16) -> bool {
    inst & 0xef83u16 == 0x6101u16
}

/// `c.addi sp, imm`.
pub open spec fn is_c_addi_sp(inst: u16) -> bool {
    inst & 0xef83u16 == 0x0101u16
}

/// `c.addi4spn rd, imm`.
pub open spec fn is_c_addi4spn(inst: u16) -> bool {
    inst & 0xe003u16 == 0u16
}

/// Immediate of `addi sp, sp, imm`: bits 31..20.
pub open spec fn addi_sp_field(inst: u32) -> u32 {
    (inst >> 20u32) & 0xfffu32
}

/// Immediate bits of `c.addi16sp`: nzimm[9] = bit 12, nzimm[4] = bit 6,
/// nzimm[6] = bit 5, nzimm[8:7] = bits 4..3, nzimm[5] = bit 2.
pub open spec fn c_addi16sp_field(inst: u16) -> u16 {
    (((inst >> 12u16) & 1u16) << 9u16) | (((inst >> 6u16) & 1u16) << 4u16) | (((inst >> 5u16)
        & 1u16) << 6u16) | (((inst >> 3u16) & 3u16) << 7u16) | (((inst >> 2u16) & 1u16) << 5u16)
}

/// Immediate bits of `c.addi sp, imm`: imm[5] = bit 12, imm[4:0] = bits 6..2.
pub open spec fn c_addi_sp_field(inst: u16) -> u16 {
    (((inst >> 12u16) & 1u16) << 5u16) | ((inst >> 2u16) & 0x1fu16)
}

/// Unsigned immediate of `c.addi4spn`: nzuimm[5:4] = bits 12..11,
/// nzuimm[9:6] = bits 10..7, nzuimm[2] = bit 6, nzuimm[3] = bit 5.
pub open spec fn c_addi4spn_field(inst: u16) -> u16 {
    (((inst >> 11u16) & 3u16) << 4u16) | (((inst >> 7u16) & 0xfu16) << 6u16) | (((inst >> 6u16)
        & 1u16) << 2u16) | (((inst >> 5u16) & 1u16) << 3u16)
}

/// The stack-pointer delta of the instruction at the start of `b`, or `None`
/// where `b` is too short for it or it is not one of the recognised
/// stack-pointer adjustments.
pub open spec fn sp_delta_spec(b: Seq<u8>) -> Option<int> {
    if b.len() < 2 {
        None
    } else if insn_len_spec(b[0]) == 4 {
        if b.len() >= 4 && is_addi_sp(word(b)) {
            Some(sign_extend(addi_sp_field(word(b)) as int, 12))
        } else {
            None
        }
    } else {
        let inst = half_word(b);
        if is_c_addi16sp(inst) {
            Some(sign_extend(c_addi16sp_field(inst) as int, 10))
        } else if is_c_addi_sp(inst) {
            Some(sign_extend(c_addi_sp_field(inst) as int, 6))
        } else if is_c_addi4spn(inst) {
            Some(c_addi4spn_field(inst) as int)
        } else {
            None
        }
    }
}

/// Length of the instruction whose first byte is `b0`.
pub fn get_insn_length(b0: u8) -> (r: usize)
    ensures
        r as nat == insn_len_spec(b0),
{
    if b0 & 3u8 == 3u8 {
        4
    } else {
        2
    }
}

/// The low `size` bits of `x` read as a two's-complement number.
pub fn sext(x: isize, size: usize) -> (r: isize)
    requires
        1 <= size,
        pow2((size - 1) as nat) <= isize::MAX as nat + 1,
    ensures
        r as int == sign_extend(x as int % pow2(size as nat) as int, size as nat),
{
    proof {
        vstd::arithmetic::power2::lemma2_to64();
        assert(isize::MAX as nat + 1 <= 0x8000_0000_0000_0000nat);
        assert(size <= 64) by {
            if size > 64 {
                vstd::arithmetic::power2::lemma_pow2_strictly_increases(63, (size - 1) as nat);
                vstd::arithmetic::power2::lemma2_to64_rest();
                assert(pow2(63) == 0x8000_0000_0000_0000nat);
            }
        }
    }
    let mut full: u128 = 1;
    let mut i: usize = 0;
    while i < size
        invariant
            i <= size <= 64,
            full as int == pow2(i as nat),
        decreases size - i,
    {
        proof {
            lemma_pow2_unfold((i + 1) as nat);
            vstd::arithmetic::power2::lemma2_to64();
            if i + 1 < 64 {
                vstd::arithmetic::power2::lemma_pow2_strictly_increases((i + 1) as nat, 64);
            }
        }
        full = full * 2;
        i = i + 1;
    }
    proof {
        lemma_pow2_unfold(size as nat);
        lemma_pow2_pos((size - 1) as nat);
        lemma_pow2_pos(size as nat);
    }
    let xi: i128 = x as i128;
    let u: u128 = if xi >= 0 {
        (xi as u128) % full
    } else {
        let nx: u128 = (0 - xi) as u128;
        let m: u128 = nx % full;
        proof {
            let d = full as int;
            let q = nx as int / d;
            vstd::arithmetic::div_mod::lemma_fundamental_div_mod(nx as int, d);
            if m == 0 {
                assert(x as int == (-q) * d + 0) by (nonlinear_arith)
                    requires nx as int == d * q + 0, x as int == -(nx as int);
                vstd::arithmetic::div_mod::lemma_fundamental_div_mod_converse(x as int, d, -q, 0);
            } else {
                assert(x as int == (-q - 1) * d + (d - m as int)) by (nonlinear_arith)
                    requires nx as int == d * q + m as int, x as int == -(nx as int);
                vstd::arithmetic::div_mod::lemma_fundamental_div_mod_converse(x as int, d, -q - 1, d - m as int);
            }
        }
        if m == 0 {
            0
        } else {
            full - m
        }
    };
    proof {
        assert(u as int == x as int % pow2(size as nat) as int);
        vstd::arithmetic::div_mod::lemma_mod_bound(x as int, pow2(size as nat) as int);
    }
    let half: u128 = full / 2;
    if u >= half {
        (u as i128 - full as i128) as isize
    } else {
        u as isize
    }
}

/// The stack-pointer delta of the instruction at the start of `insn`.
/// Returns `None` where `insn` is shorter than the instruction or the
/// instruction is not `addi sp, sp, imm`, `c.addi16sp`, `c.addi sp, imm` or
/// `c.addi4spn`.
pub fn get_sp(insn: &[u8]) -> (r: Option<isize>)
    ensures
        match r {
            Some(d) => sp_delta_spec(insn@) == Some(d as int),
            None => sp_delta_spec(insn@) is None,
        },
{
    if insn.len() < 2 {
        return None;
    }
    proof {
        vstd::arithmetic::power2::lemma2_to64();
    }
    if get_insn_length(insn[0]) == 4 {
        if insn.len() < 4 {
            return None;
        }
        let inst: u32 = (insn[0] as u32 | ((insn[1] as u32) << 8u32) | ((insn[2] as u32) << 16u32)
            | ((insn[3] as u32) << 24u32)) as u32;
        assert(inst == word(insn@));
        if inst & 0xfffffu32 == 0x10113u32 {
            let f: u32 = (inst >> 20u32) & 0xfffu32;
            assert(f < 4096) by (bit_vector)
                requires
                    f == (inst >> 20u32) & 0xfffu32,
            ;
            proof { vstd::arithmetic::div_mod::lemma_small_mod(f as nat, pow2(12)); }
            Some(sext(f as isize, 12))
        } else {
            None
        }
    } else {
        let inst: u16 = (insn[0] as u16 | ((insn[1] as u16) << 8u16)) as u16;
        assert(inst == half_word(insn@));
        if inst & 0xef83u16 == 0x6101u16 {
            let f: u16 = (((inst >> 12u16) & 1u16) << 9u16) | (((inst >> 6u16) & 1u16) << 4u16) | (((
            inst >> 5u16) & 1u16) << 6u16) | (((inst >> 3u16) & 3u16) << 7u16) | (((inst >> 2u16)
                & 1u16) << 5u16);
            assert(f < 1024) by (bit_vector)
                requires
                    f == (((inst >> 12u16) & 1u16) << 9u16) | (((inst >> 6u16) & 1u16) << 4u16) | (((
                    inst >> 5u16) & 1u16) << 6u16) | (((inst >> 3u16) & 3u16) << 7u16) | (((inst
                        >> 2u16) & 1u16) << 5u16),
            ;
            proof { vstd::arithmetic::div_mod::lemma_small_mod(f as nat, pow2(10)); }
            Some(sext(f as isize, 10))
        } else if inst & 0xef83u16 == 0x0101u16 {
            let f: u16 = (((inst >> 12u16) & 1u16) << 5u16) | ((inst >> 2u16) & 0x1fu16);
            assert(f < 64) by (bit_vector)
                requires
                    f == (((inst >> 12u16) & 1u16) << 5u16) | ((inst >> 2u16) & 0x1fu16),
            ;
            proof { vstd::arithmetic::div_mod::lemma_small_mod(f as nat, pow2(6)); }
            Some(sext(f as isize, 6))
        } else if inst & 0xe003u16 == 0u16 {
            let f: u16 = (((inst >> 11u16) & 3u16) << 4u16) | (((inst >> 7u16) & 0xfu16) << 6u16) | (((
            inst >> 6u16) & 1u16) << 2u16) | (((inst >> 5u16) & 1u16) << 3u16);
            Some(f as isize)
        } else {
            None
        }
    }
}

} // verus!
