//! What the 6502 instructions do, stated over the registers and flags
//! directly: the ALU group (opcodes `aaa bbb 01`) with its eight addressing
//! modes decoded from the opcode bits.
use vstd::prelude::*;

use crate::cpu::{adc_spec, compare_spec, with_flag, zn_spec};
use crate::emulator::{Cpu, NesEmulator, FLAG_C, FLAG_N, FLAG_U, FLAG_V, FLAG_Z};
use crate::ppu::{wrap16, wrap8};

verus! {

/// `new_p` holds the Z and N flags of `value`, the unused bit set, and
/// every other flag (C, I, D, B, V) as in `old_p`.
pub open spec fn nz_result(old_p: u8, new_p: u8, value: u8) -> bool {
    &&& (new_p & FLAG_Z != 0) == (value == 0)
    &&& (new_p & FLAG_N != 0) == (value >= 128)
    &&& new_p & FLAG_U != 0
    &&& new_p & 0x5d == old_p & 0x5d
}

/// The carry flag of `p` as 0 or 1.
pub open spec fn carry_in(p: u8) -> int {
    if p & FLAG_C != 0 {
        1
    } else {
        0
    }
}

/// `r` is `c` after adding `v` with carry: A is the sum modulo 256; C is
/// set when the sum exceeds 255; V when A and `v` have the same sign and
/// the result the other; Z and N from the result; I, D, B kept; the
/// unused bit set; the other registers unchanged.
pub open spec fn adc_result(c: Cpu, v: u8, r: Cpu) -> bool {
    let sum = c.a as int + v as int + carry_in(c.p);
    &&& r.a as int == sum % 256
    &&& (r.p & FLAG_C != 0) == (sum > 255)
    &&& (r.p & FLAG_V != 0) == ((c.a ^ r.a) & (v ^ r.a) & 0x80 != 0)
    &&& (r.p & FLAG_Z != 0) == (r.a == 0)
    &&& (r.p & FLAG_N != 0) == (r.a >= 128)
    &&& r.p & FLAG_U != 0
    &&& r.p & 0x1c == c.p & 0x1c
    &&& r == (Cpu { a: r.a, p: r.p, ..c })
}

/// `r` is `c` after subtracting `v` with borrow (the clear carry): A is
/// the difference modulo 256; C is set when no borrow was needed; V when A
/// and `v` have different signs and the result has `v`'s; Z and N from
/// the result; I, D, B kept; the unused bit set; other registers unchanged.
pub open spec fn sbc_result(c: Cpu, v: u8, r: Cpu) -> bool {
    let diff = c.a as int - v as int - (1 - carry_in(c.p));
    &&& r.a as int == diff % 256
    &&& (r.p & FLAG_C != 0) == (diff >= 0)
    &&& (r.p & FLAG_V != 0) == ((c.a ^ v) & (c.a ^ r.a) & 0x80 != 0)
    &&& (r.p & FLAG_Z != 0) == (r.a == 0)
    &&& (r.p & FLAG_N != 0) == (r.a >= 128)
    &&& r.p & FLAG_U != 0
    &&& r.p & 0x1c == c.p & 0x1c
    &&& r == (Cpu { a: r.a, p: r.p, ..c })
}

/// `r` is `c` after comparing `reg` with `v`: C when `reg >= v`, Z when
/// they are equal, N from bit 7 of `reg - v` (modulo 256); I, D, B, V
/// kept; the unused bit set; every register unchanged.
pub open spec fn compare_result(c: Cpu, reg: u8, v: u8, r: Cpu) -> bool {
    &&& (r.p & FLAG_C != 0) == (reg >= v)
    &&& (r.p & FLAG_Z != 0) == (reg == v)
    &&& (r.p & FLAG_N != 0) == ((reg as int - v as int) % 256 >= 128)
    &&& r.p & FLAG_U != 0
    &&& r.p & 0x5c == c.p & 0x5c
    &&& r == (Cpu { p: r.p, ..c })
}

proof fn lemma_zn_flags(p: u8, value: u8)
    ensures
        nz_result(p, zn_spec(p, value), value),
{
    assert({
        let q = with_flag(with_flag(p, 0x02, value == 0), 0x80, value >= 128) | 0x20;
        &&& (q & 0x02 != 0) == (value == 0)
        &&& (q & 0x80 != 0) == (value >= 128)
        &&& q & 0x20 != 0
        &&& q & 0x5d == p & 0x5d
    }) by (bit_vector);
}

proof fn lemma_adc_flags(c: Cpu, v: u8)
    ensures
        adc_result(c, v, adc_spec(c, v)),
{
    let cin: u8 = if c.p & FLAG_C != 0 { 1 } else { 0 };
    let a = c.a;
    let p = c.p;
    let r = adc_spec(c, v).a;
    assert(r == ((a as int + v as int + cin as int) % 256) as u8);
    assert({
        let sum = a as int + v as int + cin as int;
        let sa = if a < 128 { a as int } else { a as int - 256 };
        let sv = if v < 128 { v as int } else { v as int - 256 };
        let ss = sa + sv + cin as int;
        let q = with_flag(
            with_flag(with_flag(with_flag(p, 0x01, sum > 255), 0x40, ss < -128 || ss > 127), 0x02, r == 0),
            0x80,
            r >= 128,
        ) | 0x20;
        &&& (q & 0x01 != 0) == (sum > 255)
        &&& (q & 0x40 != 0) == ((a ^ r) & (v ^ r) & 0x80 != 0)
        &&& (q & 0x02 != 0) == (r == 0)
        &&& (q & 0x80 != 0) == (r >= 128)
        &&& q & 0x20 != 0
        &&& q & 0x1c == p & 0x1c
    }) by (bit_vector)
        requires
            cin < 2,
            r == ((a as int + v as int + cin as int) % 256) as u8,
    ;
}


proof fn lemma_sbc_flags(c: Cpu, v: u8)
    ensures
        sbc_result(c, v, adc_spec(c, !v)),
{
    lemma_adc_flags(c, !v);
    let a = c.a;
    let cin: u8 = if c.p & FLAG_C != 0 { 1 } else { 0 };
    let r = adc_spec(c, !v).a;
    assert(r == ((a as int + (!v) as int + cin as int) % 256) as u8);
    assert((!v) as int == 255 - v as int && ((a ^ r) & ((!v) ^ r) & 0x80 != 0) == ((a ^ v) & (a ^ r) & 0x80 != 0))
        by (bit_vector);
    let diff = a as int - v as int - (1 - cin as int);
    assert((a as int + (!v) as int + cin as int) == diff + 256);
    assert((diff + 256) % 256 == diff % 256);
}

proof fn lemma_compare_flags(c: Cpu, reg: u8, v: u8)
    ensures
        compare_result(c, reg, v, compare_spec(c, reg, v)),
{
    let p = c.p;
    let r = wrap8(reg as int - v as int);
    assert(r as int == (reg as int - v as int) % 256);
    assert((r == 0) == (reg == v));
    let ge = reg >= v;
    let eq = r == 0;
    let neg = r >= 128;
    assert({
        let q = with_flag(with_flag(with_flag(p, 0x01, ge), 0x02, eq), 0x80, neg) | 0x20;
        &&& (q & 0x01 != 0) == ge
        &&& (q & 0x02 != 0) == eq
        &&& (q & 0x80 != 0) == neg
        &&& q & 0x20 != 0
        &&& q & 0x5c == p & 0x5c
    }) by (bit_vector);
}

/// The operand address of ALU-group addressing mode `mode` (opcode bits
/// 2..4): (zp,X), zp, -, abs, (zp),Y, zp,X, abs,Y, abs,X; with the state
/// after the operand bytes were fetched.
pub open spec fn alu_address(e: NesEmulator, mode: u8) -> (NesEmulator, u16) {
    if mode == 0 {
        e.indx_spec()
    } else if mode == 1 {
        e.zp_spec()
    } else if mode == 3 {
        e.fetch_u16_spec()
    } else if mode == 4 {
        (e.indy_spec().0, e.indy_spec().1)
    } else if mode == 5 {
        e.zpx_spec()
    } else if mode == 6 {
        (e.absy_spec().0, e.absy_spec().1)
    } else {
        (e.absx_spec().0, e.absx_spec().1)
    }
}

/// The operand byte of ALU-group addressing mode `mode`: the byte after
/// the opcode for mode 2 (immediate), otherwise the byte read at the
/// operand address; with the state after the read.
pub open spec fn alu_operand(e: NesEmulator, mode: u8) -> (NesEmulator, u8) {
    if mode == 2 {
        e.fetch_spec()
    } else {
        let (s, addr) = alu_address(e, mode);
        s.bus_read(addr)
    }
}

/// What an ALU-group instruction (`aaa bbb 01`) does after its operand `v`
/// was read into state `s`: `r` is the state after it.
pub open spec fn alu_law(e: NesEmulator, aaa: u8, mode: u8, r: NesEmulator) -> bool {
    let (s, v) = alu_operand(e, mode);
    let c = s.cpu;
    if aaa == 0 {
        r == s.with_cpu(Cpu { a: c.a | v, p: r.cpu.p, ..c }) && nz_result(c.p, r.cpu.p, c.a | v)
    } else if aaa == 1 {
        r == s.with_cpu(Cpu { a: c.a & v, p: r.cpu.p, ..c }) && nz_result(c.p, r.cpu.p, c.a & v)
    } else if aaa == 2 {
        r == s.with_cpu(Cpu { a: c.a ^ v, p: r.cpu.p, ..c }) && nz_result(c.p, r.cpu.p, c.a ^ v)
    } else if aaa == 3 {
        r == s.with_cpu(r.cpu) && adc_result(c, v, r.cpu)
    } else if aaa == 4 {
        let (t, addr) = alu_address(e, mode);
        r == t.bus_write(addr, t.cpu.a)
    } else if aaa == 5 {
        r == s.with_cpu(Cpu { a: v, p: r.cpu.p, ..c }) && nz_result(c.p, r.cpu.p, v)
    } else if aaa == 6 {
        r == s.with_cpu(r.cpu) && compare_result(c, c.a, v, r.cpu)
    } else {
        r == s.with_cpu(r.cpu) && sbc_result(c, v, r.cpu)
    }
}

proof fn lemma_alu_01(e: NesEmulator)
    ensures
        alu_law(e, 0, 0, e.execute_spec(0x01).0),
{
    assert(e.execute_spec(0x01) == e.row_0_spec(0x01)) by {
        reveal(NesEmulator::execute_spec);
    }
    let (s, v) = alu_operand(e, 0);
    reveal(NesEmulator::ora_spec);
    reveal(NesEmulator::set_zn_spec);
    lemma_zn_flags(s.cpu.p, s.cpu.a | v);
}

proof fn lemma_alu_05(e: NesEmulator)
    ensures
        alu_law(e, 0, 1, e.execute_spec(0x05).0),
{
    assert(e.execute_spec(0x05) == e.row_0_spec(0x05)) by {
        reveal(NesEmulator::execute_spec);
    }
    let (s, v) = alu_operand(e, 1);
    reveal(NesEmulator::ora_spec);
    reveal(NesEmulator::set_zn_spec);
    lemma_zn_flags(s.cpu.p, s.cpu.a | v);
}

proof fn lemma_alu_09(e: NesEmulator)
    ensures
        alu_law(e, 0, 2, e.execute_spec(0x09).0),
{
    assert(e.execute_spec(0x09) == e.row_0_spec(0x09)) by {
        reveal(NesEmulator::execute_spec);
    }
    let (s, v) = alu_operand(e, 2);
    reveal(NesEmulator::ora_spec);
    reveal(NesEmulator::set_zn_spec);
    lemma_zn_flags(s.cpu.p, s.cpu.a | v);
}

proof fn lemma_alu_0d(e: NesEmulator)
    ensures
        alu_law(e, 0, 3, e.execute_spec(0x0d).0),
{
    assert(e.execute_spec(0x0d) == e.row_0_spec(0x0d)) by {
        reveal(NesEmulator::execute_spec);
    }
    let (s, v) = alu_operand(e, 3);
    reveal(NesEmulator::ora_spec);
    reveal(NesEmulator::set_zn_spec);
    lemma_zn_flags(s.cpu.p, s.cpu.a | v);
}

proof fn lemma_alu_11(e: NesEmulator)
    ensures
        alu_law(e, 0, 4, e.execute_spec(0x11).0),
{
    assert(e.execute_spec(0x11) == e.row_1_spec(0x11)) by {
        reveal(NesEmulator::execute_spec);
    }
    let (s, v) = alu_operand(e, 4);
    reveal(NesEmulator::ora_spec);
    reveal(NesEmulator::set_zn_spec);
    lemma_zn_flags(s.cpu.p, s.cpu.a | v);
}

proof fn lemma_alu_15(e: NesEmulator)
    ensures
        alu_law(e, 0, 5, e.execute_spec(0x15).0),
{
    assert(e.execute_spec(0x15) == e.row_1_spec(0x15)) by {
        reveal(NesEmulator::execute_spec);
    }
    let (s, v) = alu_operand(e, 5);
    reveal(NesEmulator::ora_spec);
    reveal(NesEmulator::set_zn_spec);
    lemma_zn_flags(s.cpu.p, s.cpu.a | v);
}

proof fn lemma_alu_19(e: NesEmulator)
    ensures
        alu_law(e, 0, 6, e.execute_spec(0x19).0),
{
    assert(e.execute_spec(0x19) == e.row_1_spec(0x19)) by {
        reveal(NesEmulator::execute_spec);
    }
    let (s, v) = alu_operand(e, 6);
    reveal(NesEmulator::ora_spec);
    reveal(NesEmulator::set_zn_spec);
    lemma_zn_flags(s.cpu.p, s.cpu.a | v);
}

proof fn lemma_alu_1d(e: NesEmulator)
    ensures
        alu_law(e, 0, 7, e.execute_spec(0x1d).0),
{
    assert(e.execute_spec(0x1d) == e.row_1_spec(0x1d)) by {
        reveal(NesEmulator::execute_spec);
    }
    let (s, v) = alu_operand(e, 7);
    reveal(NesEmulator::ora_spec);
    reveal(NesEmulator::set_zn_spec);
    lemma_zn_flags(s.cpu.p, s.cpu.a | v);
}

proof fn lemma_alu_21(e: NesEmulator)
    ensures
        alu_law(e, 1, 0, e.execute_spec(0x21).0),
{
    assert(e.execute_spec(0x21) == e.row_2_spec(0x21)) by {
        reveal(NesEmulator::execute_spec);
    }
    let (s, v) = alu_operand(e, 0);
    reveal(NesEmulator::and_spec);
    reveal(NesEmulator::set_zn_spec);
    lemma_zn_flags(s.cpu.p, s.cpu.a & v);
}

proof fn lemma_alu_25(e: NesEmulator)
    ensures
        alu_law(e, 1, 1, e.execute_spec(0x25).0),
{
    assert(e.execute_spec(0x25) == e.row_2_spec(0x25)) by {
        reveal(NesEmulator::execute_spec);
    }
    let (s, v) = alu_operand(e, 1);
    reveal(NesEmulator::and_spec);
    reveal(NesEmulator::set_zn_spec);
    lemma_zn_flags(s.cpu.p, s.cpu.a & v);
}

proof fn lemma_alu_29(e: NesEmulator)
    ensures
        alu_law(e, 1, 2, e.execute_spec(0x29).0),
{
    assert(e.execute_spec(0x29) == e.row_2_spec(0x29)) by {
        reveal(NesEmulator::execute_spec);
    }
    let (s, v) = alu_operand(e, 2);
    reveal(NesEmulator::and_spec);
    reveal(NesEmulator::set_zn_spec);
    lemma_zn_flags(s.cpu.p, s.cpu.a & v);
}

proof fn lemma_alu_2d(e: NesEmulator)
    ensures
        alu_law(e, 1, 3, e.execute_spec(0x2d).0),
{
    assert(e.execute_spec(0x2d) == e.row_2_spec(0x2d)) by {
        reveal(NesEmulator::execute_spec);
    }
    let (s, v) = alu_operand(e, 3);
    reveal(NesEmulator::and_spec);
    reveal(NesEmulator::set_zn_spec);
    lemma_zn_flags(s.cpu.p, s.cpu.a & v);
}

proof fn lemma_alu_31(e: NesEmulator)
    ensures
        alu_law(e, 1, 4, e.execute_spec(0x31).0),
{
    assert(e.execute_spec(0x31) == e.row_3_spec(0x31)) by {
        reveal(NesEmulator::execute_spec);
    }
    let (s, v) = alu_operand(e, 4);
    reveal(NesEmulator::and_spec);
    reveal(NesEmulator::set_zn_spec);
    lemma_zn_flags(s.cpu.p, s.cpu.a & v);
}

proof fn lemma_alu_35(e: NesEmulator)
    ensures
        alu_law(e, 1, 5, e.execute_spec(0x35).0),
{
    assert(e.execute_spec(0x35) == e.row_3_spec(0x35)) by {
        reveal(NesEmulator::execute_spec);
    }
    let (s, v) = alu_operand(e, 5);
    reveal(NesEmulator::and_spec);
    reveal(NesEmulator::set_zn_spec);
    lemma_zn_flags(s.cpu.p, s.cpu.a & v);
}

proof fn lemma_alu_39(e: NesEmulator)
    ensures
        alu_law(e, 1, 6, e.execute_spec(0x39).0),
{
    assert(e.execute_spec(0x39) == e.row_3_spec(0x39)) by {
        reveal(NesEmulator::execute_spec);
    }
    let (s, v) = alu_operand(e, 6);
    reveal(NesEmulator::and_spec);
    reveal(NesEmulator::set_zn_spec);
    lemma_zn_flags(s.cpu.p, s.cpu.a & v);
}

proof fn lemma_alu_3d(e: NesEmulator)
    ensures
        alu_law(e, 1, 7, e.execute_spec(0x3d).0),
{
    assert(e.execute_spec(0x3d) == e.row_3_spec(0x3d)) by {
        reveal(NesEmulator::execute_spec);
    }
    let (s, v) = alu_operand(e, 7);
    reveal(NesEmulator::and_spec);
    reveal(NesEmulator::set_zn_spec);
    lemma_zn_flags(s.cpu.p, s.cpu.a & v);
}

proof fn lemma_alu_41(e: NesEmulator)
    ensures
        alu_law(e, 2, 0, e.execute_spec(0x41).0),
{
    assert(e.execute_spec(0x41) == e.row_4_spec(0x41)) by {
        reveal(NesEmulator::execute_spec);
    }
    let (s, v) = alu_operand(e, 0);
    reveal(NesEmulator::eor_spec);
    reveal(NesEmulator::set_zn_spec);
    lemma_zn_flags(s.cpu.p, s.cpu.a ^ v);
}

proof fn lemma_alu_45(e: NesEmulator)
    ensures
        alu_law(e, 2, 1, e.execute_spec(0x45).0),
{
    assert(e.execute_spec(0x45) == e.row_4_spec(0x45)) by {
        reveal(NesEmulator::execute_spec);
    }
    let (s, v) = alu_operand(e, 1);
    reveal(NesEmulator::eor_spec);
    reveal(NesEmulator::set_zn_spec);
    lemma_zn_flags(s.cpu.p, s.cpu.a ^ v);
}

proof fn lemma_alu_49(e: NesEmulator)
    ensures
        alu_law(e, 2, 2, e.execute_spec(0x49).0),
{
    assert(e.execute_spec(0x49) == e.row_4_spec(0x49)) by {
        reveal(NesEmulator::execute_spec);
    }
    let (s, v) = alu_operand(e, 2);
    reveal(NesEmulator::eor_spec);
    reveal(NesEmulator::set_zn_spec);
    lemma_zn_flags(s.cpu.p, s.cpu.a ^ v);
}

proof fn lemma_alu_4d(e: NesEmulator)
    ensures
        alu_law(e, 2, 3, e.execute_spec(0x4d).0),
{
    assert(e.execute_spec(0x4d) == e.row_4_spec(0x4d)) by {
        reveal(NesEmulator::execute_spec);
    }
    let (s, v) = alu_operand(e, 3);
    reveal(NesEmulator::eor_spec);
    reveal(NesEmulator::set_zn_spec);
    lemma_zn_flags(s.cpu.p, s.cpu.a ^ v);
}

proof fn lemma_alu_51(e: NesEmulator)
    ensures
        alu_law(e, 2, 4, e.execute_spec(0x51).0),
{
    assert(e.execute_spec(0x51) == e.row_5_spec(0x51)) by {
        reveal(NesEmulator::execute_spec);
    }
    let (s, v) = alu_operand(e, 4);
    reveal(NesEmulator::eor_spec);
    reveal(NesEmulator::set_zn_spec);
    lemma_zn_flags(s.cpu.p, s.cpu.a ^ v);
}

proof fn lemma_alu_55(e: NesEmulator)
    ensures
        alu_law(e, 2, 5, e.execute_spec(0x55).0),
{
    assert(e.execute_spec(0x55) == e.row_5_spec(0x55)) by {
        reveal(NesEmulator::execute_spec);
    }
    let (s, v) = alu_operand(e, 5);
    reveal(NesEmulator::eor_spec);
    reveal(NesEmulator::set_zn_spec);
    lemma_zn_flags(s.cpu.p, s.cpu.a ^ v);
}

proof fn lemma_alu_59(e: NesEmulator)
    ensures
        alu_law(e, 2, 6, e.execute_spec(0x59).0),
{
    assert(e.execute_spec(0x59) == e.row_5_spec(0x59)) by {
        reveal(NesEmulator::execute_spec);
    }
    let (s, v) = alu_operand(e, 6);
    reveal(NesEmulator::eor_spec);
    reveal(NesEmulator::set_zn_spec);
    lemma_zn_flags(s.cpu.p, s.cpu.a ^ v);
}

proof fn lemma_alu_5d(e: NesEmulator)
    ensures
        alu_law(e, 2, 7, e.execute_spec(0x5d).0),
{
    assert(e.execute_spec(0x5d) == e.row_5_spec(0x5d)) by {
        reveal(NesEmulator::execute_spec);
    }
    let (s, v) = alu_operand(e, 7);
    reveal(NesEmulator::eor_spec);
    reveal(NesEmulator::set_zn_spec);
    lemma_zn_flags(s.cpu.p, s.cpu.a ^ v);
}

proof fn lemma_alu_61(e: NesEmulator)
    ensures
        alu_law(e, 3, 0, e.execute_spec(0x61).0),
{
    assert(e.execute_spec(0x61) == e.row_6_spec(0x61)) by {
        reveal(NesEmulator::execute_spec);
    }
    let (s, v) = alu_operand(e, 0);
    lemma_adc_flags(s.cpu, v);
}

proof fn lemma_alu_65(e: NesEmulator)
    ensures
        alu_law(e, 3, 1, e.execute_spec(0x65).0),
{
    assert(e.execute_spec(0x65) == e.row_6_spec(0x65)) by {
        reveal(NesEmulator::execute_spec);
    }
    let (s, v) = alu_operand(e, 1);
    lemma_adc_flags(s.cpu, v);
}

proof fn lemma_alu_69(e: NesEmulator)
    ensures
        alu_law(e, 3, 2, e.execute_spec(0x69).0),
{
    assert(e.execute_spec(0x69) == e.row_6_spec(0x69)) by {
        reveal(NesEmulator::execute_spec);
    }
    let (s, v) = alu_operand(e, 2);
    lemma_adc_flags(s.cpu, v);
}

proof fn lemma_alu_6d(e: NesEmulator)
    ensures
        alu_law(e, 3, 3, e.execute_spec(0x6d).0),
{
    assert(e.execute_spec(0x6d) == e.row_6_spec(0x6d)) by {
        reveal(NesEmulator::execute_spec);
    }
    let (s, v) = alu_operand(e, 3);
    lemma_adc_flags(s.cpu, v);
}

proof fn lemma_alu_71(e: NesEmulator)
    ensures
        alu_law(e, 3, 4, e.execute_spec(0x71).0),
{
    assert(e.execute_spec(0x71) == e.row_7_spec(0x71)) by {
        reveal(NesEmulator::execute_spec);
    }
    let (s, v) = alu_operand(e, 4);
    lemma_adc_flags(s.cpu, v);
}

proof fn lemma_alu_75(e: NesEmulator)
    ensures
        alu_law(e, 3, 5, e.execute_spec(0x75).0),
{
    assert(e.execute_spec(0x75) == e.row_7_spec(0x75)) by {
        reveal(NesEmulator::execute_spec);
    }
    let (s, v) = alu_operand(e, 5);
    lemma_adc_flags(s.cpu, v);
}

proof fn lemma_alu_79(e: NesEmulator)
    ensures
        alu_law(e, 3, 6, e.execute_spec(0x79).0),
{
    assert(e.execute_spec(0x79) == e.row_7_spec(0x79)) by {
        reveal(NesEmulator::execute_spec);
    }
    let (s, v) = alu_operand(e, 6);
    lemma_adc_flags(s.cpu, v);
}

proof fn lemma_alu_7d(e: NesEmulator)
    ensures
        alu_law(e, 3, 7, e.execute_spec(0x7d).0),
{
    assert(e.execute_spec(0x7d) == e.row_7_spec(0x7d)) by {
        reveal(NesEmulator::execute_spec);
    }
    let (s, v) = alu_operand(e, 7);
    lemma_adc_flags(s.cpu, v);
}

proof fn lemma_alu_81(e: NesEmulator)
    ensures
        alu_law(e, 4, 0, e.execute_spec(0x81).0),
{
    assert(e.execute_spec(0x81) == e.row_8_spec(0x81)) by {
        reveal(NesEmulator::execute_spec);
    }
}

proof fn lemma_alu_85(e: NesEmulator)
    ensures
        alu_law(e, 4, 1, e.execute_spec(0x85).0),
{
    assert(e.execute_spec(0x85) == e.row_8_spec(0x85)) by {
        reveal(NesEmulator::execute_spec);
    }
}

proof fn lemma_alu_8d(e: NesEmulator)
    ensures
        alu_law(e, 4, 3, e.execute_spec(0x8d).0),
{
    assert(e.execute_spec(0x8d) == e.row_8_spec(0x8d)) by {
        reveal(NesEmulator::execute_spec);
    }
}

proof fn lemma_alu_91(e: NesEmulator)
    ensures
        alu_law(e, 4, 4, e.execute_spec(0x91).0),
{
    assert(e.execute_spec(0x91) == e.row_9_spec(0x91)) by {
        reveal(NesEmulator::execute_spec);
    }
}

proof fn lemma_alu_95(e: NesEmulator)
    ensures
        alu_law(e, 4, 5, e.execute_spec(0x95).0),
{
    assert(e.execute_spec(0x95) == e.row_9_spec(0x95)) by {
        reveal(NesEmulator::execute_spec);
    }
}

proof fn lemma_alu_99(e: NesEmulator)
    ensures
        alu_law(e, 4, 6, e.execute_spec(0x99).0),
{
    assert(e.execute_spec(0x99) == e.row_9_spec(0x99)) by {
        reveal(NesEmulator::execute_spec);
    }
}

proof fn lemma_alu_9d(e: NesEmulator)
    ensures
        alu_law(e, 4, 7, e.execute_spec(0x9d).0),
{
    assert(e.execute_spec(0x9d) == e.row_9_spec(0x9d)) by {
        reveal(NesEmulator::execute_spec);
    }
}

proof fn lemma_alu_a1(e: NesEmulator)
    ensures
        alu_law(e, 5, 0, e.execute_spec(0xa1).0),
{
    assert(e.execute_spec(0xa1) == e.row_a_spec(0xa1)) by {
        reveal(NesEmulator::execute_spec);
    }
    let (s, v) = alu_operand(e, 0);
    reveal(NesEmulator::set_zn_spec);
    lemma_zn_flags(s.cpu.p, v);
}

proof fn lemma_alu_a5(e: NesEmulator)
    ensures
        alu_law(e, 5, 1, e.execute_spec(0xa5).0),
{
    assert(e.execute_spec(0xa5) == e.row_a_spec(0xa5)) by {
        reveal(NesEmulator::execute_spec);
    }
    let (s, v) = alu_operand(e, 1);
    reveal(NesEmulator::set_zn_spec);
    lemma_zn_flags(s.cpu.p, v);
}

proof fn lemma_alu_a9(e: NesEmulator)
    ensures
        alu_law(e, 5, 2, e.execute_spec(0xa9).0),
{
    assert(e.execute_spec(0xa9) == e.row_a_spec(0xa9)) by {
        reveal(NesEmulator::execute_spec);
    }
    let (s, v) = alu_operand(e, 2);
    reveal(NesEmulator::set_zn_spec);
    lemma_zn_flags(s.cpu.p, v);
}

proof fn lemma_alu_ad(e: NesEmulator)
    ensures
        alu_law(e, 5, 3, e.execute_spec(0xad).0),
{
    assert(e.execute_spec(0xad) == e.row_a_spec(0xad)) by {
        reveal(NesEmulator::execute_spec);
    }
    let (s, v) = alu_operand(e, 3);
    reveal(NesEmulator::set_zn_spec);
    lemma_zn_flags(s.cpu.p, v);
}

proof fn lemma_alu_b1(e: NesEmulator)
    ensures
        alu_law(e, 5, 4, e.execute_spec(0xb1).0),
{
    assert(e.execute_spec(0xb1) == e.row_b_spec(0xb1)) by {
        reveal(NesEmulator::execute_spec);
    }
    let (s, v) = alu_operand(e, 4);
    reveal(NesEmulator::set_zn_spec);
    lemma_zn_flags(s.cpu.p, v);
}

proof fn lemma_alu_b5(e: NesEmulator)
    ensures
        alu_law(e, 5, 5, e.execute_spec(0xb5).0),
{
    assert(e.execute_spec(0xb5) == e.row_b_spec(0xb5)) by {
        reveal(NesEmulator::execute_spec);
    }
    let (s, v) = alu_operand(e, 5);
    reveal(NesEmulator::set_zn_spec);
    lemma_zn_flags(s.cpu.p, v);
}

proof fn lemma_alu_b9(e: NesEmulator)
    ensures
        alu_law(e, 5, 6, e.execute_spec(0xb9).0),
{
    assert(e.execute_spec(0xb9) == e.row_b_spec(0xb9)) by {
        reveal(NesEmulator::execute_spec);
    }
    let (s, v) = alu_operand(e, 6);
    reveal(NesEmulator::set_zn_spec);
    lemma_zn_flags(s.cpu.p, v);
}

proof fn lemma_alu_bd(e: NesEmulator)
    ensures
        alu_law(e, 5, 7, e.execute_spec(0xbd).0),
{
    assert(e.execute_spec(0xbd) == e.row_b_spec(0xbd)) by {
        reveal(NesEmulator::execute_spec);
    }
    let (s, v) = alu_operand(e, 7);
    reveal(NesEmulator::set_zn_spec);
    lemma_zn_flags(s.cpu.p, v);
}

proof fn lemma_alu_c1(e: NesEmulator)
    ensures
        alu_law(e, 6, 0, e.execute_spec(0xc1).0),
{
    assert(e.execute_spec(0xc1) == e.row_c_spec(0xc1)) by {
        reveal(NesEmulator::execute_spec);
    }
    let (s, v) = alu_operand(e, 0);
    lemma_compare_flags(s.cpu, s.cpu.a, v);
}

proof fn lemma_alu_c5(e: NesEmulator)
    ensures
        alu_law(e, 6, 1, e.execute_spec(0xc5).0),
{
    assert(e.execute_spec(0xc5) == e.row_c_spec(0xc5)) by {
        reveal(NesEmulator::execute_spec);
    }
    let (s, v) = alu_operand(e, 1);
    lemma_compare_flags(s.cpu, s.cpu.a, v);
}

proof fn lemma_alu_c9(e: NesEmulator)
    ensures
        alu_law(e, 6, 2, e.execute_spec(0xc9).0),
{
    assert(e.execute_spec(0xc9) == e.row_c_spec(0xc9)) by {
        reveal(NesEmulator::execute_spec);
    }
    let (s, v) = alu_operand(e, 2);
    lemma_compare_flags(s.cpu, s.cpu.a, v);
}

proof fn lemma_alu_cd(e: NesEmulator)
    ensures
        alu_law(e, 6, 3, e.execute_spec(0xcd).0),
{
    assert(e.execute_spec(0xcd) == e.row_c_spec(0xcd)) by {
        reveal(NesEmulator::execute_spec);
    }
    let (s, v) = alu_operand(e, 3);
    lemma_compare_flags(s.cpu, s.cpu.a, v);
}

proof fn lemma_alu_d1(e: NesEmulator)
    ensures
        alu_law(e, 6, 4, e.execute_spec(0xd1).0),
{
    assert(e.execute_spec(0xd1) == e.row_d_spec(0xd1)) by {
        reveal(NesEmulator::execute_spec);
    }
    let (s, v) = alu_operand(e, 4);
    lemma_compare_flags(s.cpu, s.cpu.a, v);
}

proof fn lemma_alu_d5(e: NesEmulator)
    ensures
        alu_law(e, 6, 5, e.execute_spec(0xd5).0),
{
    assert(e.execute_spec(0xd5) == e.row_d_spec(0xd5)) by {
        reveal(NesEmulator::execute_spec);
    }
    let (s, v) = alu_operand(e, 5);
    lemma_compare_flags(s.cpu, s.cpu.a, v);
}

proof fn lemma_alu_d9(e: NesEmulator)
    ensures
        alu_law(e, 6, 6, e.execute_spec(0xd9).0),
{
    assert(e.execute_spec(0xd9) == e.row_d_spec(0xd9)) by {
        reveal(NesEmulator::execute_spec);
    }
    let (s, v) = alu_operand(e, 6);
    lemma_compare_flags(s.cpu, s.cpu.a, v);
}

proof fn lemma_alu_dd(e: NesEmulator)
    ensures
        alu_law(e, 6, 7, e.execute_spec(0xdd).0),
{
    assert(e.execute_spec(0xdd) == e.row_d_spec(0xdd)) by {
        reveal(NesEmulator::execute_spec);
    }
    let (s, v) = alu_operand(e, 7);
    lemma_compare_flags(s.cpu, s.cpu.a, v);
}

proof fn lemma_alu_e1(e: NesEmulator)
    ensures
        alu_law(e, 7, 0, e.execute_spec(0xe1).0),
{
    assert(e.execute_spec(0xe1) == e.row_e_spec(0xe1)) by {
        reveal(NesEmulator::execute_spec);
    }
    let (s, v) = alu_operand(e, 0);
    lemma_sbc_flags(s.cpu, v);
}

proof fn lemma_alu_e5(e: NesEmulator)
    ensures
        alu_law(e, 7, 1, e.execute_spec(0xe5).0),
{
    assert(e.execute_spec(0xe5) == e.row_e_spec(0xe5)) by {
        reveal(NesEmulator::execute_spec);
    }
    let (s, v) = alu_operand(e, 1);
    lemma_sbc_flags(s.cpu, v);
}

proof fn lemma_alu_e9(e: NesEmulator)
    ensures
        alu_law(e, 7, 2, e.execute_spec(0xe9).0),
{
    assert(e.execute_spec(0xe9) == e.row_e_spec(0xe9)) by {
        reveal(NesEmulator::execute_spec);
    }
    let (s, v) = alu_operand(e, 2);
    lemma_sbc_flags(s.cpu, v);
}

proof fn lemma_alu_ed(e: NesEmulator)
    ensures
        alu_law(e, 7, 3, e.execute_spec(0xed).0),
{
    assert(e.execute_spec(0xed) == e.row_e_spec(0xed)) by {
        reveal(NesEmulator::execute_spec);
    }
    let (s, v) = alu_operand(e, 3);
    lemma_sbc_flags(s.cpu, v);
}

proof fn lemma_alu_f1(e: NesEmulator)
    ensures
        alu_law(e, 7, 4, e.execute_spec(0xf1).0),
{
    assert(e.execute_spec(0xf1) == e.row_f_spec(0xf1)) by {
        reveal(NesEmulator::execute_spec);
    }
    let (s, v) = alu_operand(e, 4);
    lemma_sbc_flags(s.cpu, v);
}

proof fn lemma_alu_f5(e: NesEmulator)
    ensures
        alu_law(e, 7, 5, e.execute_spec(0xf5).0),
{
    assert(e.execute_spec(0xf5) == e.row_f_spec(0xf5)) by {
        reveal(NesEmulator::execute_spec);
    }
    let (s, v) = alu_operand(e, 5);
    lemma_sbc_flags(s.cpu, v);
}

proof fn lemma_alu_f9(e: NesEmulator)
    ensures
        alu_law(e, 7, 6, e.execute_spec(0xf9).0),
{
    assert(e.execute_spec(0xf9) == e.row_f_spec(0xf9)) by {
        reveal(NesEmulator::execute_spec);
    }
    let (s, v) = alu_operand(e, 6);
    lemma_sbc_flags(s.cpu, v);
}

proof fn lemma_alu_fd(e: NesEmulator)
    ensures
        alu_law(e, 7, 7, e.execute_spec(0xfd).0),
{
    assert(e.execute_spec(0xfd) == e.row_f_spec(0xfd)) by {
        reveal(NesEmulator::execute_spec);
    }
    let (s, v) = alu_operand(e, 7);
    lemma_sbc_flags(s.cpu, v);
}

impl NesEmulator {
    /// The ALU group of opcodes (`aaa bbb 01`): with the operand chosen by
    /// the addressing mode in bits 2..4 (`alu_operand`), ORA, AND and EOR
    /// put `A | v`, `A & v`, `A ^ v` in A with Z and N from it; ADC adds
    /// with carry and SBC subtracts with borrow (`adc_result`,
    /// `sbc_result`); STA writes A to the operand address; LDA loads `v`
    /// with Z and N; CMP compares A with `v` (`compare_result`). Nothing
    /// else changes.
    pub proof fn lemma_alu_group(self, aaa: u8, mode: u8)
        requires
            aaa < 8,
            mode < 8,
            aaa != 4 || mode != 2,
        ensures
            alu_law(self, aaa, mode, self.execute_spec((aaa * 32 + mode * 4 + 1) as u8).0),
    {
        let e = self;
        let op = (aaa * 32 + mode * 4 + 1) as u8;
        if op == 0x01 {
            lemma_alu_01(e);
        } else if op == 0x05 {
            lemma_alu_05(e);
        } else if op == 0x09 {
            lemma_alu_09(e);
        } else if op == 0x0d {
            lemma_alu_0d(e);
        } else if op == 0x11 {
            lemma_alu_11(e);
        } else if op == 0x15 {
            lemma_alu_15(e);
        } else if op == 0x19 {
            lemma_alu_19(e);
        } else if op == 0x1d {
            lemma_alu_1d(e);
        } else if op == 0x21 {
            lemma_alu_21(e);
        } else if op == 0x25 {
            lemma_alu_25(e);
        } else if op == 0x29 {
            lemma_alu_29(e);
        } else if op == 0x2d {
            lemma_alu_2d(e);
        } else if op == 0x31 {
            lemma_alu_31(e);
        } else if op == 0x35 {
            lemma_alu_35(e);
        } else if op == 0x39 {
            lemma_alu_39(e);
        } else if op == 0x3d {
            lemma_alu_3d(e);
        } else if op == 0x41 {
            lemma_alu_41(e);
        } else if op == 0x45 {
            lemma_alu_45(e);
        } else if op == 0x49 {
            lemma_alu_49(e);
        } else if op == 0x4d {
            lemma_alu_4d(e);
        } else if op == 0x51 {
            lemma_alu_51(e);
        } else if op == 0x55 {
            lemma_alu_55(e);
        } else if op == 0x59 {
            lemma_alu_59(e);
        } else if op == 0x5d {
            lemma_alu_5d(e);
        } else if op == 0x61 {
            lemma_alu_61(e);
        } else if op == 0x65 {
            lemma_alu_65(e);
        } else if op == 0x69 {
            lemma_alu_69(e);
        } else if op == 0x6d {
            lemma_alu_6d(e);
        } else if op == 0x71 {
            lemma_alu_71(e);
        } else if op == 0x75 {
            lemma_alu_75(e);
        } else if op == 0x79 {
            lemma_alu_79(e);
        } else if op == 0x7d {
            lemma_alu_7d(e);
        } else if op == 0x81 {
            lemma_alu_81(e);
        } else if op == 0x85 {
            lemma_alu_85(e);
        } else if op == 0x8d {
            lemma_alu_8d(e);
        } else if op == 0x91 {
            lemma_alu_91(e);
        } else if op == 0x95 {
            lemma_alu_95(e);
        } else if op == 0x99 {
            lemma_alu_99(e);
        } else if op == 0x9d {
            lemma_alu_9d(e);
        } else if op == 0xa1 {
            lemma_alu_a1(e);
        } else if op == 0xa5 {
            lemma_alu_a5(e);
        } else if op == 0xa9 {
            lemma_alu_a9(e);
        } else if op == 0xad {
            lemma_alu_ad(e);
        } else if op == 0xb1 {
            lemma_alu_b1(e);
        } else if op == 0xb5 {
            lemma_alu_b5(e);
        } else if op == 0xb9 {
            lemma_alu_b9(e);
        } else if op == 0xbd {
            lemma_alu_bd(e);
        } else if op == 0xc1 {
            lemma_alu_c1(e);
        } else if op == 0xc5 {
            lemma_alu_c5(e);
        } else if op == 0xc9 {
            lemma_alu_c9(e);
        } else if op == 0xcd {
            lemma_alu_cd(e);
        } else if op == 0xd1 {
            lemma_alu_d1(e);
        } else if op == 0xd5 {
            lemma_alu_d5(e);
        } else if op == 0xd9 {
            lemma_alu_d9(e);
        } else if op == 0xdd {
            lemma_alu_dd(e);
        } else if op == 0xe1 {
            lemma_alu_e1(e);
        } else if op == 0xe5 {
            lemma_alu_e5(e);
        } else if op == 0xe9 {
            lemma_alu_e9(e);
        } else if op == 0xed {
            lemma_alu_ed(e);
        } else if op == 0xf1 {
            lemma_alu_f1(e);
        } else if op == 0xf5 {
            lemma_alu_f5(e);
        } else if op == 0xf9 {
            lemma_alu_f9(e);
        } else if op == 0xfd {
            lemma_alu_fd(e);
        }
    }
}


/// `new_p` has `flag` set exactly when `on`, the unused bit set, and every
/// other bit as in `old_p`.
pub open spec fn flag_only(old_p: u8, new_p: u8, flag: u8, on: bool) -> bool {
    &&& (new_p & flag != 0) == on
    &&& new_p & FLAG_U != 0
    &&& new_p & !(flag | FLAG_U) == old_p & !(flag | FLAG_U)
}

/// `r` is `c` with A replaced by a shift result `value` whose carry out is
/// `carry_out`: C is the carry out, Z and N from `value`, I, D, B, V kept,
/// the unused bit set, other registers unchanged.
pub open spec fn shift_result(c: Cpu, value: u8, carry_out: bool, r: Cpu) -> bool {
    &&& r == (Cpu { a: value, p: r.p, ..c })
    &&& (r.p & FLAG_C != 0) == carry_out
    &&& (r.p & FLAG_Z != 0) == (value == 0)
    &&& (r.p & FLAG_N != 0) == (value >= 128)
    &&& r.p & FLAG_U != 0
    &&& r.p & 0x5c == c.p & 0x5c
}

proof fn lemma_set_flag_bits(p: u8, flag: u8, on: bool)
    requires
        flag == 0x01 || flag == 0x04 || flag == 0x08 || flag == 0x40,
    ensures
        flag_only(p, with_flag(p, flag, on) | 0x20, flag, on),
{
    assert(flag == 0x01 || flag == 0x04 || flag == 0x08 || flag == 0x40 ==> {
        let q = with_flag(p, flag, on) | 0x20;
        &&& (q & flag != 0) == on
        &&& q & 0x20 != 0
        &&& q & !(flag | 0x20) == p & !(flag | 0x20)
    }) by (bit_vector);
}

proof fn lemma_shift_bits(p: u8, value: u8, carry_out: bool, n_clear: bool)
    ensures
        ({
            let q = with_flag(with_flag(with_flag(p, 0x01, carry_out), 0x02, value == 0), 0x80, value >= 128) | 0x20;
            &&& (q & 0x01 != 0) == carry_out
            &&& (q & 0x02 != 0) == (value == 0)
            &&& (q & 0x80 != 0) == (value >= 128)
            &&& q & 0x20 != 0
            &&& q & 0x5c == p & 0x5c
        }),
        value < 128 ==> ({
            let q = with_flag(with_flag(with_flag(p, 0x01, carry_out), 0x02, value == 0), 0x80, false) | 0x20;
            &&& (q & 0x01 != 0) == carry_out
            &&& (q & 0x02 != 0) == (value == 0)
            &&& (q & 0x80 != 0) == (value >= 128)
            &&& q & 0x20 != 0
            &&& q & 0x5c == p & 0x5c
        }),
{
    let vz = value == 0;
    let vn = value >= 128;
    assert({
        let q = with_flag(with_flag(with_flag(p, 0x01, carry_out), 0x02, vz), 0x80, vn) | 0x20;
        &&& (q & 0x01 != 0) == carry_out
        &&& (q & 0x02 != 0) == vz
        &&& (q & 0x80 != 0) == vn
        &&& q & 0x20 != 0
        &&& q & 0x5c == p & 0x5c
    }) by (bit_vector);
}

impl NesEmulator {

    /// CLC clears the carry (opcode 0x18); nothing else changes but the unused bit.
    pub proof fn lemma_op_18(self)
        ensures
            self.execute_spec(0x18).1 == 2,
            self.execute_spec(0x18).0 == self.with_cpu(Cpu { p: self.execute_spec(0x18).0.cpu.p, ..self.cpu }),
            flag_only(self.cpu.p, self.execute_spec(0x18).0.cpu.p, FLAG_C, false),
    {
        let e = self;
        assert(e.execute_spec(0x18) == e.row_1_spec(0x18)) by {
            reveal(NesEmulator::execute_spec);
        }
        reveal(NesEmulator::set_flag_spec);
        lemma_set_flag_bits(self.cpu.p, FLAG_C, false);
    }

    /// SEC sets the carry (opcode 0x38); nothing else changes but the unused bit.
    pub proof fn lemma_op_38(self)
        ensures
            self.execute_spec(0x38).1 == 2,
            self.execute_spec(0x38).0 == self.with_cpu(Cpu { p: self.execute_spec(0x38).0.cpu.p, ..self.cpu }),
            flag_only(self.cpu.p, self.execute_spec(0x38).0.cpu.p, FLAG_C, true),
    {
        let e = self;
        assert(e.execute_spec(0x38) == e.row_3_spec(0x38)) by {
            reveal(NesEmulator::execute_spec);
        }
        reveal(NesEmulator::set_flag_spec);
        lemma_set_flag_bits(self.cpu.p, FLAG_C, true);
    }

    /// CLI clears interrupt disable (opcode 0x58); nothing else changes but the unused bit.
    pub proof fn lemma_op_58(self)
        ensures
            self.execute_spec(0x58).1 == 2,
            self.execute_spec(0x58).0 == self.with_cpu(Cpu { p: self.execute_spec(0x58).0.cpu.p, ..self.cpu }),
            flag_only(self.cpu.p, self.execute_spec(0x58).0.cpu.p, crate::emulator::FLAG_I, false),
    {
        let e = self;
        assert(e.execute_spec(0x58) == e.row_5_spec(0x58)) by {
            reveal(NesEmulator::execute_spec);
        }
        reveal(NesEmulator::set_flag_spec);
        lemma_set_flag_bits(self.cpu.p, crate::emulator::FLAG_I, false);
    }

    /// SEI sets interrupt disable (opcode 0x78); nothing else changes but the unused bit.
    pub proof fn lemma_op_78(self)
        ensures
            self.execute_spec(0x78).1 == 2,
            self.execute_spec(0x78).0 == self.with_cpu(Cpu { p: self.execute_spec(0x78).0.cpu.p, ..self.cpu }),
            flag_only(self.cpu.p, self.execute_spec(0x78).0.cpu.p, crate::emulator::FLAG_I, true),
    {
        let e = self;
        assert(e.execute_spec(0x78) == e.row_7_spec(0x78)) by {
            reveal(NesEmulator::execute_spec);
        }
        reveal(NesEmulator::set_flag_spec);
        lemma_set_flag_bits(self.cpu.p, crate::emulator::FLAG_I, true);
    }

    /// CLV clears overflow (opcode 0xb8); nothing else changes but the unused bit.
    pub proof fn lemma_op_b8(self)
        ensures
            self.execute_spec(0xb8).1 == 2,
            self.execute_spec(0xb8).0 == self.with_cpu(Cpu { p: self.execute_spec(0xb8).0.cpu.p, ..self.cpu }),
            flag_only(self.cpu.p, self.execute_spec(0xb8).0.cpu.p, FLAG_V, false),
    {
        let e = self;
        assert(e.execute_spec(0xb8) == e.row_b_spec(0xb8)) by {
            reveal(NesEmulator::execute_spec);
        }
        reveal(NesEmulator::set_flag_spec);
        lemma_set_flag_bits(self.cpu.p, FLAG_V, false);
    }

    /// CLD clears decimal (opcode 0xd8); nothing else changes but the unused bit.
    pub proof fn lemma_op_d8(self)
        ensures
            self.execute_spec(0xd8).1 == 2,
            self.execute_spec(0xd8).0 == self.with_cpu(Cpu { p: self.execute_spec(0xd8).0.cpu.p, ..self.cpu }),
            flag_only(self.cpu.p, self.execute_spec(0xd8).0.cpu.p, crate::emulator::FLAG_D, false),
    {
        let e = self;
        assert(e.execute_spec(0xd8) == e.row_d_spec(0xd8)) by {
            reveal(NesEmulator::execute_spec);
        }
        reveal(NesEmulator::set_flag_spec);
        lemma_set_flag_bits(self.cpu.p, crate::emulator::FLAG_D, false);
    }

    /// SED sets decimal (opcode 0xf8); nothing else changes but the unused bit.
    pub proof fn lemma_op_f8(self)
        ensures
            self.execute_spec(0xf8).1 == 2,
            self.execute_spec(0xf8).0 == self.with_cpu(Cpu { p: self.execute_spec(0xf8).0.cpu.p, ..self.cpu }),
            flag_only(self.cpu.p, self.execute_spec(0xf8).0.cpu.p, crate::emulator::FLAG_D, true),
    {
        let e = self;
        assert(e.execute_spec(0xf8) == e.row_f_spec(0xf8)) by {
            reveal(NesEmulator::execute_spec);
        }
        reveal(NesEmulator::set_flag_spec);
        lemma_set_flag_bits(self.cpu.p, crate::emulator::FLAG_D, true);
    }

    /// TAX copies A to X, with Z and N from the new value (opcode 0xaa).
    pub proof fn lemma_op_aa(self)
        ensures
            self.execute_spec(0xaa).1 == 2,
            self.execute_spec(0xaa).0 == self.with_cpu(Cpu { x: self.cpu.a, p: self.execute_spec(0xaa).0.cpu.p, ..self.cpu }),
            nz_result(self.cpu.p, self.execute_spec(0xaa).0.cpu.p, self.cpu.a),
    {
        let e = self;
        assert(e.execute_spec(0xaa) == e.row_a_spec(0xaa)) by {
            reveal(NesEmulator::execute_spec);
        }
        reveal(NesEmulator::set_zn_spec);
        lemma_zn_flags(self.cpu.p, self.cpu.a);
    }

    /// TAY copies A to Y, with Z and N from the new value (opcode 0xa8).
    pub proof fn lemma_op_a8(self)
        ensures
            self.execute_spec(0xa8).1 == 2,
            self.execute_spec(0xa8).0 == self.with_cpu(Cpu { y: self.cpu.a, p: self.execute_spec(0xa8).0.cpu.p, ..self.cpu }),
            nz_result(self.cpu.p, self.execute_spec(0xa8).0.cpu.p, self.cpu.a),
    {
        let e = self;
        assert(e.execute_spec(0xa8) == e.row_a_spec(0xa8)) by {
            reveal(NesEmulator::execute_spec);
        }
        reveal(NesEmulator::set_zn_spec);
        lemma_zn_flags(self.cpu.p, self.cpu.a);
    }

    /// TXA copies X to A, with Z and N from the new value (opcode 0x8a).
    pub proof fn lemma_op_8a(self)
        ensures
            self.execute_spec(0x8a).1 == 2,
            self.execute_spec(0x8a).0 == self.with_cpu(Cpu { a: self.cpu.x, p: self.execute_spec(0x8a).0.cpu.p, ..self.cpu }),
            nz_result(self.cpu.p, self.execute_spec(0x8a).0.cpu.p, self.cpu.x),
    {
        let e = self;
        assert(e.execute_spec(0x8a) == e.row_8_spec(0x8a)) by {
            reveal(NesEmulator::execute_spec);
        }
        reveal(NesEmulator::set_zn_spec);
        lemma_zn_flags(self.cpu.p, self.cpu.x);
    }

    /// TYA copies Y to A, with Z and N from the new value (opcode 0x98).
    pub proof fn lemma_op_98(self)
        ensures
            self.execute_spec(0x98).1 == 2,
            self.execute_spec(0x98).0 == self.with_cpu(Cpu { a: self.cpu.y, p: self.execute_spec(0x98).0.cpu.p, ..self.cpu }),
            nz_result(self.cpu.p, self.execute_spec(0x98).0.cpu.p, self.cpu.y),
    {
        let e = self;
        assert(e.execute_spec(0x98) == e.row_9_spec(0x98)) by {
            reveal(NesEmulator::execute_spec);
        }
        reveal(NesEmulator::set_zn_spec);
        lemma_zn_flags(self.cpu.p, self.cpu.y);
    }

    /// TSX copies the stack pointer to X, with Z and N from the new value (opcode 0xba).
    pub proof fn lemma_op_ba(self)
        ensures
            self.execute_spec(0xba).1 == 2,
            self.execute_spec(0xba).0 == self.with_cpu(Cpu { x: self.cpu.sp, p: self.execute_spec(0xba).0.cpu.p, ..self.cpu }),
            nz_result(self.cpu.p, self.execute_spec(0xba).0.cpu.p, self.cpu.sp),
    {
        let e = self;
        assert(e.execute_spec(0xba) == e.row_b_spec(0xba)) by {
            reveal(NesEmulator::execute_spec);
        }
        reveal(NesEmulator::set_zn_spec);
        lemma_zn_flags(self.cpu.p, self.cpu.sp);
    }

    /// INX adds one to X, wrapping, with Z and N from the new value (opcode 0xe8).
    pub proof fn lemma_op_e8(self)
        ensures
            self.execute_spec(0xe8).1 == 2,
            self.execute_spec(0xe8).0 == self.with_cpu(Cpu { x: ((self.cpu.x as int + 1) % 256) as u8, p: self.execute_spec(0xe8).0.cpu.p, ..self.cpu }),
            nz_result(self.cpu.p, self.execute_spec(0xe8).0.cpu.p, ((self.cpu.x as int + 1) % 256) as u8),
    {
        let e = self;
        assert(e.execute_spec(0xe8) == e.row_e_spec(0xe8)) by {
            reveal(NesEmulator::execute_spec);
        }
        reveal(NesEmulator::set_zn_spec);
        lemma_zn_flags(self.cpu.p, ((self.cpu.x as int + 1) % 256) as u8);
    }

    /// INY adds one to Y, wrapping, with Z and N from the new value (opcode 0xc8).
    pub proof fn lemma_op_c8(self)
        ensures
            self.execute_spec(0xc8).1 == 2,
            self.execute_spec(0xc8).0 == self.with_cpu(Cpu { y: ((self.cpu.y as int + 1) % 256) as u8, p: self.execute_spec(0xc8).0.cpu.p, ..self.cpu }),
            nz_result(self.cpu.p, self.execute_spec(0xc8).0.cpu.p, ((self.cpu.y as int + 1) % 256) as u8),
    {
        let e = self;
        assert(e.execute_spec(0xc8) == e.row_c_spec(0xc8)) by {
            reveal(NesEmulator::execute_spec);
        }
        reveal(NesEmulator::set_zn_spec);
        lemma_zn_flags(self.cpu.p, ((self.cpu.y as int + 1) % 256) as u8);
    }

    /// DEX subtracts one from X, wrapping, with Z and N from the new value (opcode 0xca).
    pub proof fn lemma_op_ca(self)
        ensures
            self.execute_spec(0xca).1 == 2,
            self.execute_spec(0xca).0 == self.with_cpu(Cpu { x: ((self.cpu.x as int - 1) % 256) as u8, p: self.execute_spec(0xca).0.cpu.p, ..self.cpu }),
            nz_result(self.cpu.p, self.execute_spec(0xca).0.cpu.p, ((self.cpu.x as int - 1) % 256) as u8),
    {
        let e = self;
        assert(e.execute_spec(0xca) == e.row_c_spec(0xca)) by {
            reveal(NesEmulator::execute_spec);
        }
        reveal(NesEmulator::set_zn_spec);
        lemma_zn_flags(self.cpu.p, ((self.cpu.x as int - 1) % 256) as u8);
    }

    /// DEY subtracts one from Y, wrapping, with Z and N from the new value (opcode 0x88).
    pub proof fn lemma_op_88(self)
        ensures
            self.execute_spec(0x88).1 == 2,
            self.execute_spec(0x88).0 == self.with_cpu(Cpu { y: ((self.cpu.y as int - 1) % 256) as u8, p: self.execute_spec(0x88).0.cpu.p, ..self.cpu }),
            nz_result(self.cpu.p, self.execute_spec(0x88).0.cpu.p, ((self.cpu.y as int - 1) % 256) as u8),
    {
        let e = self;
        assert(e.execute_spec(0x88) == e.row_8_spec(0x88)) by {
            reveal(NesEmulator::execute_spec);
        }
        reveal(NesEmulator::set_zn_spec);
        lemma_zn_flags(self.cpu.p, ((self.cpu.y as int - 1) % 256) as u8);
    }

    /// TXS copies X to the stack pointer and touches no flag (opcode 0x9a).
    pub proof fn lemma_op_9a(self)
        ensures
            self.execute_spec(0x9a) == (self.with_cpu(Cpu { sp: self.cpu.x, ..self.cpu }), 2u16),
    {
        let e = self;
        assert(e.execute_spec(0x9a) == e.row_9_spec(0x9a)) by {
            reveal(NesEmulator::execute_spec);
        }
    }

    /// NOP changes nothing (opcode 0xea).
    pub proof fn lemma_op_ea(self)
        ensures
            self.execute_spec(0xea) == (self, 2u16),
    {
        let e = self;
        assert(e.execute_spec(0xea) == e.row_e_spec(0xea)) by {
            reveal(NesEmulator::execute_spec);
        }
    }

    /// ASL A shifts A left; bit 7 goes to the carry (opcode 0x0a).
    pub proof fn lemma_op_0a(self)
        ensures
            self.execute_spec(0x0a).1 == 2,
            self.execute_spec(0x0a).0 == self.with_cpu(self.execute_spec(0x0a).0.cpu),
            shift_result(self.cpu, ((self.cpu.a as int * 2) % 256) as u8, self.cpu.a >= 128, self.execute_spec(0x0a).0.cpu),
    {
        let e = self;
        assert(e.execute_spec(0x0a) == e.row_0_spec(0x0a)) by {
            reveal(NesEmulator::execute_spec);
        }
        lemma_shift_bits(self.cpu.p, ((self.cpu.a as int * 2) % 256) as u8, self.cpu.a >= 128, false);
    }

    /// LSR A shifts A right; bit 0 goes to the carry and N clears (opcode 0x4a).
    pub proof fn lemma_op_4a(self)
        ensures
            self.execute_spec(0x4a).1 == 2,
            self.execute_spec(0x4a).0 == self.with_cpu(self.execute_spec(0x4a).0.cpu),
            shift_result(self.cpu, self.cpu.a / 2, self.cpu.a % 2 == 1, self.execute_spec(0x4a).0.cpu),
    {
        let e = self;
        assert(e.execute_spec(0x4a) == e.row_4_spec(0x4a)) by {
            reveal(NesEmulator::execute_spec);
        }
        lemma_shift_bits(self.cpu.p, self.cpu.a / 2, self.cpu.a % 2 == 1, true);
    }

    /// ROL A rotates A left through the carry (opcode 0x2a).
    pub proof fn lemma_op_2a(self)
        ensures
            self.execute_spec(0x2a).1 == 2,
            self.execute_spec(0x2a).0 == self.with_cpu(self.execute_spec(0x2a).0.cpu),
            shift_result(self.cpu, ((self.cpu.a as int * 2 + carry_in(self.cpu.p)) % 256) as u8, self.cpu.a >= 128, self.execute_spec(0x2a).0.cpu),
    {
        let e = self;
        assert(e.execute_spec(0x2a) == e.row_2_spec(0x2a)) by {
            reveal(NesEmulator::execute_spec);
        }
        lemma_shift_bits(self.cpu.p, ((self.cpu.a as int * 2 + carry_in(self.cpu.p)) % 256) as u8, self.cpu.a >= 128, false);
    }

    /// ROR A rotates A right through the carry (opcode 0x6a).
    pub proof fn lemma_op_6a(self)
        ensures
            self.execute_spec(0x6a).1 == 2,
            self.execute_spec(0x6a).0 == self.with_cpu(self.execute_spec(0x6a).0.cpu),
            shift_result(self.cpu, (self.cpu.a / 2 + 128 * carry_in(self.cpu.p)) as u8, self.cpu.a % 2 == 1, self.execute_spec(0x6a).0.cpu),
    {
        let e = self;
        assert(e.execute_spec(0x6a) == e.row_6_spec(0x6a)) by {
            reveal(NesEmulator::execute_spec);
        }
        lemma_shift_bits(self.cpu.p, (self.cpu.a / 2 + 128 * carry_in(self.cpu.p)) as u8, self.cpu.a % 2 == 1, false);
    }
}


/// RAM after a stack write of `value` at stack pointer `sp`: byte
/// `0x100 + sp` holds `value`, every other byte stays.
pub open spec fn stack_written(before: NesEmulator, after: NesEmulator, sp: u8, value: u8) -> bool {
    &&& after.ram[0x100 + sp as int] == value
    &&& forall|i: int| 0 <= i < 2048 && i != 0x100 + sp as int ==> #[trigger] after.ram[i] == before.ram[i]
}

impl NesEmulator {

    /// PHA pushes A: the byte goes to 0x100 + SP, SP decrements (wrapping), and
    /// nothing else changes (opcode 0x48).
    #[verifier::spinoff_prover]
    #[verifier::rlimit(60)]
    pub proof fn lemma_op_48(self)
        ensures
            ({
                let (r, cycles) = self.execute_spec(0x48);
                &&& cycles == 3
                &&& r.cpu == (Cpu { sp: wrap8(self.cpu.sp as int - 1), ..self.cpu })
                &&& stack_written(self, r, self.cpu.sp, self.cpu.a)
                &&& r == (NesEmulator { ram: r.ram, cpu: r.cpu, ..self })
            }),
    {
        assert(self.execute_spec(0x48) == self.row_4_spec(0x48)) by {
            reveal(NesEmulator::execute_spec);
        }
        reveal(NesEmulator::push_spec);
        reveal(NesEmulator::bus_write);
        broadcast use vstd::array::group_array_axioms;
    }

    /// PHP pushes the status with B and the unused bit set: the byte goes to 0x100 + SP, SP decrements (wrapping), and
    /// nothing else changes (opcode 0x08).
    #[verifier::spinoff_prover]
    #[verifier::rlimit(60)]
    pub proof fn lemma_op_08(self)
        ensures
            ({
                let (r, cycles) = self.execute_spec(0x08);
                &&& cycles == 3
                &&& r.cpu == (Cpu { sp: wrap8(self.cpu.sp as int - 1), ..self.cpu })
                &&& stack_written(self, r, self.cpu.sp, self.cpu.p | 0x30)
                &&& r == (NesEmulator { ram: r.ram, cpu: r.cpu, ..self })
            }),
    {
        assert(self.execute_spec(0x08) == self.row_0_spec(0x08)) by {
            reveal(NesEmulator::execute_spec);
        }
        reveal(NesEmulator::push_spec);
        reveal(NesEmulator::bus_write);
        broadcast use vstd::array::group_array_axioms;
        let p = self.cpu.p;
        assert(p | 0x10u8 | 0x20u8 == p | 0x30u8) by (bit_vector);
    }

    /// PLA pulls A: SP increments (wrapping) and A takes the byte at
    /// 0x100 + SP, with Z and N from it; RAM is untouched (opcode 0x68).
    #[verifier::spinoff_prover]
    #[verifier::rlimit(60)]
    pub proof fn lemma_op_68(self)
        ensures
            ({
                let (r, cycles) = self.execute_spec(0x68);
                let sp = wrap8(self.cpu.sp as int + 1);
                let v = self.ram[0x100 + sp as int];
                &&& cycles == 4
                &&& r == self.with_cpu(Cpu { a: v, sp: sp, p: r.cpu.p, ..self.cpu })
                &&& nz_result(self.cpu.p, r.cpu.p, v)
            }),
    {
        assert(self.execute_spec(0x68) == self.row_6_spec(0x68)) by {
            reveal(NesEmulator::execute_spec);
        }
        reveal(NesEmulator::pop_spec);
        reveal(NesEmulator::bus_read);
        reveal(NesEmulator::set_zn_spec);
        let sp = wrap8(self.cpu.sp as int + 1);
        lemma_zn_flags(self.cpu.p, self.ram[0x100 + sp as int]);
    }

    /// PLP pulls the status: SP increments (wrapping) and P takes the byte
    /// at 0x100 + SP with B clear and the unused bit set (opcode 0x28).
    #[verifier::spinoff_prover]
    #[verifier::rlimit(60)]
    pub proof fn lemma_op_28(self)
        ensures
            ({
                let (r, cycles) = self.execute_spec(0x28);
                let sp = wrap8(self.cpu.sp as int + 1);
                let v = self.ram[0x100 + sp as int];
                &&& cycles == 4
                &&& r == self.with_cpu(Cpu { sp: sp, p: r.cpu.p, ..self.cpu })
                &&& r.cpu.p & 0xcf == v & 0xcf
                &&& r.cpu.p & crate::emulator::FLAG_B == 0
                &&& r.cpu.p & FLAG_U != 0
            }),
    {
        assert(self.execute_spec(0x28) == self.row_2_spec(0x28)) by {
            reveal(NesEmulator::execute_spec);
        }
        reveal(NesEmulator::pop_spec);
        reveal(NesEmulator::bus_read);
        let sp = wrap8(self.cpu.sp as int + 1);
        let v = self.ram[0x100 + sp as int];
        crate::step_laws::lemma_pulled_status(v);
    }

    /// RTS pulls the return address, low byte first from 0x100 + SP + 1,
    /// and continues one past it; SP moves up by two (opcode 0x60).
    #[verifier::spinoff_prover]
    #[verifier::rlimit(80)]
    pub proof fn lemma_op_60(self)
        ensures
            ({
                let (r, cycles) = self.execute_spec(0x60);
                let sp1 = wrap8(self.cpu.sp as int + 1);
                let sp2 = wrap8(self.cpu.sp as int + 2);
                let ret = self.ram[0x100 + sp1 as int] as int + 256 * self.ram[0x100 + sp2 as int] as int;
                &&& cycles == 6
                &&& r == self.with_cpu(Cpu { sp: sp2, pc: ((ret + 1) % 0x10000) as u16, ..self.cpu })
            }),
    {
        assert(self.execute_spec(0x60) == self.row_6_spec(0x60)) by {
            reveal(NesEmulator::execute_spec);
        }
        crate::step_laws::lemma_pop_u16_reads_stack(self);
        let sp1 = wrap8(self.cpu.sp as int + 1);
        assert(wrap8(sp1 as int + 1) == wrap8(self.cpu.sp as int + 2));
        assert((0x100 + sp1 as int) % 0x800 == 0x100 + sp1 as int);
        assert((0x100 + wrap8(self.cpu.sp as int + 2) as int) % 0x800 == 0x100 + wrap8(self.cpu.sp as int + 2) as int);
        let (q, w) = self.pop_u16_spec();
        let ret = self.ram[0x100 + sp1 as int] as int + 256 * self.ram[0x100 + wrap8(self.cpu.sp as int + 2) as int] as int;
        assert(w as int == ret);
        assert(w.wrapping_add(1) == ((ret + 1) % 0x10000) as u16);
    }

    /// RTI pulls the status (B clear, unused bit set), then the return
    /// address, low byte first, and continues there; SP moves up by three
    /// (opcode 0x40).
    #[verifier::spinoff_prover]
    #[verifier::rlimit(80)]
    pub proof fn lemma_op_40(self)
        ensures
            ({
                let (r, cycles) = self.execute_spec(0x40);
                let sp1 = wrap8(self.cpu.sp as int + 1);
                let sp2 = wrap8(self.cpu.sp as int + 2);
                let sp3 = wrap8(self.cpu.sp as int + 3);
                let v = self.ram[0x100 + sp1 as int];
                let ret = self.ram[0x100 + sp2 as int] as int + 256 * self.ram[0x100 + sp3 as int] as int;
                &&& cycles == 6
                &&& r == self.with_cpu(Cpu { sp: sp3, pc: ret as u16, p: r.cpu.p, ..self.cpu })
                &&& r.cpu.p & 0xcf == v & 0xcf
                &&& r.cpu.p & crate::emulator::FLAG_B == 0
                &&& r.cpu.p & FLAG_U != 0
            }),
    {
        assert(self.execute_spec(0x40) == self.row_4_spec(0x40)) by {
            reveal(NesEmulator::execute_spec);
        }
        reveal(NesEmulator::pop_spec);
        reveal(NesEmulator::bus_read);
        let sp1 = wrap8(self.cpu.sp as int + 1);
        assert(wrap8(sp1 as int + 1) == wrap8(self.cpu.sp as int + 2));
        assert(wrap8(wrap8(self.cpu.sp as int + 2) as int + 1) == wrap8(self.cpu.sp as int + 3));
        let v = self.ram[0x100 + sp1 as int];
        let (s1, v1) = self.pop_spec();
        assert(v1 == v);
        let s2 = s1.with_cpu(Cpu { p: (v & !crate::emulator::FLAG_B) | FLAG_U, ..s1.cpu });
        crate::step_laws::lemma_pop_u16_reads_stack(s2);
        assert(s2.ram == self.ram);
        crate::step_laws::lemma_pulled_status(v);
    }

    /// JMP absolute continues at its two operand bytes, low byte first
    /// (opcode 0x4c).
    pub proof fn lemma_op_4c(self)
        ensures
            ({
                let (r, cycles) = self.execute_spec(0x4c);
                let (s, target) = self.fetch_u16_spec();
                &&& cycles == 3
                &&& r == s.with_cpu(Cpu { pc: target, ..s.cpu })
            }),
    {
        assert(self.execute_spec(0x4c) == self.row_4_spec(0x4c)) by {
            reveal(NesEmulator::execute_spec);
        }
    }

    /// JMP indirect continues at the word stored at its operand address,
    /// low byte first, the high byte read from the same page (the pointer's
    /// low byte wraps from 0xff to 0x00) (opcode 0x6c).
    pub proof fn lemma_op_6c(self)
        ensures
            ({
                let (r, cycles) = self.execute_spec(0x6c);
                let (s, ptr) = self.fetch_u16_spec();
                let (s2, lo) = s.bus_read(ptr);
                let hi_addr = ((ptr as int / 256) * 256 + (ptr as int + 1) % 256) as u16;
                let (s3, hi) = s2.bus_read(hi_addr);
                &&& cycles == 5
                &&& r == s3.with_cpu(Cpu { pc: (lo as int + 256 * hi as int) as u16, ..s3.cpu })
            }),
    {
        assert(self.execute_spec(0x6c) == self.row_6_spec(0x6c)) by {
            reveal(NesEmulator::execute_spec);
        }
    }

    /// BPL branches when N is clear: PC moves past the offset byte and, when taken, by the offset
    /// as a signed byte; 2 cycles, one more when taken, and another when
    /// the target is on another page (opcode 0x10).
    pub proof fn lemma_op_10(self)
        ensures
            ({
                let (r, cycles) = self.execute_spec(0x10);
                let (s, offset) = self.fetch_spec();
                let taken = self.cpu.p & FLAG_N == 0;
                let signed: int = if offset < 128 { offset as int } else { offset as int - 256 };
                let target = ((s.cpu.pc as int + signed) % 0x10000) as u16;
                &&& r == s.with_cpu(Cpu { pc: if taken { target } else { s.cpu.pc }, ..s.cpu })
                &&& cycles == if !taken { 2u16 } else if s.cpu.pc as int / 256 != target as int / 256 { 4u16 } else { 3u16 }
            }),
    {
        assert(self.execute_spec(0x10) == self.row_1_spec(0x10)) by {
            reveal(NesEmulator::execute_spec);
        }
        reveal(NesEmulator::branch_spec);
    }

    /// BMI branches when N is set: PC moves past the offset byte and, when taken, by the offset
    /// as a signed byte; 2 cycles, one more when taken, and another when
    /// the target is on another page (opcode 0x30).
    pub proof fn lemma_op_30(self)
        ensures
            ({
                let (r, cycles) = self.execute_spec(0x30);
                let (s, offset) = self.fetch_spec();
                let taken = self.cpu.p & FLAG_N != 0;
                let signed: int = if offset < 128 { offset as int } else { offset as int - 256 };
                let target = ((s.cpu.pc as int + signed) % 0x10000) as u16;
                &&& r == s.with_cpu(Cpu { pc: if taken { target } else { s.cpu.pc }, ..s.cpu })
                &&& cycles == if !taken { 2u16 } else if s.cpu.pc as int / 256 != target as int / 256 { 4u16 } else { 3u16 }
            }),
    {
        assert(self.execute_spec(0x30) == self.row_3_spec(0x30)) by {
            reveal(NesEmulator::execute_spec);
        }
        reveal(NesEmulator::branch_spec);
    }

    /// BVC branches when V is clear: PC moves past the offset byte and, when taken, by the offset
    /// as a signed byte; 2 cycles, one more when taken, and another when
    /// the target is on another page (opcode 0x50).
    pub proof fn lemma_op_50(self)
        ensures
            ({
                let (r, cycles) = self.execute_spec(0x50);
                let (s, offset) = self.fetch_spec();
                let taken = self.cpu.p & FLAG_V == 0;
                let signed: int = if offset < 128 { offset as int } else { offset as int - 256 };
                let target = ((s.cpu.pc as int + signed) % 0x10000) as u16;
                &&& r == s.with_cpu(Cpu { pc: if taken { target } else { s.cpu.pc }, ..s.cpu })
                &&& cycles == if !taken { 2u16 } else if s.cpu.pc as int / 256 != target as int / 256 { 4u16 } else { 3u16 }
            }),
    {
        assert(self.execute_spec(0x50) == self.row_5_spec(0x50)) by {
            reveal(NesEmulator::execute_spec);
        }
        reveal(NesEmulator::branch_spec);
    }

    /// BVS branches when V is set: PC moves past the offset byte and, when taken, by the offset
    /// as a signed byte; 2 cycles, one more when taken, and another when
    /// the target is on another page (opcode 0x70).
    pub proof fn lemma_op_70(self)
        ensures
            ({
                let (r, cycles) = self.execute_spec(0x70);
                let (s, offset) = self.fetch_spec();
                let taken = self.cpu.p & FLAG_V != 0;
                let signed: int = if offset < 128 { offset as int } else { offset as int - 256 };
                let target = ((s.cpu.pc as int + signed) % 0x10000) as u16;
                &&& r == s.with_cpu(Cpu { pc: if taken { target } else { s.cpu.pc }, ..s.cpu })
                &&& cycles == if !taken { 2u16 } else if s.cpu.pc as int / 256 != target as int / 256 { 4u16 } else { 3u16 }
            }),
    {
        assert(self.execute_spec(0x70) == self.row_7_spec(0x70)) by {
            reveal(NesEmulator::execute_spec);
        }
        reveal(NesEmulator::branch_spec);
    }

    /// BCC branches when C is clear: PC moves past the offset byte and, when taken, by the offset
    /// as a signed byte; 2 cycles, one more when taken, and another when
    /// the target is on another page (opcode 0x90).
    pub proof fn lemma_op_90(self)
        ensures
            ({
                let (r, cycles) = self.execute_spec(0x90);
                let (s, offset) = self.fetch_spec();
                let taken = self.cpu.p & FLAG_C == 0;
                let signed: int = if offset < 128 { offset as int } else { offset as int - 256 };
                let target = ((s.cpu.pc as int + signed) % 0x10000) as u16;
                &&& r == s.with_cpu(Cpu { pc: if taken { target } else { s.cpu.pc }, ..s.cpu })
                &&& cycles == if !taken { 2u16 } else if s.cpu.pc as int / 256 != target as int / 256 { 4u16 } else { 3u16 }
            }),
    {
        assert(self.execute_spec(0x90) == self.row_9_spec(0x90)) by {
            reveal(NesEmulator::execute_spec);
        }
        reveal(NesEmulator::branch_spec);
    }

    /// BCS branches when C is set: PC moves past the offset byte and, when taken, by the offset
    /// as a signed byte; 2 cycles, one more when taken, and another when
    /// the target is on another page (opcode 0xb0).
    pub proof fn lemma_op_b0(self)
        ensures
            ({
                let (r, cycles) = self.execute_spec(0xb0);
                let (s, offset) = self.fetch_spec();
                let taken = self.cpu.p & FLAG_C != 0;
                let signed: int = if offset < 128 { offset as int } else { offset as int - 256 };
                let target = ((s.cpu.pc as int + signed) % 0x10000) as u16;
                &&& r == s.with_cpu(Cpu { pc: if taken { target } else { s.cpu.pc }, ..s.cpu })
                &&& cycles == if !taken { 2u16 } else if s.cpu.pc as int / 256 != target as int / 256 { 4u16 } else { 3u16 }
            }),
    {
        assert(self.execute_spec(0xb0) == self.row_b_spec(0xb0)) by {
            reveal(NesEmulator::execute_spec);
        }
        reveal(NesEmulator::branch_spec);
    }

    /// BNE branches when Z is clear: PC moves past the offset byte and, when taken, by the offset
    /// as a signed byte; 2 cycles, one more when taken, and another when
    /// the target is on another page (opcode 0xd0).
    pub proof fn lemma_op_d0(self)
        ensures
            ({
                let (r, cycles) = self.execute_spec(0xd0);
                let (s, offset) = self.fetch_spec();
                let taken = self.cpu.p & FLAG_Z == 0;
                let signed: int = if offset < 128 { offset as int } else { offset as int - 256 };
                let target = ((s.cpu.pc as int + signed) % 0x10000) as u16;
                &&& r == s.with_cpu(Cpu { pc: if taken { target } else { s.cpu.pc }, ..s.cpu })
                &&& cycles == if !taken { 2u16 } else if s.cpu.pc as int / 256 != target as int / 256 { 4u16 } else { 3u16 }
            }),
    {
        assert(self.execute_spec(0xd0) == self.row_d_spec(0xd0)) by {
            reveal(NesEmulator::execute_spec);
        }
        reveal(NesEmulator::branch_spec);
    }

    /// BEQ branches when Z is set: PC moves past the offset byte and, when taken, by the offset
    /// as a signed byte; 2 cycles, one more when taken, and another when
    /// the target is on another page (opcode 0xf0).
    pub proof fn lemma_op_f0(self)
        ensures
            ({
                let (r, cycles) = self.execute_spec(0xf0);
                let (s, offset) = self.fetch_spec();
                let taken = self.cpu.p & FLAG_Z != 0;
                let signed: int = if offset < 128 { offset as int } else { offset as int - 256 };
                let target = ((s.cpu.pc as int + signed) % 0x10000) as u16;
                &&& r == s.with_cpu(Cpu { pc: if taken { target } else { s.cpu.pc }, ..s.cpu })
                &&& cycles == if !taken { 2u16 } else if s.cpu.pc as int / 256 != target as int / 256 { 4u16 } else { 3u16 }
            }),
    {
        assert(self.execute_spec(0xf0) == self.row_f_spec(0xf0)) by {
            reveal(NesEmulator::execute_spec);
        }
        reveal(NesEmulator::branch_spec);
    }
}


/// The flags after a read-modify-write shift of memory: C is the carry
/// out, Z and N from the new byte, I, D, B, V kept, the unused bit set; no
/// register changes.
pub open spec fn mem_shift_flags(c: Cpu, value: u8, carry_out: bool, r: Cpu) -> bool {
    &&& r == (Cpu { p: r.p, ..c })
    &&& (r.p & FLAG_C != 0) == carry_out
    &&& (r.p & FLAG_Z != 0) == (value == 0)
    &&& (r.p & FLAG_N != 0) == (value >= 128)
    &&& r.p & FLAG_U != 0
    &&& r.p & 0x5c == c.p & 0x5c
}

proof fn lemma_bit_flags(p: u8, z: bool, ov: bool, ng: bool)
    ensures
        ({
            let q = with_flag(with_flag(with_flag(p, 0x02, z), 0x40, ov), 0x80, ng) | 0x20;
            &&& (q & 0x02 != 0) == z
            &&& (q & 0x40 != 0) == ov
            &&& (q & 0x80 != 0) == ng
            &&& q & 0x20 != 0
            &&& q & 0x1d == p & 0x1d
        }),
{
    assert({
        let q = with_flag(with_flag(with_flag(p, 0x02, z), 0x40, ov), 0x80, ng) | 0x20;
        &&& (q & 0x02 != 0) == z
        &&& (q & 0x40 != 0) == ov
        &&& (q & 0x80 != 0) == ng
        &&& q & 0x20 != 0
        &&& q & 0x1d == p & 0x1d
    }) by (bit_vector);
}

/// The flags after BIT with `v`: Z when `A & v` is 0, V and N copied from
/// bits 6 and 7 of `v`, C, I, D, B kept, the unused bit set; no register
/// changes.
pub open spec fn bit_result(c: Cpu, v: u8, r: Cpu) -> bool {
    &&& r == (Cpu { p: r.p, ..c })
    &&& (r.p & FLAG_Z != 0) == (c.a & v == 0)
    &&& (r.p & FLAG_V != 0) == (v & 0x40 != 0)
    &&& (r.p & FLAG_N != 0) == (v & 0x80 != 0)
    &&& r.p & FLAG_U != 0
    &&& r.p & 0x1d == c.p & 0x1d
}

impl NesEmulator {

    /// ASL shifts the byte left; bit 7 goes to the carry, read from and written back to the zero page address (opcode
    /// 0x06).
    pub proof fn lemma_op_06(self)
        ensures
            ({
                let (r, cycles) = self.execute_spec(0x06);
                let (t, addr) = self.zp_spec();
                let (s, v) = t.bus_read(addr);
                let value = ((v as int * 2) % 256) as u8;
                &&& cycles == 5
                &&& r == s.with_cpu(r.cpu).bus_write(addr, value)
                &&& mem_shift_flags(s.cpu, value, v >= 128, r.cpu)
            }),
    {
        assert(self.execute_spec(0x06) == self.row_0_spec(0x06)) by {
            reveal(NesEmulator::execute_spec);
        }
        reveal(NesEmulator::rmw_spec);
        let (t, addr) = self.zp_spec();
        let (s, v) = t.bus_read(addr);
        let value = ((v as int * 2) % 256) as u8;
        lemma_shift_bits(s.cpu.p, value, v >= 128, false);
        crate::step_laws::lemma_bus_write_kept(s.with_cpu(self.execute_spec(0x06).0.cpu), addr, value);
        crate::step_laws::lemma_bus_write_kept(s.with_cpu(crate::cpu::shifted_spec(s.cpu, value, v >= 128)), addr, value);
    }

    /// ASL shifts the byte left; bit 7 goes to the carry, read from and written back to the zero page,X address (opcode
    /// 0x16).
    pub proof fn lemma_op_16(self)
        ensures
            ({
                let (r, cycles) = self.execute_spec(0x16);
                let (t, addr) = self.zpx_spec();
                let (s, v) = t.bus_read(addr);
                let value = ((v as int * 2) % 256) as u8;
                &&& cycles == 6
                &&& r == s.with_cpu(r.cpu).bus_write(addr, value)
                &&& mem_shift_flags(s.cpu, value, v >= 128, r.cpu)
            }),
    {
        assert(self.execute_spec(0x16) == self.row_1_spec(0x16)) by {
            reveal(NesEmulator::execute_spec);
        }
        reveal(NesEmulator::rmw_spec);
        let (t, addr) = self.zpx_spec();
        let (s, v) = t.bus_read(addr);
        let value = ((v as int * 2) % 256) as u8;
        lemma_shift_bits(s.cpu.p, value, v >= 128, false);
        crate::step_laws::lemma_bus_write_kept(s.with_cpu(self.execute_spec(0x16).0.cpu), addr, value);
        crate::step_laws::lemma_bus_write_kept(s.with_cpu(crate::cpu::shifted_spec(s.cpu, value, v >= 128)), addr, value);
    }

    /// ASL shifts the byte left; bit 7 goes to the carry, read from and written back to the absolute address (opcode
    /// 0x0e).
    pub proof fn lemma_op_0e(self)
        ensures
            ({
                let (r, cycles) = self.execute_spec(0x0e);
                let (t, addr) = self.fetch_u16_spec();
                let (s, v) = t.bus_read(addr);
                let value = ((v as int * 2) % 256) as u8;
                &&& cycles == 6
                &&& r == s.with_cpu(r.cpu).bus_write(addr, value)
                &&& mem_shift_flags(s.cpu, value, v >= 128, r.cpu)
            }),
    {
        assert(self.execute_spec(0x0e) == self.row_0_spec(0x0e)) by {
            reveal(NesEmulator::execute_spec);
        }
        reveal(NesEmulator::rmw_spec);
        let (t, addr) = self.fetch_u16_spec();
        let (s, v) = t.bus_read(addr);
        let value = ((v as int * 2) % 256) as u8;
        lemma_shift_bits(s.cpu.p, value, v >= 128, false);
        crate::step_laws::lemma_bus_write_kept(s.with_cpu(self.execute_spec(0x0e).0.cpu), addr, value);
        crate::step_laws::lemma_bus_write_kept(s.with_cpu(crate::cpu::shifted_spec(s.cpu, value, v >= 128)), addr, value);
    }

    /// ASL shifts the byte left; bit 7 goes to the carry, read from and written back to the absolute,X address (opcode
    /// 0x1e).
    pub proof fn lemma_op_1e(self)
        ensures
            ({
                let (r, cycles) = self.execute_spec(0x1e);
                let (t, addr) = (self.absx_spec().0, self.absx_spec().1);
                let (s, v) = t.bus_read(addr);
                let value = ((v as int * 2) % 256) as u8;
                &&& cycles == 7
                &&& r == s.with_cpu(r.cpu).bus_write(addr, value)
                &&& mem_shift_flags(s.cpu, value, v >= 128, r.cpu)
            }),
    {
        assert(self.execute_spec(0x1e) == self.row_1_spec(0x1e)) by {
            reveal(NesEmulator::execute_spec);
        }
        reveal(NesEmulator::rmw_spec);
        let (t, addr) = (self.absx_spec().0, self.absx_spec().1);
        let (s, v) = t.bus_read(addr);
        let value = ((v as int * 2) % 256) as u8;
        lemma_shift_bits(s.cpu.p, value, v >= 128, false);
        crate::step_laws::lemma_bus_write_kept(s.with_cpu(self.execute_spec(0x1e).0.cpu), addr, value);
        crate::step_laws::lemma_bus_write_kept(s.with_cpu(crate::cpu::shifted_spec(s.cpu, value, v >= 128)), addr, value);
    }

    /// ROL rotates the byte left through the carry, read from and written back to the zero page address (opcode
    /// 0x26).
    pub proof fn lemma_op_26(self)
        ensures
            ({
                let (r, cycles) = self.execute_spec(0x26);
                let (t, addr) = self.zp_spec();
                let (s, v) = t.bus_read(addr);
                let value = ((v as int * 2 + carry_in(s.cpu.p)) % 256) as u8;
                &&& cycles == 5
                &&& r == s.with_cpu(r.cpu).bus_write(addr, value)
                &&& mem_shift_flags(s.cpu, value, v >= 128, r.cpu)
            }),
    {
        assert(self.execute_spec(0x26) == self.row_2_spec(0x26)) by {
            reveal(NesEmulator::execute_spec);
        }
        reveal(NesEmulator::rmw_spec);
        let (t, addr) = self.zp_spec();
        let (s, v) = t.bus_read(addr);
        let value = ((v as int * 2 + carry_in(s.cpu.p)) % 256) as u8;
        lemma_shift_bits(s.cpu.p, value, v >= 128, false);
        crate::step_laws::lemma_bus_write_kept(s.with_cpu(self.execute_spec(0x26).0.cpu), addr, value);
        crate::step_laws::lemma_bus_write_kept(s.with_cpu(crate::cpu::shifted_spec(s.cpu, value, v >= 128)), addr, value);
    }

    /// ROL rotates the byte left through the carry, read from and written back to the zero page,X address (opcode
    /// 0x36).
    pub proof fn lemma_op_36(self)
        ensures
            ({
                let (r, cycles) = self.execute_spec(0x36);
                let (t, addr) = self.zpx_spec();
                let (s, v) = t.bus_read(addr);
                let value = ((v as int * 2 + carry_in(s.cpu.p)) % 256) as u8;
                &&& cycles == 6
                &&& r == s.with_cpu(r.cpu).bus_write(addr, value)
                &&& mem_shift_flags(s.cpu, value, v >= 128, r.cpu)
            }),
    {
        assert(self.execute_spec(0x36) == self.row_3_spec(0x36)) by {
            reveal(NesEmulator::execute_spec);
        }
        reveal(NesEmulator::rmw_spec);
        let (t, addr) = self.zpx_spec();
        let (s, v) = t.bus_read(addr);
        let value = ((v as int * 2 + carry_in(s.cpu.p)) % 256) as u8;
        lemma_shift_bits(s.cpu.p, value, v >= 128, false);
        crate::step_laws::lemma_bus_write_kept(s.with_cpu(self.execute_spec(0x36).0.cpu), addr, value);
        crate::step_laws::lemma_bus_write_kept(s.with_cpu(crate::cpu::shifted_spec(s.cpu, value, v >= 128)), addr, value);
    }

    /// ROL rotates the byte left through the carry, read from and written back to the absolute address (opcode
    /// 0x2e).
    pub proof fn lemma_op_2e(self)
        ensures
            ({
                let (r, cycles) = self.execute_spec(0x2e);
                let (t, addr) = self.fetch_u16_spec();
                let (s, v) = t.bus_read(addr);
                let value = ((v as int * 2 + carry_in(s.cpu.p)) % 256) as u8;
                &&& cycles == 6
                &&& r == s.with_cpu(r.cpu).bus_write(addr, value)
                &&& mem_shift_flags(s.cpu, value, v >= 128, r.cpu)
            }),
    {
        assert(self.execute_spec(0x2e) == self.row_2_spec(0x2e)) by {
            reveal(NesEmulator::execute_spec);
        }
        reveal(NesEmulator::rmw_spec);
        let (t, addr) = self.fetch_u16_spec();
        let (s, v) = t.bus_read(addr);
        let value = ((v as int * 2 + carry_in(s.cpu.p)) % 256) as u8;
        lemma_shift_bits(s.cpu.p, value, v >= 128, false);
        crate::step_laws::lemma_bus_write_kept(s.with_cpu(self.execute_spec(0x2e).0.cpu), addr, value);
        crate::step_laws::lemma_bus_write_kept(s.with_cpu(crate::cpu::shifted_spec(s.cpu, value, v >= 128)), addr, value);
    }

    /// ROL rotates the byte left through the carry, read from and written back to the absolute,X address (opcode
    /// 0x3e).
    pub proof fn lemma_op_3e(self)
        ensures
            ({
                let (r, cycles) = self.execute_spec(0x3e);
                let (t, addr) = (self.absx_spec().0, self.absx_spec().1);
                let (s, v) = t.bus_read(addr);
                let value = ((v as int * 2 + carry_in(s.cpu.p)) % 256) as u8;
                &&& cycles == 7
                &&& r == s.with_cpu(r.cpu).bus_write(addr, value)
                &&& mem_shift_flags(s.cpu, value, v >= 128, r.cpu)
            }),
    {
        assert(self.execute_spec(0x3e) == self.row_3_spec(0x3e)) by {
            reveal(NesEmulator::execute_spec);
        }
        reveal(NesEmulator::rmw_spec);
        let (t, addr) = (self.absx_spec().0, self.absx_spec().1);
        let (s, v) = t.bus_read(addr);
        let value = ((v as int * 2 + carry_in(s.cpu.p)) % 256) as u8;
        lemma_shift_bits(s.cpu.p, value, v >= 128, false);
        crate::step_laws::lemma_bus_write_kept(s.with_cpu(self.execute_spec(0x3e).0.cpu), addr, value);
        crate::step_laws::lemma_bus_write_kept(s.with_cpu(crate::cpu::shifted_spec(s.cpu, value, v >= 128)), addr, value);
    }

    /// LSR shifts the byte right; bit 0 goes to the carry, read from and written back to the zero page address (opcode
    /// 0x46).
    pub proof fn lemma_op_46(self)
        ensures
            ({
                let (r, cycles) = self.execute_spec(0x46);
                let (t, addr) = self.zp_spec();
                let (s, v) = t.bus_read(addr);
                let value = v / 2;
                &&& cycles == 5
                &&& r == s.with_cpu(r.cpu).bus_write(addr, value)
                &&& mem_shift_flags(s.cpu, value, v % 2 == 1, r.cpu)
            }),
    {
        assert(self.execute_spec(0x46) == self.row_4_spec(0x46)) by {
            reveal(NesEmulator::execute_spec);
        }
        reveal(NesEmulator::rmw_spec);
        let (t, addr) = self.zp_spec();
        let (s, v) = t.bus_read(addr);
        let value = v / 2;
        lemma_shift_bits(s.cpu.p, value, v % 2 == 1, false);
        crate::step_laws::lemma_bus_write_kept(s.with_cpu(self.execute_spec(0x46).0.cpu), addr, value);
        crate::step_laws::lemma_bus_write_kept(s.with_cpu(crate::cpu::lsr_spec(s.cpu, v)), addr, value);
    }

    /// LSR shifts the byte right; bit 0 goes to the carry, read from and written back to the zero page,X address (opcode
    /// 0x56).
    pub proof fn lemma_op_56(self)
        ensures
            ({
                let (r, cycles) = self.execute_spec(0x56);
                let (t, addr) = self.zpx_spec();
                let (s, v) = t.bus_read(addr);
                let value = v / 2;
                &&& cycles == 6
                &&& r == s.with_cpu(r.cpu).bus_write(addr, value)
                &&& mem_shift_flags(s.cpu, value, v % 2 == 1, r.cpu)
            }),
    {
        assert(self.execute_spec(0x56) == self.row_5_spec(0x56)) by {
            reveal(NesEmulator::execute_spec);
        }
        reveal(NesEmulator::rmw_spec);
        let (t, addr) = self.zpx_spec();
        let (s, v) = t.bus_read(addr);
        let value = v / 2;
        lemma_shift_bits(s.cpu.p, value, v % 2 == 1, false);
        crate::step_laws::lemma_bus_write_kept(s.with_cpu(self.execute_spec(0x56).0.cpu), addr, value);
        crate::step_laws::lemma_bus_write_kept(s.with_cpu(crate::cpu::lsr_spec(s.cpu, v)), addr, value);
    }

    /// LSR shifts the byte right; bit 0 goes to the carry, read from and written back to the absolute address (opcode
    /// 0x4e).
    pub proof fn lemma_op_4e(self)
        ensures
            ({
                let (r, cycles) = self.execute_spec(0x4e);
                let (t, addr) = self.fetch_u16_spec();
                let (s, v) = t.bus_read(addr);
                let value = v / 2;
                &&& cycles == 6
                &&& r == s.with_cpu(r.cpu).bus_write(addr, value)
                &&& mem_shift_flags(s.cpu, value, v % 2 == 1, r.cpu)
            }),
    {
        assert(self.execute_spec(0x4e) == self.row_4_spec(0x4e)) by {
            reveal(NesEmulator::execute_spec);
        }
        reveal(NesEmulator::rmw_spec);
        let (t, addr) = self.fetch_u16_spec();
        let (s, v) = t.bus_read(addr);
        let value = v / 2;
        lemma_shift_bits(s.cpu.p, value, v % 2 == 1, false);
        crate::step_laws::lemma_bus_write_kept(s.with_cpu(self.execute_spec(0x4e).0.cpu), addr, value);
        crate::step_laws::lemma_bus_write_kept(s.with_cpu(crate::cpu::lsr_spec(s.cpu, v)), addr, value);
    }

    /// LSR shifts the byte right; bit 0 goes to the carry, read from and written back to the absolute,X address (opcode
    /// 0x5e).
    pub proof fn lemma_op_5e(self)
        ensures
            ({
                let (r, cycles) = self.execute_spec(0x5e);
                let (t, addr) = (self.absx_spec().0, self.absx_spec().1);
                let (s, v) = t.bus_read(addr);
                let value = v / 2;
                &&& cycles == 7
                &&& r == s.with_cpu(r.cpu).bus_write(addr, value)
                &&& mem_shift_flags(s.cpu, value, v % 2 == 1, r.cpu)
            }),
    {
        assert(self.execute_spec(0x5e) == self.row_5_spec(0x5e)) by {
            reveal(NesEmulator::execute_spec);
        }
        reveal(NesEmulator::rmw_spec);
        let (t, addr) = (self.absx_spec().0, self.absx_spec().1);
        let (s, v) = t.bus_read(addr);
        let value = v / 2;
        lemma_shift_bits(s.cpu.p, value, v % 2 == 1, false);
        crate::step_laws::lemma_bus_write_kept(s.with_cpu(self.execute_spec(0x5e).0.cpu), addr, value);
        crate::step_laws::lemma_bus_write_kept(s.with_cpu(crate::cpu::lsr_spec(s.cpu, v)), addr, value);
    }

    /// ROR rotates the byte right through the carry, read from and written back to the zero page address (opcode
    /// 0x66).
    pub proof fn lemma_op_66(self)
        ensures
            ({
                let (r, cycles) = self.execute_spec(0x66);
                let (t, addr) = self.zp_spec();
                let (s, v) = t.bus_read(addr);
                let value = (v / 2 + 128 * carry_in(s.cpu.p)) as u8;
                &&& cycles == 5
                &&& r == s.with_cpu(r.cpu).bus_write(addr, value)
                &&& mem_shift_flags(s.cpu, value, v % 2 == 1, r.cpu)
            }),
    {
        assert(self.execute_spec(0x66) == self.row_6_spec(0x66)) by {
            reveal(NesEmulator::execute_spec);
        }
        reveal(NesEmulator::rmw_spec);
        let (t, addr) = self.zp_spec();
        let (s, v) = t.bus_read(addr);
        let value = (v / 2 + 128 * carry_in(s.cpu.p)) as u8;
        lemma_shift_bits(s.cpu.p, value, v % 2 == 1, false);
        crate::step_laws::lemma_bus_write_kept(s.with_cpu(self.execute_spec(0x66).0.cpu), addr, value);
        crate::step_laws::lemma_bus_write_kept(s.with_cpu(crate::cpu::shifted_spec(s.cpu, value, v % 2 == 1)), addr, value);
    }

    /// ROR rotates the byte right through the carry, read from and written back to the zero page,X address (opcode
    /// 0x76).
    pub proof fn lemma_op_76(self)
        ensures
            ({
                let (r, cycles) = self.execute_spec(0x76);
                let (t, addr) = self.zpx_spec();
                let (s, v) = t.bus_read(addr);
                let value = (v / 2 + 128 * carry_in(s.cpu.p)) as u8;
                &&& cycles == 6
                &&& r == s.with_cpu(r.cpu).bus_write(addr, value)
                &&& mem_shift_flags(s.cpu, value, v % 2 == 1, r.cpu)
            }),
    {
        assert(self.execute_spec(0x76) == self.row_7_spec(0x76)) by {
            reveal(NesEmulator::execute_spec);
        }
        reveal(NesEmulator::rmw_spec);
        let (t, addr) = self.zpx_spec();
        let (s, v) = t.bus_read(addr);
        let value = (v / 2 + 128 * carry_in(s.cpu.p)) as u8;
        lemma_shift_bits(s.cpu.p, value, v % 2 == 1, false);
        crate::step_laws::lemma_bus_write_kept(s.with_cpu(self.execute_spec(0x76).0.cpu), addr, value);
        crate::step_laws::lemma_bus_write_kept(s.with_cpu(crate::cpu::shifted_spec(s.cpu, value, v % 2 == 1)), addr, value);
    }

    /// ROR rotates the byte right through the carry, read from and written back to the absolute address (opcode
    /// 0x6e).
    pub proof fn lemma_op_6e(self)
        ensures
            ({
                let (r, cycles) = self.execute_spec(0x6e);
                let (t, addr) = self.fetch_u16_spec();
                let (s, v) = t.bus_read(addr);
                let value = (v / 2 + 128 * carry_in(s.cpu.p)) as u8;
                &&& cycles == 6
                &&& r == s.with_cpu(r.cpu).bus_write(addr, value)
                &&& mem_shift_flags(s.cpu, value, v % 2 == 1, r.cpu)
            }),
    {
        assert(self.execute_spec(0x6e) == self.row_6_spec(0x6e)) by {
            reveal(NesEmulator::execute_spec);
        }
        reveal(NesEmulator::rmw_spec);
        let (t, addr) = self.fetch_u16_spec();
        let (s, v) = t.bus_read(addr);
        let value = (v / 2 + 128 * carry_in(s.cpu.p)) as u8;
        lemma_shift_bits(s.cpu.p, value, v % 2 == 1, false);
        crate::step_laws::lemma_bus_write_kept(s.with_cpu(self.execute_spec(0x6e).0.cpu), addr, value);
        crate::step_laws::lemma_bus_write_kept(s.with_cpu(crate::cpu::shifted_spec(s.cpu, value, v % 2 == 1)), addr, value);
    }

    /// ROR rotates the byte right through the carry, read from and written back to the absolute,X address (opcode
    /// 0x7e).
    pub proof fn lemma_op_7e(self)
        ensures
            ({
                let (r, cycles) = self.execute_spec(0x7e);
                let (t, addr) = (self.absx_spec().0, self.absx_spec().1);
                let (s, v) = t.bus_read(addr);
                let value = (v / 2 + 128 * carry_in(s.cpu.p)) as u8;
                &&& cycles == 7
                &&& r == s.with_cpu(r.cpu).bus_write(addr, value)
                &&& mem_shift_flags(s.cpu, value, v % 2 == 1, r.cpu)
            }),
    {
        assert(self.execute_spec(0x7e) == self.row_7_spec(0x7e)) by {
            reveal(NesEmulator::execute_spec);
        }
        reveal(NesEmulator::rmw_spec);
        let (t, addr) = (self.absx_spec().0, self.absx_spec().1);
        let (s, v) = t.bus_read(addr);
        let value = (v / 2 + 128 * carry_in(s.cpu.p)) as u8;
        lemma_shift_bits(s.cpu.p, value, v % 2 == 1, false);
        crate::step_laws::lemma_bus_write_kept(s.with_cpu(self.execute_spec(0x7e).0.cpu), addr, value);
        crate::step_laws::lemma_bus_write_kept(s.with_cpu(crate::cpu::shifted_spec(s.cpu, value, v % 2 == 1)), addr, value);
    }

    /// INC adds one to the byte (wrapping) at the zero page address, with Z and N from the new byte
    /// (opcode 0xe6).
    pub proof fn lemma_op_e6(self)
        ensures
            ({
                let (r, cycles) = self.execute_spec(0xe6);
                let (t, addr) = self.zp_spec();
                let (s, v) = t.bus_read(addr);
                let value = ((v as int + 1) % 256) as u8;
                let w = s.bus_write(addr, value);
                &&& cycles == 5
                &&& r == w.with_cpu(Cpu { p: r.cpu.p, ..w.cpu })
                &&& nz_result(w.cpu.p, r.cpu.p, value)
            }),
    {
        assert(self.execute_spec(0xe6) == self.row_e_spec(0xe6)) by {
            reveal(NesEmulator::execute_spec);
        }
        reveal(NesEmulator::step_mem_spec);
        reveal(NesEmulator::set_zn_spec);
        let (t, addr) = self.zp_spec();
        let (s, v) = t.bus_read(addr);
        let value = ((v as int + 1) % 256) as u8;
        lemma_zn_flags(s.bus_write(addr, value).cpu.p, value);
    }

    /// INC adds one to the byte (wrapping) at the zero page,X address, with Z and N from the new byte
    /// (opcode 0xf6).
    pub proof fn lemma_op_f6(self)
        ensures
            ({
                let (r, cycles) = self.execute_spec(0xf6);
                let (t, addr) = self.zpx_spec();
                let (s, v) = t.bus_read(addr);
                let value = ((v as int + 1) % 256) as u8;
                let w = s.bus_write(addr, value);
                &&& cycles == 6
                &&& r == w.with_cpu(Cpu { p: r.cpu.p, ..w.cpu })
                &&& nz_result(w.cpu.p, r.cpu.p, value)
            }),
    {
        assert(self.execute_spec(0xf6) == self.row_f_spec(0xf6)) by {
            reveal(NesEmulator::execute_spec);
        }
        reveal(NesEmulator::step_mem_spec);
        reveal(NesEmulator::set_zn_spec);
        let (t, addr) = self.zpx_spec();
        let (s, v) = t.bus_read(addr);
        let value = ((v as int + 1) % 256) as u8;
        lemma_zn_flags(s.bus_write(addr, value).cpu.p, value);
    }

    /// INC adds one to the byte (wrapping) at the absolute address, with Z and N from the new byte
    /// (opcode 0xee).
    pub proof fn lemma_op_ee(self)
        ensures
            ({
                let (r, cycles) = self.execute_spec(0xee);
                let (t, addr) = self.fetch_u16_spec();
                let (s, v) = t.bus_read(addr);
                let value = ((v as int + 1) % 256) as u8;
                let w = s.bus_write(addr, value);
                &&& cycles == 6
                &&& r == w.with_cpu(Cpu { p: r.cpu.p, ..w.cpu })
                &&& nz_result(w.cpu.p, r.cpu.p, value)
            }),
    {
        assert(self.execute_spec(0xee) == self.row_e_spec(0xee)) by {
            reveal(NesEmulator::execute_spec);
        }
        reveal(NesEmulator::step_mem_spec);
        reveal(NesEmulator::set_zn_spec);
        let (t, addr) = self.fetch_u16_spec();
        let (s, v) = t.bus_read(addr);
        let value = ((v as int + 1) % 256) as u8;
        lemma_zn_flags(s.bus_write(addr, value).cpu.p, value);
    }

    /// INC adds one to the byte (wrapping) at the absolute,X address, with Z and N from the new byte
    /// (opcode 0xfe).
    pub proof fn lemma_op_fe(self)
        ensures
            ({
                let (r, cycles) = self.execute_spec(0xfe);
                let (t, addr) = (self.absx_spec().0, self.absx_spec().1);
                let (s, v) = t.bus_read(addr);
                let value = ((v as int + 1) % 256) as u8;
                let w = s.bus_write(addr, value);
                &&& cycles == 7
                &&& r == w.with_cpu(Cpu { p: r.cpu.p, ..w.cpu })
                &&& nz_result(w.cpu.p, r.cpu.p, value)
            }),
    {
        assert(self.execute_spec(0xfe) == self.row_f_spec(0xfe)) by {
            reveal(NesEmulator::execute_spec);
        }
        reveal(NesEmulator::step_mem_spec);
        reveal(NesEmulator::set_zn_spec);
        let (t, addr) = (self.absx_spec().0, self.absx_spec().1);
        let (s, v) = t.bus_read(addr);
        let value = ((v as int + 1) % 256) as u8;
        lemma_zn_flags(s.bus_write(addr, value).cpu.p, value);
    }

    /// DEC subtracts one from the byte (wrapping) at the zero page address, with Z and N from the new byte
    /// (opcode 0xc6).
    pub proof fn lemma_op_c6(self)
        ensures
            ({
                let (r, cycles) = self.execute_spec(0xc6);
                let (t, addr) = self.zp_spec();
                let (s, v) = t.bus_read(addr);
                let value = ((v as int + -1) % 256) as u8;
                let w = s.bus_write(addr, value);
                &&& cycles == 5
                &&& r == w.with_cpu(Cpu { p: r.cpu.p, ..w.cpu })
                &&& nz_result(w.cpu.p, r.cpu.p, value)
            }),
    {
        assert(self.execute_spec(0xc6) == self.row_c_spec(0xc6)) by {
            reveal(NesEmulator::execute_spec);
        }
        reveal(NesEmulator::step_mem_spec);
        reveal(NesEmulator::set_zn_spec);
        let (t, addr) = self.zp_spec();
        let (s, v) = t.bus_read(addr);
        let value = ((v as int + -1) % 256) as u8;
        lemma_zn_flags(s.bus_write(addr, value).cpu.p, value);
    }

    /// DEC subtracts one from the byte (wrapping) at the zero page,X address, with Z and N from the new byte
    /// (opcode 0xd6).
    pub proof fn lemma_op_d6(self)
        ensures
            ({
                let (r, cycles) = self.execute_spec(0xd6);
                let (t, addr) = self.zpx_spec();
                let (s, v) = t.bus_read(addr);
                let value = ((v as int + -1) % 256) as u8;
                let w = s.bus_write(addr, value);
                &&& cycles == 6
                &&& r == w.with_cpu(Cpu { p: r.cpu.p, ..w.cpu })
                &&& nz_result(w.cpu.p, r.cpu.p, value)
            }),
    {
        assert(self.execute_spec(0xd6) == self.row_d_spec(0xd6)) by {
            reveal(NesEmulator::execute_spec);
        }
        reveal(NesEmulator::step_mem_spec);
        reveal(NesEmulator::set_zn_spec);
        let (t, addr) = self.zpx_spec();
        let (s, v) = t.bus_read(addr);
        let value = ((v as int + -1) % 256) as u8;
        lemma_zn_flags(s.bus_write(addr, value).cpu.p, value);
    }

    /// DEC subtracts one from the byte (wrapping) at the absolute address, with Z and N from the new byte
    /// (opcode 0xce).
    pub proof fn lemma_op_ce(self)
        ensures
            ({
                let (r, cycles) = self.execute_spec(0xce);
                let (t, addr) = self.fetch_u16_spec();
                let (s, v) = t.bus_read(addr);
                let value = ((v as int + -1) % 256) as u8;
                let w = s.bus_write(addr, value);
                &&& cycles == 6
                &&& r == w.with_cpu(Cpu { p: r.cpu.p, ..w.cpu })
                &&& nz_result(w.cpu.p, r.cpu.p, value)
            }),
    {
        assert(self.execute_spec(0xce) == self.row_c_spec(0xce)) by {
            reveal(NesEmulator::execute_spec);
        }
        reveal(NesEmulator::step_mem_spec);
        reveal(NesEmulator::set_zn_spec);
        let (t, addr) = self.fetch_u16_spec();
        let (s, v) = t.bus_read(addr);
        let value = ((v as int + -1) % 256) as u8;
        lemma_zn_flags(s.bus_write(addr, value).cpu.p, value);
    }

    /// DEC subtracts one from the byte (wrapping) at the absolute,X address, with Z and N from the new byte
    /// (opcode 0xde).
    pub proof fn lemma_op_de(self)
        ensures
            ({
                let (r, cycles) = self.execute_spec(0xde);
                let (t, addr) = (self.absx_spec().0, self.absx_spec().1);
                let (s, v) = t.bus_read(addr);
                let value = ((v as int + -1) % 256) as u8;
                let w = s.bus_write(addr, value);
                &&& cycles == 7
                &&& r == w.with_cpu(Cpu { p: r.cpu.p, ..w.cpu })
                &&& nz_result(w.cpu.p, r.cpu.p, value)
            }),
    {
        assert(self.execute_spec(0xde) == self.row_d_spec(0xde)) by {
            reveal(NesEmulator::execute_spec);
        }
        reveal(NesEmulator::step_mem_spec);
        reveal(NesEmulator::set_zn_spec);
        let (t, addr) = (self.absx_spec().0, self.absx_spec().1);
        let (s, v) = t.bus_read(addr);
        let value = ((v as int + -1) % 256) as u8;
        lemma_zn_flags(s.bus_write(addr, value).cpu.p, value);
    }

    /// LDX loads X from the immediate operand, with Z and N from it (opcode
    /// 0xa2).
    pub proof fn lemma_op_a2(self)
        ensures
            ({
                let (r, cycles) = self.execute_spec(0xa2);
                let (s, v) = self.fetch_spec();
                &&& cycles == 2
                &&& r == s.with_cpu(Cpu { x: v, p: r.cpu.p, ..s.cpu })
                &&& nz_result(s.cpu.p, r.cpu.p, v)
            }),
    {
        assert(self.execute_spec(0xa2) == self.row_a_spec(0xa2)) by {
            reveal(NesEmulator::execute_spec);
        }
        reveal(NesEmulator::set_zn_spec);
        let (s, v) = self.fetch_spec();
        lemma_zn_flags(s.cpu.p, v);
    }

    /// LDX loads X from the zero page operand, with Z and N from it (opcode
    /// 0xa6).
    pub proof fn lemma_op_a6(self)
        ensures
            ({
                let (r, cycles) = self.execute_spec(0xa6);
                let (t, addr) = self.zp_spec();
                let (s, v) = t.bus_read(addr);
                &&& cycles == 3
                &&& r == s.with_cpu(Cpu { x: v, p: r.cpu.p, ..s.cpu })
                &&& nz_result(s.cpu.p, r.cpu.p, v)
            }),
    {
        assert(self.execute_spec(0xa6) == self.row_a_spec(0xa6)) by {
            reveal(NesEmulator::execute_spec);
        }
        reveal(NesEmulator::set_zn_spec);
        let (t, addr) = self.zp_spec();
        let (s, v) = t.bus_read(addr);
        lemma_zn_flags(s.cpu.p, v);
    }

    /// LDX loads X from the zero page,Y operand, with Z and N from it (opcode
    /// 0xb6).
    pub proof fn lemma_op_b6(self)
        ensures
            ({
                let (r, cycles) = self.execute_spec(0xb6);
                let (t, addr) = self.zpy_spec();
                let (s, v) = t.bus_read(addr);
                &&& cycles == 4
                &&& r == s.with_cpu(Cpu { x: v, p: r.cpu.p, ..s.cpu })
                &&& nz_result(s.cpu.p, r.cpu.p, v)
            }),
    {
        assert(self.execute_spec(0xb6) == self.row_b_spec(0xb6)) by {
            reveal(NesEmulator::execute_spec);
        }
        reveal(NesEmulator::set_zn_spec);
        let (t, addr) = self.zpy_spec();
        let (s, v) = t.bus_read(addr);
        lemma_zn_flags(s.cpu.p, v);
    }

    /// LDX loads X from the absolute operand, with Z and N from it (opcode
    /// 0xae).
    pub proof fn lemma_op_ae(self)
        ensures
            ({
                let (r, cycles) = self.execute_spec(0xae);
                let (t, addr) = self.fetch_u16_spec();
                let (s, v) = t.bus_read(addr);
                &&& cycles == 4
                &&& r == s.with_cpu(Cpu { x: v, p: r.cpu.p, ..s.cpu })
                &&& nz_result(s.cpu.p, r.cpu.p, v)
            }),
    {
        assert(self.execute_spec(0xae) == self.row_a_spec(0xae)) by {
            reveal(NesEmulator::execute_spec);
        }
        reveal(NesEmulator::set_zn_spec);
        let (t, addr) = self.fetch_u16_spec();
        let (s, v) = t.bus_read(addr);
        lemma_zn_flags(s.cpu.p, v);
    }

    /// LDX loads X from the absolute,Y operand, with Z and N from it (opcode
    /// 0xbe).
    pub proof fn lemma_op_be(self)
        ensures
            ({
                let (r, cycles) = self.execute_spec(0xbe);
                let (t, addr) = (self.absy_spec().0, self.absy_spec().1);
                let (s, v) = t.bus_read(addr);
                &&& r == s.with_cpu(Cpu { x: v, p: r.cpu.p, ..s.cpu })
                &&& nz_result(s.cpu.p, r.cpu.p, v)
            }),
    {
        assert(self.execute_spec(0xbe) == self.row_b_spec(0xbe)) by {
            reveal(NesEmulator::execute_spec);
        }
        reveal(NesEmulator::set_zn_spec);
        let (t, addr) = (self.absy_spec().0, self.absy_spec().1);
        let (s, v) = t.bus_read(addr);
        lemma_zn_flags(s.cpu.p, v);
    }

    /// LDY loads Y from the immediate operand, with Z and N from it (opcode
    /// 0xa0).
    pub proof fn lemma_op_a0(self)
        ensures
            ({
                let (r, cycles) = self.execute_spec(0xa0);
                let (s, v) = self.fetch_spec();
                &&& cycles == 2
                &&& r == s.with_cpu(Cpu { y: v, p: r.cpu.p, ..s.cpu })
                &&& nz_result(s.cpu.p, r.cpu.p, v)
            }),
    {
        assert(self.execute_spec(0xa0) == self.row_a_spec(0xa0)) by {
            reveal(NesEmulator::execute_spec);
        }
        reveal(NesEmulator::set_zn_spec);
        let (s, v) = self.fetch_spec();
        lemma_zn_flags(s.cpu.p, v);
    }

    /// LDY loads Y from the zero page operand, with Z and N from it (opcode
    /// 0xa4).
    pub proof fn lemma_op_a4(self)
        ensures
            ({
                let (r, cycles) = self.execute_spec(0xa4);
                let (t, addr) = self.zp_spec();
                let (s, v) = t.bus_read(addr);
                &&& cycles == 3
                &&& r == s.with_cpu(Cpu { y: v, p: r.cpu.p, ..s.cpu })
                &&& nz_result(s.cpu.p, r.cpu.p, v)
            }),
    {
        assert(self.execute_spec(0xa4) == self.row_a_spec(0xa4)) by {
            reveal(NesEmulator::execute_spec);
        }
        reveal(NesEmulator::set_zn_spec);
        let (t, addr) = self.zp_spec();
        let (s, v) = t.bus_read(addr);
        lemma_zn_flags(s.cpu.p, v);
    }

    /// LDY loads Y from the zero page,X operand, with Z and N from it (opcode
    /// 0xb4).
    pub proof fn lemma_op_b4(self)
        ensures
            ({
                let (r, cycles) = self.execute_spec(0xb4);
                let (t, addr) = self.zpx_spec();
                let (s, v) = t.bus_read(addr);
                &&& cycles == 4
                &&& r == s.with_cpu(Cpu { y: v, p: r.cpu.p, ..s.cpu })
                &&& nz_result(s.cpu.p, r.cpu.p, v)
            }),
    {
        assert(self.execute_spec(0xb4) == self.row_b_spec(0xb4)) by {
            reveal(NesEmulator::execute_spec);
        }
        reveal(NesEmulator::set_zn_spec);
        let (t, addr) = self.zpx_spec();
        let (s, v) = t.bus_read(addr);
        lemma_zn_flags(s.cpu.p, v);
    }

    /// LDY loads Y from the absolute operand, with Z and N from it (opcode
    /// 0xac).
    pub proof fn lemma_op_ac(self)
        ensures
            ({
                let (r, cycles) = self.execute_spec(0xac);
                let (t, addr) = self.fetch_u16_spec();
                let (s, v) = t.bus_read(addr);
                &&& cycles == 4
                &&& r == s.with_cpu(Cpu { y: v, p: r.cpu.p, ..s.cpu })
                &&& nz_result(s.cpu.p, r.cpu.p, v)
            }),
    {
        assert(self.execute_spec(0xac) == self.row_a_spec(0xac)) by {
            reveal(NesEmulator::execute_spec);
        }
        reveal(NesEmulator::set_zn_spec);
        let (t, addr) = self.fetch_u16_spec();
        let (s, v) = t.bus_read(addr);
        lemma_zn_flags(s.cpu.p, v);
    }

    /// LDY loads Y from the absolute,X operand, with Z and N from it (opcode
    /// 0xbc).
    pub proof fn lemma_op_bc(self)
        ensures
            ({
                let (r, cycles) = self.execute_spec(0xbc);
                let (t, addr) = (self.absx_spec().0, self.absx_spec().1);
                let (s, v) = t.bus_read(addr);
                &&& r == s.with_cpu(Cpu { y: v, p: r.cpu.p, ..s.cpu })
                &&& nz_result(s.cpu.p, r.cpu.p, v)
            }),
    {
        assert(self.execute_spec(0xbc) == self.row_b_spec(0xbc)) by {
            reveal(NesEmulator::execute_spec);
        }
        reveal(NesEmulator::set_zn_spec);
        let (t, addr) = (self.absx_spec().0, self.absx_spec().1);
        let (s, v) = t.bus_read(addr);
        lemma_zn_flags(s.cpu.p, v);
    }

    /// STX writes X to the zero page address and changes nothing else (opcode
    /// 0x86).
    pub proof fn lemma_op_86(self)
        ensures
            ({
                let (t, addr) = self.zp_spec();
                self.execute_spec(0x86) == (t.bus_write(addr, t.cpu.x), 3u16)
            }),
    {
        assert(self.execute_spec(0x86) == self.row_8_spec(0x86)) by {
            reveal(NesEmulator::execute_spec);
        }
    }

    /// STX writes X to the zero page,Y address and changes nothing else (opcode
    /// 0x96).
    pub proof fn lemma_op_96(self)
        ensures
            ({
                let (t, addr) = self.zpy_spec();
                self.execute_spec(0x96) == (t.bus_write(addr, t.cpu.x), 4u16)
            }),
    {
        assert(self.execute_spec(0x96) == self.row_9_spec(0x96)) by {
            reveal(NesEmulator::execute_spec);
        }
    }

    /// STX writes X to the absolute address and changes nothing else (opcode
    /// 0x8e).
    pub proof fn lemma_op_8e(self)
        ensures
            ({
                let (t, addr) = self.fetch_u16_spec();
                self.execute_spec(0x8e) == (t.bus_write(addr, t.cpu.x), 4u16)
            }),
    {
        assert(self.execute_spec(0x8e) == self.row_8_spec(0x8e)) by {
            reveal(NesEmulator::execute_spec);
        }
    }

    /// STY writes Y to the zero page address and changes nothing else (opcode
    /// 0x84).
    pub proof fn lemma_op_84(self)
        ensures
            ({
                let (t, addr) = self.zp_spec();
                self.execute_spec(0x84) == (t.bus_write(addr, t.cpu.y), 3u16)
            }),
    {
        assert(self.execute_spec(0x84) == self.row_8_spec(0x84)) by {
            reveal(NesEmulator::execute_spec);
        }
    }

    /// STY writes Y to the zero page,X address and changes nothing else (opcode
    /// 0x94).
    pub proof fn lemma_op_94(self)
        ensures
            ({
                let (t, addr) = self.zpx_spec();
                self.execute_spec(0x94) == (t.bus_write(addr, t.cpu.y), 4u16)
            }),
    {
        assert(self.execute_spec(0x94) == self.row_9_spec(0x94)) by {
            reveal(NesEmulator::execute_spec);
        }
    }

    /// STY writes Y to the absolute address and changes nothing else (opcode
    /// 0x8c).
    pub proof fn lemma_op_8c(self)
        ensures
            ({
                let (t, addr) = self.fetch_u16_spec();
                self.execute_spec(0x8c) == (t.bus_write(addr, t.cpu.y), 4u16)
            }),
    {
        assert(self.execute_spec(0x8c) == self.row_8_spec(0x8c)) by {
            reveal(NesEmulator::execute_spec);
        }
    }

    /// CPX compares X with the immediate operand (opcode 0xe0).
    pub proof fn lemma_op_e0(self)
        ensures
            ({
                let (r, cycles) = self.execute_spec(0xe0);
                let (s, v) = self.fetch_spec();
                &&& cycles == 2
                &&& r == s.with_cpu(r.cpu)
                &&& compare_result(s.cpu, s.cpu.x, v, r.cpu)
            }),
    {
        assert(self.execute_spec(0xe0) == self.row_e_spec(0xe0)) by {
            reveal(NesEmulator::execute_spec);
        }
        let (s, v) = self.fetch_spec();
        lemma_compare_flags(s.cpu, s.cpu.x, v);
    }

    /// CPX compares X with the zero page operand (opcode 0xe4).
    pub proof fn lemma_op_e4(self)
        ensures
            ({
                let (r, cycles) = self.execute_spec(0xe4);
                let (t, addr) = self.zp_spec();
                let (s, v) = t.bus_read(addr);
                &&& cycles == 3
                &&& r == s.with_cpu(r.cpu)
                &&& compare_result(s.cpu, s.cpu.x, v, r.cpu)
            }),
    {
        assert(self.execute_spec(0xe4) == self.row_e_spec(0xe4)) by {
            reveal(NesEmulator::execute_spec);
        }
        let (t, addr) = self.zp_spec();
        let (s, v) = t.bus_read(addr);
        lemma_compare_flags(s.cpu, s.cpu.x, v);
    }

    /// CPX compares X with the absolute operand (opcode 0xec).
    pub proof fn lemma_op_ec(self)
        ensures
            ({
                let (r, cycles) = self.execute_spec(0xec);
                let (t, addr) = self.fetch_u16_spec();
                let (s, v) = t.bus_read(addr);
                &&& cycles == 4
                &&& r == s.with_cpu(r.cpu)
                &&& compare_result(s.cpu, s.cpu.x, v, r.cpu)
            }),
    {
        assert(self.execute_spec(0xec) == self.row_e_spec(0xec)) by {
            reveal(NesEmulator::execute_spec);
        }
        let (t, addr) = self.fetch_u16_spec();
        let (s, v) = t.bus_read(addr);
        lemma_compare_flags(s.cpu, s.cpu.x, v);
    }

    /// CPY compares Y with the immediate operand (opcode 0xc0).
    pub proof fn lemma_op_c0(self)
        ensures
            ({
                let (r, cycles) = self.execute_spec(0xc0);
                let (s, v) = self.fetch_spec();
                &&& cycles == 2
                &&& r == s.with_cpu(r.cpu)
                &&& compare_result(s.cpu, s.cpu.y, v, r.cpu)
            }),
    {
        assert(self.execute_spec(0xc0) == self.row_c_spec(0xc0)) by {
            reveal(NesEmulator::execute_spec);
        }
        let (s, v) = self.fetch_spec();
        lemma_compare_flags(s.cpu, s.cpu.y, v);
    }

    /// CPY compares Y with the zero page operand (opcode 0xc4).
    pub proof fn lemma_op_c4(self)
        ensures
            ({
                let (r, cycles) = self.execute_spec(0xc4);
                let (t, addr) = self.zp_spec();
                let (s, v) = t.bus_read(addr);
                &&& cycles == 3
                &&& r == s.with_cpu(r.cpu)
                &&& compare_result(s.cpu, s.cpu.y, v, r.cpu)
            }),
    {
        assert(self.execute_spec(0xc4) == self.row_c_spec(0xc4)) by {
            reveal(NesEmulator::execute_spec);
        }
        let (t, addr) = self.zp_spec();
        let (s, v) = t.bus_read(addr);
        lemma_compare_flags(s.cpu, s.cpu.y, v);
    }

    /// CPY compares Y with the absolute operand (opcode 0xcc).
    pub proof fn lemma_op_cc(self)
        ensures
            ({
                let (r, cycles) = self.execute_spec(0xcc);
                let (t, addr) = self.fetch_u16_spec();
                let (s, v) = t.bus_read(addr);
                &&& cycles == 4
                &&& r == s.with_cpu(r.cpu)
                &&& compare_result(s.cpu, s.cpu.y, v, r.cpu)
            }),
    {
        assert(self.execute_spec(0xcc) == self.row_c_spec(0xcc)) by {
            reveal(NesEmulator::execute_spec);
        }
        let (t, addr) = self.fetch_u16_spec();
        let (s, v) = t.bus_read(addr);
        lemma_compare_flags(s.cpu, s.cpu.y, v);
    }

    /// BIT tests A against the zero page operand (opcode 0x24).
    pub proof fn lemma_op_24(self)
        ensures
            ({
                let (r, cycles) = self.execute_spec(0x24);
                let (t, addr) = self.zp_spec();
                let (s, v) = t.bus_read(addr);
                &&& cycles == 3
                &&& r == s.with_cpu(r.cpu)
                &&& bit_result(s.cpu, v, r.cpu)
            }),
    {
        assert(self.execute_spec(0x24) == self.row_2_spec(0x24)) by {
            reveal(NesEmulator::execute_spec);
        }
        let (t, addr) = self.zp_spec();
        let (s, v) = t.bus_read(addr);
        lemma_bit_flags(s.cpu.p, s.cpu.a & v == 0, v & 0x40 != 0, v & 0x80 != 0);
    }

    /// BIT tests A against the absolute operand (opcode 0x2c).
    pub proof fn lemma_op_2c(self)
        ensures
            ({
                let (r, cycles) = self.execute_spec(0x2c);
                let (t, addr) = self.fetch_u16_spec();
                let (s, v) = t.bus_read(addr);
                &&& cycles == 4
                &&& r == s.with_cpu(r.cpu)
                &&& bit_result(s.cpu, v, r.cpu)
            }),
    {
        assert(self.execute_spec(0x2c) == self.row_2_spec(0x2c)) by {
            reveal(NesEmulator::execute_spec);
        }
        let (t, addr) = self.fetch_u16_spec();
        let (s, v) = t.bus_read(addr);
        lemma_bit_flags(s.cpu.p, s.cpu.a & v == 0, v & 0x40 != 0, v & 0x80 != 0);
    }
}


/// The 151 documented 6502 opcodes.
pub open spec fn documented_opcode(op: u8) -> bool {
        op == 0x00 || op == 0x01 || op == 0x05 || op == 0x06 || op == 0x08 || op == 0x09 || op == 0x0a || op == 0x0d ||
        op == 0x0e || op == 0x10 || op == 0x11 || op == 0x15 || op == 0x16 || op == 0x18 || op == 0x19 || op == 0x1d ||
        op == 0x1e || op == 0x20 || op == 0x21 || op == 0x24 || op == 0x25 || op == 0x26 || op == 0x28 || op == 0x29 ||
        op == 0x2a || op == 0x2c || op == 0x2d || op == 0x2e || op == 0x30 || op == 0x31 || op == 0x35 || op == 0x36 ||
        op == 0x38 || op == 0x39 || op == 0x3d || op == 0x3e || op == 0x40 || op == 0x41 || op == 0x45 || op == 0x46 ||
        op == 0x48 || op == 0x49 || op == 0x4a || op == 0x4c || op == 0x4d || op == 0x4e || op == 0x50 || op == 0x51 ||
        op == 0x55 || op == 0x56 || op == 0x58 || op == 0x59 || op == 0x5d || op == 0x5e || op == 0x60 || op == 0x61 ||
        op == 0x65 || op == 0x66 || op == 0x68 || op == 0x69 || op == 0x6a || op == 0x6c || op == 0x6d || op == 0x6e ||
        op == 0x70 || op == 0x71 || op == 0x75 || op == 0x76 || op == 0x78 || op == 0x79 || op == 0x7d || op == 0x7e ||
        op == 0x81 || op == 0x84 || op == 0x85 || op == 0x86 || op == 0x88 || op == 0x8a || op == 0x8c || op == 0x8d ||
        op == 0x8e || op == 0x90 || op == 0x91 || op == 0x94 || op == 0x95 || op == 0x96 || op == 0x98 || op == 0x99 ||
        op == 0x9a || op == 0x9d || op == 0xa0 || op == 0xa1 || op == 0xa2 || op == 0xa4 || op == 0xa5 || op == 0xa6 ||
        op == 0xa8 || op == 0xa9 || op == 0xaa || op == 0xac || op == 0xad || op == 0xae || op == 0xb0 || op == 0xb1 ||
        op == 0xb4 || op == 0xb5 || op == 0xb6 || op == 0xb8 || op == 0xb9 || op == 0xba || op == 0xbc || op == 0xbd ||
        op == 0xbe || op == 0xc0 || op == 0xc1 || op == 0xc4 || op == 0xc5 || op == 0xc6 || op == 0xc8 || op == 0xc9 ||
        op == 0xca || op == 0xcc || op == 0xcd || op == 0xce || op == 0xd0 || op == 0xd1 || op == 0xd5 || op == 0xd6 ||
        op == 0xd8 || op == 0xd9 || op == 0xdd || op == 0xde || op == 0xe0 || op == 0xe1 || op == 0xe4 || op == 0xe5 ||
        op == 0xe6 || op == 0xe8 || op == 0xe9 || op == 0xea || op == 0xec || op == 0xed || op == 0xee || op == 0xf0 ||
        op == 0xf1 || op == 0xf5 || op == 0xf6 || op == 0xf8 || op == 0xf9 || op == 0xfd || op == 0xfe
}

proof fn lemma_undocumented_row_0(e: NesEmulator, op: u8)
    requires
        op / 16 == 0,
        !documented_opcode(op),
    ensures
        e.execute_spec(op) == (e, 2u16),
{
    if op == 0x02 {
        assert(e.execute_spec(0x02) == e.row_0_spec(0x02)) by {
            reveal(NesEmulator::execute_spec);
        }
    }
    if op == 0x03 {
        assert(e.execute_spec(0x03) == e.row_0_spec(0x03)) by {
            reveal(NesEmulator::execute_spec);
        }
    }
    if op == 0x04 {
        assert(e.execute_spec(0x04) == e.row_0_spec(0x04)) by {
            reveal(NesEmulator::execute_spec);
        }
    }
    if op == 0x07 {
        assert(e.execute_spec(0x07) == e.row_0_spec(0x07)) by {
            reveal(NesEmulator::execute_spec);
        }
    }
    if op == 0x0b {
        assert(e.execute_spec(0x0b) == e.row_0_spec(0x0b)) by {
            reveal(NesEmulator::execute_spec);
        }
    }
    if op == 0x0c {
        assert(e.execute_spec(0x0c) == e.row_0_spec(0x0c)) by {
            reveal(NesEmulator::execute_spec);
        }
    }
    if op == 0x0f {
        assert(e.execute_spec(0x0f) == e.row_0_spec(0x0f)) by {
            reveal(NesEmulator::execute_spec);
        }
    }
}

proof fn lemma_undocumented_row_1(e: NesEmulator, op: u8)
    requires
        op / 16 == 1,
        !documented_opcode(op),
    ensures
        e.execute_spec(op) == (e, 2u16),
{
    if op == 0x12 {
        assert(e.execute_spec(0x12) == e.row_1_spec(0x12)) by {
            reveal(NesEmulator::execute_spec);
        }
    }
    if op == 0x13 {
        assert(e.execute_spec(0x13) == e.row_1_spec(0x13)) by {
            reveal(NesEmulator::execute_spec);
        }
    }
    if op == 0x14 {
        assert(e.execute_spec(0x14) == e.row_1_spec(0x14)) by {
            reveal(NesEmulator::execute_spec);
        }
    }
    if op == 0x17 {
        assert(e.execute_spec(0x17) == e.row_1_spec(0x17)) by {
            reveal(NesEmulator::execute_spec);
        }
    }
    if op == 0x1a {
        assert(e.execute_spec(0x1a) == e.row_1_spec(0x1a)) by {
            reveal(NesEmulator::execute_spec);
        }
    }
    if op == 0x1b {
        assert(e.execute_spec(0x1b) == e.row_1_spec(0x1b)) by {
            reveal(NesEmulator::execute_spec);
        }
    }
    if op == 0x1c {
        assert(e.execute_spec(0x1c) == e.row_1_spec(0x1c)) by {
            reveal(NesEmulator::execute_spec);
        }
    }
    if op == 0x1f {
        assert(e.execute_spec(0x1f) == e.row_1_spec(0x1f)) by {
            reveal(NesEmulator::execute_spec);
        }
    }
}

proof fn lemma_undocumented_row_2(e: NesEmulator, op: u8)
    requires
        op / 16 == 2,
        !documented_opcode(op),
    ensures
        e.execute_spec(op) == (e, 2u16),
{
    if op == 0x22 {
        assert(e.execute_spec(0x22) == e.row_2_spec(0x22)) by {
            reveal(NesEmulator::execute_spec);
        }
    }
    if op == 0x23 {
        assert(e.execute_spec(0x23) == e.row_2_spec(0x23)) by {
            reveal(NesEmulator::execute_spec);
        }
    }
    if op == 0x27 {
        assert(e.execute_spec(0x27) == e.row_2_spec(0x27)) by {
            reveal(NesEmulator::execute_spec);
        }
    }
    if op == 0x2b {
        assert(e.execute_spec(0x2b) == e.row_2_spec(0x2b)) by {
            reveal(NesEmulator::execute_spec);
        }
    }
    if op == 0x2f {
        assert(e.execute_spec(0x2f) == e.row_2_spec(0x2f)) by {
            reveal(NesEmulator::execute_spec);
        }
    }
}

proof fn lemma_undocumented_row_3(e: NesEmulator, op: u8)
    requires
        op / 16 == 3,
        !documented_opcode(op),
    ensures
        e.execute_spec(op) == (e, 2u16),
{
    if op == 0x32 {
        assert(e.execute_spec(0x32) == e.row_3_spec(0x32)) by {
            reveal(NesEmulator::execute_spec);
        }
    }
    if op == 0x33 {
        assert(e.execute_spec(0x33) == e.row_3_spec(0x33)) by {
            reveal(NesEmulator::execute_spec);
        }
    }
    if op == 0x34 {
        assert(e.execute_spec(0x34) == e.row_3_spec(0x34)) by {
            reveal(NesEmulator::execute_spec);
        }
    }
    if op == 0x37 {
        assert(e.execute_spec(0x37) == e.row_3_spec(0x37)) by {
            reveal(NesEmulator::execute_spec);
        }
    }
    if op == 0x3a {
        assert(e.execute_spec(0x3a) == e.row_3_spec(0x3a)) by {
            reveal(NesEmulator::execute_spec);
        }
    }
    if op == 0x3b {
        assert(e.execute_spec(0x3b) == e.row_3_spec(0x3b)) by {
            reveal(NesEmulator::execute_spec);
        }
    }
    if op == 0x3c {
        assert(e.execute_spec(0x3c) == e.row_3_spec(0x3c)) by {
            reveal(NesEmulator::execute_spec);
        }
    }
    if op == 0x3f {
        assert(e.execute_spec(0x3f) == e.row_3_spec(0x3f)) by {
            reveal(NesEmulator::execute_spec);
        }
    }
}

proof fn lemma_undocumented_row_4(e: NesEmulator, op: u8)
    requires
        op / 16 == 4,
        !documented_opcode(op),
    ensures
        e.execute_spec(op) == (e, 2u16),
{
    if op == 0x42 {
        assert(e.execute_spec(0x42) == e.row_4_spec(0x42)) by {
            reveal(NesEmulator::execute_spec);
        }
    }
    if op == 0x43 {
        assert(e.execute_spec(0x43) == e.row_4_spec(0x43)) by {
            reveal(NesEmulator::execute_spec);
        }
    }
    if op == 0x44 {
        assert(e.execute_spec(0x44) == e.row_4_spec(0x44)) by {
            reveal(NesEmulator::execute_spec);
        }
    }
    if op == 0x47 {
        assert(e.execute_spec(0x47) == e.row_4_spec(0x47)) by {
            reveal(NesEmulator::execute_spec);
        }
    }
    if op == 0x4b {
        assert(e.execute_spec(0x4b) == e.row_4_spec(0x4b)) by {
            reveal(NesEmulator::execute_spec);
        }
    }
    if op == 0x4f {
        assert(e.execute_spec(0x4f) == e.row_4_spec(0x4f)) by {
            reveal(NesEmulator::execute_spec);
        }
    }
}

proof fn lemma_undocumented_row_5(e: NesEmulator, op: u8)
    requires
        op / 16 == 5,
        !documented_opcode(op),
    ensures
        e.execute_spec(op) == (e, 2u16),
{
    if op == 0x52 {
        assert(e.execute_spec(0x52) == e.row_5_spec(0x52)) by {
            reveal(NesEmulator::execute_spec);
        }
    }
    if op == 0x53 {
        assert(e.execute_spec(0x53) == e.row_5_spec(0x53)) by {
            reveal(NesEmulator::execute_spec);
        }
    }
    if op == 0x54 {
        assert(e.execute_spec(0x54) == e.row_5_spec(0x54)) by {
            reveal(NesEmulator::execute_spec);
        }
    }
    if op == 0x57 {
        assert(e.execute_spec(0x57) == e.row_5_spec(0x57)) by {
            reveal(NesEmulator::execute_spec);
        }
    }
    if op == 0x5a {
        assert(e.execute_spec(0x5a) == e.row_5_spec(0x5a)) by {
            reveal(NesEmulator::execute_spec);
        }
    }
    if op == 0x5b {
        assert(e.execute_spec(0x5b) == e.row_5_spec(0x5b)) by {
            reveal(NesEmulator::execute_spec);
        }
    }
    if op == 0x5c {
        assert(e.execute_spec(0x5c) == e.row_5_spec(0x5c)) by {
            reveal(NesEmulator::execute_spec);
        }
    }
    if op == 0x5f {
        assert(e.execute_spec(0x5f) == e.row_5_spec(0x5f)) by {
            reveal(NesEmulator::execute_spec);
        }
    }
}

proof fn lemma_undocumented_row_6(e: NesEmulator, op: u8)
    requires
        op / 16 == 6,
        !documented_opcode(op),
    ensures
        e.execute_spec(op) == (e, 2u16),
{
    if op == 0x62 {
        assert(e.execute_spec(0x62) == e.row_6_spec(0x62)) by {
            reveal(NesEmulator::execute_spec);
        }
    }
    if op == 0x63 {
        assert(e.execute_spec(0x63) == e.row_6_spec(0x63)) by {
            reveal(NesEmulator::execute_spec);
        }
    }
    if op == 0x64 {
        assert(e.execute_spec(0x64) == e.row_6_spec(0x64)) by {
            reveal(NesEmulator::execute_spec);
        }
    }
    if op == 0x67 {
        assert(e.execute_spec(0x67) == e.row_6_spec(0x67)) by {
            reveal(NesEmulator::execute_spec);
        }
    }
    if op == 0x6b {
        assert(e.execute_spec(0x6b) == e.row_6_spec(0x6b)) by {
            reveal(NesEmulator::execute_spec);
        }
    }
    if op == 0x6f {
        assert(e.execute_spec(0x6f) == e.row_6_spec(0x6f)) by {
            reveal(NesEmulator::execute_spec);
        }
    }
}

proof fn lemma_undocumented_row_7(e: NesEmulator, op: u8)
    requires
        op / 16 == 7,
        !documented_opcode(op),
    ensures
        e.execute_spec(op) == (e, 2u16),
{
    if op == 0x72 {
        assert(e.execute_spec(0x72) == e.row_7_spec(0x72)) by {
            reveal(NesEmulator::execute_spec);
        }
    }
    if op == 0x73 {
        assert(e.execute_spec(0x73) == e.row_7_spec(0x73)) by {
            reveal(NesEmulator::execute_spec);
        }
    }
    if op == 0x74 {
        assert(e.execute_spec(0x74) == e.row_7_spec(0x74)) by {
            reveal(NesEmulator::execute_spec);
        }
    }
    if op == 0x77 {
        assert(e.execute_spec(0x77) == e.row_7_spec(0x77)) by {
            reveal(NesEmulator::execute_spec);
        }
    }
    if op == 0x7a {
        assert(e.execute_spec(0x7a) == e.row_7_spec(0x7a)) by {
            reveal(NesEmulator::execute_spec);
        }
    }
    if op == 0x7b {
        assert(e.execute_spec(0x7b) == e.row_7_spec(0x7b)) by {
            reveal(NesEmulator::execute_spec);
        }
    }
    if op == 0x7c {
        assert(e.execute_spec(0x7c) == e.row_7_spec(0x7c)) by {
            reveal(NesEmulator::execute_spec);
        }
    }
    if op == 0x7f {
        assert(e.execute_spec(0x7f) == e.row_7_spec(0x7f)) by {
            reveal(NesEmulator::execute_spec);
        }
    }
}

proof fn lemma_undocumented_row_8(e: NesEmulator, op: u8)
    requires
        op / 16 == 8,
        !documented_opcode(op),
    ensures
        e.execute_spec(op) == (e, 2u16),
{
    if op == 0x80 {
        assert(e.execute_spec(0x80) == e.row_8_spec(0x80)) by {
            reveal(NesEmulator::execute_spec);
        }
    }
    if op == 0x82 {
        assert(e.execute_spec(0x82) == e.row_8_spec(0x82)) by {
            reveal(NesEmulator::execute_spec);
        }
    }
    if op == 0x83 {
        assert(e.execute_spec(0x83) == e.row_8_spec(0x83)) by {
            reveal(NesEmulator::execute_spec);
        }
    }
    if op == 0x87 {
        assert(e.execute_spec(0x87) == e.row_8_spec(0x87)) by {
            reveal(NesEmulator::execute_spec);
        }
    }
    if op == 0x89 {
        assert(e.execute_spec(0x89) == e.row_8_spec(0x89)) by {
            reveal(NesEmulator::execute_spec);
        }
    }
    if op == 0x8b {
        assert(e.execute_spec(0x8b) == e.row_8_spec(0x8b)) by {
            reveal(NesEmulator::execute_spec);
        }
    }
    if op == 0x8f {
        assert(e.execute_spec(0x8f) == e.row_8_spec(0x8f)) by {
            reveal(NesEmulator::execute_spec);
        }
    }
}

proof fn lemma_undocumented_row_9(e: NesEmulator, op: u8)
    requires
        op / 16 == 9,
        !documented_opcode(op),
    ensures
        e.execute_spec(op) == (e, 2u16),
{
    if op == 0x92 {
        assert(e.execute_spec(0x92) == e.row_9_spec(0x92)) by {
            reveal(NesEmulator::execute_spec);
        }
    }
    if op == 0x93 {
        assert(e.execute_spec(0x93) == e.row_9_spec(0x93)) by {
            reveal(NesEmulator::execute_spec);
        }
    }
    if op == 0x97 {
        assert(e.execute_spec(0x97) == e.row_9_spec(0x97)) by {
            reveal(NesEmulator::execute_spec);
        }
    }
    if op == 0x9b {
        assert(e.execute_spec(0x9b) == e.row_9_spec(0x9b)) by {
            reveal(NesEmulator::execute_spec);
        }
    }
    if op == 0x9c {
        assert(e.execute_spec(0x9c) == e.row_9_spec(0x9c)) by {
            reveal(NesEmulator::execute_spec);
        }
    }
    if op == 0x9e {
        assert(e.execute_spec(0x9e) == e.row_9_spec(0x9e)) by {
            reveal(NesEmulator::execute_spec);
        }
    }
    if op == 0x9f {
        assert(e.execute_spec(0x9f) == e.row_9_spec(0x9f)) by {
            reveal(NesEmulator::execute_spec);
        }
    }
}

proof fn lemma_undocumented_row_a(e: NesEmulator, op: u8)
    requires
        op / 16 == 10,
        !documented_opcode(op),
    ensures
        e.execute_spec(op) == (e, 2u16),
{
    if op == 0xa3 {
        assert(e.execute_spec(0xa3) == e.row_a_spec(0xa3)) by {
            reveal(NesEmulator::execute_spec);
        }
    }
    if op == 0xa7 {
        assert(e.execute_spec(0xa7) == e.row_a_spec(0xa7)) by {
            reveal(NesEmulator::execute_spec);
        }
    }
    if op == 0xab {
        assert(e.execute_spec(0xab) == e.row_a_spec(0xab)) by {
            reveal(NesEmulator::execute_spec);
        }
    }
    if op == 0xaf {
        assert(e.execute_spec(0xaf) == e.row_a_spec(0xaf)) by {
            reveal(NesEmulator::execute_spec);
        }
    }
}

proof fn lemma_undocumented_row_b(e: NesEmulator, op: u8)
    requires
        op / 16 == 11,
        !documented_opcode(op),
    ensures
        e.execute_spec(op) == (e, 2u16),
{
    if op == 0xb2 {
        assert(e.execute_spec(0xb2) == e.row_b_spec(0xb2)) by {
            reveal(NesEmulator::execute_spec);
        }
    }
    if op == 0xb3 {
        assert(e.execute_spec(0xb3) == e.row_b_spec(0xb3)) by {
            reveal(NesEmulator::execute_spec);
        }
    }
    if op == 0xb7 {
        assert(e.execute_spec(0xb7) == e.row_b_spec(0xb7)) by {
            reveal(NesEmulator::execute_spec);
        }
    }
    if op == 0xbb {
        assert(e.execute_spec(0xbb) == e.row_b_spec(0xbb)) by {
            reveal(NesEmulator::execute_spec);
        }
    }
    if op == 0xbf {
        assert(e.execute_spec(0xbf) == e.row_b_spec(0xbf)) by {
            reveal(NesEmulator::execute_spec);
        }
    }
}

proof fn lemma_undocumented_row_c(e: NesEmulator, op: u8)
    requires
        op / 16 == 12,
        !documented_opcode(op),
    ensures
        e.execute_spec(op) == (e, 2u16),
{
    if op == 0xc2 {
        assert(e.execute_spec(0xc2) == e.row_c_spec(0xc2)) by {
            reveal(NesEmulator::execute_spec);
        }
    }
    if op == 0xc3 {
        assert(e.execute_spec(0xc3) == e.row_c_spec(0xc3)) by {
            reveal(NesEmulator::execute_spec);
        }
    }
    if op == 0xc7 {
        assert(e.execute_spec(0xc7) == e.row_c_spec(0xc7)) by {
            reveal(NesEmulator::execute_spec);
        }
    }
    if op == 0xcb {
        assert(e.execute_spec(0xcb) == e.row_c_spec(0xcb)) by {
            reveal(NesEmulator::execute_spec);
        }
    }
    if op == 0xcf {
        assert(e.execute_spec(0xcf) == e.row_c_spec(0xcf)) by {
            reveal(NesEmulator::execute_spec);
        }
    }
}

proof fn lemma_undocumented_row_d(e: NesEmulator, op: u8)
    requires
        op / 16 == 13,
        !documented_opcode(op),
    ensures
        e.execute_spec(op) == (e, 2u16),
{
    if op == 0xd2 {
        assert(e.execute_spec(0xd2) == e.row_d_spec(0xd2)) by {
            reveal(NesEmulator::execute_spec);
        }
    }
    if op == 0xd3 {
        assert(e.execute_spec(0xd3) == e.row_d_spec(0xd3)) by {
            reveal(NesEmulator::execute_spec);
        }
    }
    if op == 0xd4 {
        assert(e.execute_spec(0xd4) == e.row_d_spec(0xd4)) by {
            reveal(NesEmulator::execute_spec);
        }
    }
    if op == 0xd7 {
        assert(e.execute_spec(0xd7) == e.row_d_spec(0xd7)) by {
            reveal(NesEmulator::execute_spec);
        }
    }
    if op == 0xda {
        assert(e.execute_spec(0xda) == e.row_d_spec(0xda)) by {
            reveal(NesEmulator::execute_spec);
        }
    }
    if op == 0xdb {
        assert(e.execute_spec(0xdb) == e.row_d_spec(0xdb)) by {
            reveal(NesEmulator::execute_spec);
        }
    }
    if op == 0xdc {
        assert(e.execute_spec(0xdc) == e.row_d_spec(0xdc)) by {
            reveal(NesEmulator::execute_spec);
        }
    }
    if op == 0xdf {
        assert(e.execute_spec(0xdf) == e.row_d_spec(0xdf)) by {
            reveal(NesEmulator::execute_spec);
        }
    }
}

proof fn lemma_undocumented_row_e(e: NesEmulator, op: u8)
    requires
        op / 16 == 14,
        !documented_opcode(op),
    ensures
        e.execute_spec(op) == (e, 2u16),
{
    if op == 0xe2 {
        assert(e.execute_spec(0xe2) == e.row_e_spec(0xe2)) by {
            reveal(NesEmulator::execute_spec);
        }
    }
    if op == 0xe3 {
        assert(e.execute_spec(0xe3) == e.row_e_spec(0xe3)) by {
            reveal(NesEmulator::execute_spec);
        }
    }
    if op == 0xe7 {
        assert(e.execute_spec(0xe7) == e.row_e_spec(0xe7)) by {
            reveal(NesEmulator::execute_spec);
        }
    }
    if op == 0xeb {
        assert(e.execute_spec(0xeb) == e.row_e_spec(0xeb)) by {
            reveal(NesEmulator::execute_spec);
        }
    }
    if op == 0xef {
        assert(e.execute_spec(0xef) == e.row_e_spec(0xef)) by {
            reveal(NesEmulator::execute_spec);
        }
    }
}

proof fn lemma_undocumented_row_f(e: NesEmulator, op: u8)
    requires
        op / 16 == 15,
        !documented_opcode(op),
    ensures
        e.execute_spec(op) == (e, 2u16),
{
    if op == 0xf2 {
        assert(e.execute_spec(0xf2) == e.row_f_spec(0xf2)) by {
            reveal(NesEmulator::execute_spec);
        }
    }
    if op == 0xf3 {
        assert(e.execute_spec(0xf3) == e.row_f_spec(0xf3)) by {
            reveal(NesEmulator::execute_spec);
        }
    }
    if op == 0xf4 {
        assert(e.execute_spec(0xf4) == e.row_f_spec(0xf4)) by {
            reveal(NesEmulator::execute_spec);
        }
    }
    if op == 0xf7 {
        assert(e.execute_spec(0xf7) == e.row_f_spec(0xf7)) by {
            reveal(NesEmulator::execute_spec);
        }
    }
    if op == 0xfa {
        assert(e.execute_spec(0xfa) == e.row_f_spec(0xfa)) by {
            reveal(NesEmulator::execute_spec);
        }
    }
    if op == 0xfb {
        assert(e.execute_spec(0xfb) == e.row_f_spec(0xfb)) by {
            reveal(NesEmulator::execute_spec);
        }
    }
    if op == 0xfc {
        assert(e.execute_spec(0xfc) == e.row_f_spec(0xfc)) by {
            reveal(NesEmulator::execute_spec);
        }
    }
    if op == 0xff {
        assert(e.execute_spec(0xff) == e.row_f_spec(0xff)) by {
            reveal(NesEmulator::execute_spec);
        }
    }
}

impl NesEmulator {
    /// An opcode outside the documented set does nothing and takes two
    /// cycles.
    pub proof fn lemma_undocumented_opcode(self, op: u8)
        requires
            !documented_opcode(op),
        ensures
            self.execute_spec(op) == (self, 2u16),
    {
        if op / 16 == 0 {
            lemma_undocumented_row_0(self, op);
        } else if op / 16 == 1 {
            lemma_undocumented_row_1(self, op);
        } else if op / 16 == 2 {
            lemma_undocumented_row_2(self, op);
        } else if op / 16 == 3 {
            lemma_undocumented_row_3(self, op);
        } else if op / 16 == 4 {
            lemma_undocumented_row_4(self, op);
        } else if op / 16 == 5 {
            lemma_undocumented_row_5(self, op);
        } else if op / 16 == 6 {
            lemma_undocumented_row_6(self, op);
        } else if op / 16 == 7 {
            lemma_undocumented_row_7(self, op);
        } else if op / 16 == 8 {
            lemma_undocumented_row_8(self, op);
        } else if op / 16 == 9 {
            lemma_undocumented_row_9(self, op);
        } else if op / 16 == 10 {
            lemma_undocumented_row_a(self, op);
        } else if op / 16 == 11 {
            lemma_undocumented_row_b(self, op);
        } else if op / 16 == 12 {
            lemma_undocumented_row_c(self, op);
        } else if op / 16 == 13 {
            lemma_undocumented_row_d(self, op);
        } else if op / 16 == 14 {
            lemma_undocumented_row_e(self, op);
        } else if op / 16 == 15 {
            lemma_undocumented_row_f(self, op);
        }
    }

    /// JSR pushes the address of its last operand byte, high byte first
    /// (at 0x100 + SP, then one below), and jumps to its operand; SP moves
    /// down by two (opcode 0x20).
    #[verifier::spinoff_prover]
    #[verifier::rlimit(80)]
    pub proof fn lemma_op_20(self)
        ensures
            ({
                let (r, cycles) = self.execute_spec(0x20);
                let (s, target) = self.fetch_u16_spec();
                let ret = ((s.cpu.pc as int - 1) % 0x10000) as u16;
                let sp = s.cpu.sp;
                let sp1 = wrap8(sp as int - 1);
                &&& cycles == 6
                &&& r.cpu == (Cpu { pc: target, sp: wrap8(sp as int - 2), ..s.cpu })
                &&& r.ram[0x100 + sp as int] == (ret as int / 256) as u8
                &&& r.ram[0x100 + sp1 as int] == (ret as int % 256) as u8
                &&& forall|i: int|
                    0 <= i < 2048 && i != 0x100 + sp as int && i != 0x100 + sp1 as int ==> #[trigger] r.ram[i]
                        == s.ram[i]
                &&& r == (NesEmulator { ram: r.ram, cpu: r.cpu, ..s })
            }),
    {
        assert(self.execute_spec(0x20) == self.row_2_spec(0x20)) by {
            reveal(NesEmulator::execute_spec);
        }
        reveal(NesEmulator::push_u16_spec);
        reveal(NesEmulator::push_spec);
        reveal(NesEmulator::bus_write);
        broadcast use vstd::array::group_array_axioms;
        let (s, target) = self.fetch_u16_spec();
        assert(s.cpu.pc.wrapping_sub(1) == ((s.cpu.pc as int - 1) % 0x10000) as u16);
        let sp = s.cpu.sp;
        assert(wrap8(wrap8(sp as int - 1) as int - 1) == wrap8(sp as int - 2));
        assert((0x100 + sp as int) as u16 as int % 0x800 == 0x100 + sp as int);
        assert((0x100 + wrap8(sp as int - 1) as int) as u16 as int % 0x800 == 0x100 + wrap8(sp as int - 1) as int);
    }

    /// BRK pushes the address two past its opcode (high byte first), then
    /// the status with B and the unused bit set; it sets interrupt disable,
    /// moves SP down by three and continues at the IRQ/BRK vector read from
    /// 0xFFFE, low byte first (opcode 0x00).
    #[verifier::spinoff_prover]
    #[verifier::rlimit(60)]
    pub proof fn lemma_op_00(self)
        ensures
            ({
                let (r, cycles) = self.execute_spec(0x00);
                let ret = ((self.cpu.pc as int + 1) % 0x10000) as u16;
                let sp = self.cpu.sp;
                let sp1 = wrap8(sp as int - 1);
                let sp2 = wrap8(sp as int - 2);
                &&& cycles == 7
                &&& r.cpu.pc == (self.prg_at(0xfffe) as int + 256 * self.prg_at(0xffff) as int) as u16
                &&& r.cpu.sp == wrap8(sp as int - 3)
                &&& r.cpu.a == self.cpu.a && r.cpu.x == self.cpu.x && r.cpu.y == self.cpu.y
                &&& flag_only(self.cpu.p, r.cpu.p, crate::emulator::FLAG_I, true)
                &&& r.ram[0x100 + sp as int] == (ret as int / 256) as u8
                &&& r.ram[0x100 + sp1 as int] == (ret as int % 256) as u8
                &&& r.ram[0x100 + sp2 as int] == self.cpu.p | 0x30
                &&& forall|i: int|
                    0 <= i < 2048 && i != 0x100 + sp as int && i != 0x100 + sp1 as int && i != 0x100 + sp2 as int
                        ==> #[trigger] r.ram[i] == self.ram[i]
                &&& r == (NesEmulator { ram: r.ram, cpu: r.cpu, ..self })
            }),
    {
        assert(self.execute_spec(0x00) == self.row_0_spec(0x00)) by {
            reveal(NesEmulator::execute_spec);
        }
        let sp = self.cpu.sp;
        let p = self.cpu.p;
        let ret = self.cpu.pc.wrapping_add(1);
        let s0 = self.set_pc(ret);
        let hi = (ret as int / 256) as u8;
        let lo = (ret as int % 256) as u8;
        assert(s0.push_u16_spec(ret) == s0.push_spec(hi).push_spec(lo)) by {
            reveal(NesEmulator::push_u16_spec);
        }
        let a1 = s0.push_spec(hi);
        lemma_push_explicit(s0, hi);
        let a2 = a1.push_spec(lo);
        lemma_push_explicit(a1, lo);
        assert(with_flag(p | 0x20u8, 0x10, true) == p | 0x30u8) by (bit_vector);
        assert(a2.cpu.p == p);
        let a3 = a2.push_spec(p | 0x30);
        lemma_push_explicit(a2, p | 0x30);
        let a4 = a3.set_flag_spec(crate::emulator::FLAG_I, true);
        assert(a4 == a3.with_cpu(Cpu { p: with_flag(p, crate::emulator::FLAG_I, true) | FLAG_U, ..a3.cpu })) by {
            reveal(NesEmulator::set_flag_spec);
        }
        lemma_set_flag_bits(p, crate::emulator::FLAG_I, true);
        assert(a4.read_u16_spec(0xfffe) == (a4, (a4.prg_at(0xfffe) as int + 256 * a4.prg_at(0xffff) as int) as u16)) by {
            reveal(NesEmulator::read_u16_spec);
            reveal(NesEmulator::bus_read);
            assert(wrap16(0xfffeint + 1) == 0xffff);
        }
        assert(self.execute_spec(0x00).0 == a4.set_pc((a4.prg_at(0xfffe) as int + 256 * a4.prg_at(0xffff) as int) as u16))
            by {
            reveal(NesEmulator::interrupt_spec);
        }
        assert(wrap8(wrap8(sp as int - 1) as int - 1) == wrap8(sp as int - 2));
        assert(wrap8(wrap8(sp as int - 2) as int - 1) == wrap8(sp as int - 3));
        assert(ret == ((self.cpu.pc as int + 1) % 0x10000) as u16);
    }
}

/// A push writes the byte at 0x100 + SP and moves SP down by one
/// (wrapping); nothing else changes.
proof fn lemma_push_explicit(e: NesEmulator, v: u8)
    ensures
        ({
            let r = e.push_spec(v);
            let sp = e.cpu.sp;
            &&& r.cpu == (Cpu { sp: wrap8(sp as int - 1), ..e.cpu })
            &&& r.ram[0x100 + sp as int] == v
            &&& forall|i: int| 0 <= i < 2048 && i != 0x100 + sp as int ==> #[trigger] r.ram[i] == e.ram[i]
            &&& r == (NesEmulator { ram: r.ram, cpu: r.cpu, ..e })
        }),
{
    reveal(NesEmulator::push_spec);
    reveal(NesEmulator::bus_write);
    broadcast use vstd::array::group_array_axioms;
    assert((0x100 + e.cpu.sp as int) as u16 as int % 0x800 == 0x100 + e.cpu.sp as int);
}


impl NesEmulator {
    /// The CPU memory map. Below 0x2000 the 2 KiB of RAM repeat: a read
    /// returns byte `addr % 0x800` and changes nothing, a write stores there
    /// and changes nothing else. From 0x8000 a read returns PRG ROM, which
    /// a 16 KiB ROM fills twice and a 32 KiB ROM once, and a write changes
    /// nothing. The unmapped range 0x4018..0x8000 reads 0 and ignores writes.
    pub proof fn lemma_memory_map(self, addr: u16, value: u8)
        requires
            self.wf(),
        ensures
            addr < 0x2000 ==> self.bus_read(addr) == (self, self.ram[addr as int % 0x800]),
            addr < 0x2000 ==> self.bus_write(addr, value) == (NesEmulator {
                ram: self.bus_write(addr, value).ram,
                ..self
            }),
            addr < 0x2000 ==> self.bus_write(addr, value).ram@ == self.ram@.update(addr as int % 0x800, value),
            addr >= 0x8000 && (self.prg_rom@.len() == 0x4000 || self.prg_rom@.len() == 0x8000) ==> self.bus_read(addr)
                == (self, self.prg_rom@[(addr as int - 0x8000) % self.prg_rom@.len() as int]),
            addr >= 0x8000 ==> self.bus_write(addr, value) == self,
            0x4018 <= addr < 0x8000 ==> self.bus_read(addr) == (self, 0u8),
            0x4018 <= addr < 0x8000 ==> self.bus_write(addr, value) == self,
    {
        reveal(NesEmulator::bus_read);
        reveal(NesEmulator::bus_write);
        broadcast use vstd::array::group_array_axioms;
        crate::bits::lemma_usize_bits((addr - 0x8000) as usize);
    }

    /// The addressing modes. A fetch reads the byte at PC and moves PC on
    /// by one (wrapping). Zero page is the fetched byte; zero page,X and
    /// zero page,Y add the index and stay in the zero page. Absolute is the
    /// next two bytes, low first; absolute,X/Y add the index (wrapping at
    /// 64 KiB) and report a page change. (Indirect,X) reads a pointer at
    /// zero page `operand + X`, (indirect),Y at zero page `operand` and
    /// adds Y; both pointers' high bytes come from the next zero-page byte.
    pub proof fn lemma_addressing_modes(self)
        ensures
            ({
                let (s1, v) = self.fetch_spec();
                let (s2, hi) = s1.fetch_spec();
                let base = (v as int + 256 * hi as int) as u16;
                let ax = ((base as int + s2.cpu.x as int) % 0x10000) as u16;
                let ay = ((base as int + s2.cpu.y as int) % 0x10000) as u16;
                let px = ((v as int + s1.cpu.x as int) % 256) as u16;
                let (t2, lo_x) = s1.bus_read(px);
                let (t3, hi_x) = t2.bus_read(((px as int + 1) % 256) as u16);
                let (u2, lo_y) = s1.bus_read(v as u16);
                let (u3, hi_y) = u2.bus_read(((v as int + 1) % 256) as u16);
                let iy_base = (lo_y as int + 256 * hi_y as int) as u16;
                let iy = ((iy_base as int + u3.cpu.y as int) % 0x10000) as u16;
                &&& self.fetch_spec() == (self.bus_read(self.cpu.pc).0.with_cpu(Cpu {
                    pc: ((self.cpu.pc as int + 1) % 0x10000) as u16,
                    ..self.bus_read(self.cpu.pc).0.cpu
                }), self.bus_read(self.cpu.pc).1)
                &&& self.zp_spec() == (s1, v as u16)
                &&& self.zpx_spec() == (s1, px)
                &&& self.zpy_spec() == (s1, ((v as int + s1.cpu.y as int) % 256) as u16)
                &&& self.fetch_u16_spec() == (s2, base)
                &&& self.absx_spec() == (s2, ax, base as int / 256 != ax as int / 256)
                &&& self.absy_spec() == (s2, ay, base as int / 256 != ay as int / 256)
                &&& self.indx_spec() == (t3, (lo_x as int + 256 * hi_x as int) as u16)
                &&& self.indy_spec() == (u3, iy, iy_base as int / 256 != iy as int / 256)
            }),
    {
        reveal(NesEmulator::fetch_spec);
        reveal(NesEmulator::fetch_u16_spec);
        reveal(NesEmulator::zp_spec);
        reveal(NesEmulator::zpx_spec);
        reveal(NesEmulator::zpy_spec);
        reveal(NesEmulator::absx_spec);
        reveal(NesEmulator::absy_spec);
        reveal(NesEmulator::indx_spec);
        reveal(NesEmulator::indy_spec);
    }
}

} // verus!
