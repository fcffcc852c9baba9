use vstd::prelude::*;

use crate::emulator::{
    signed_byte, Cpu, NesEmulator, FLAG_B, FLAG_C, FLAG_D, FLAG_I, FLAG_N, FLAG_U, FLAG_V, FLAG_Z,
};
use crate::bits::{lemma_byte_bits, lemma_u16_bits, lemma_word_of_bytes};
use crate::ppu::{wrap16, wrap8};

verus! {

/// `p` with the bits of `flag` set when `on`, cleared otherwise.
pub open spec fn with_flag(p: u8, flag: u8, on: bool) -> u8 {
    if on {
        p | flag
    } else {
        p & !flag
    }
}

/// Status after a result is loaded: Z when it is zero, N when its top bit is
/// set, the unused bit set, every other flag kept.
pub open spec fn zn_spec(p: u8, value: u8) -> u8 {
    with_flag(with_flag(p, FLAG_Z, value == 0), FLAG_N, value >= 128) | FLAG_U
}

/// Two addresses lie on different 256-byte pages.
pub open spec fn crosses_page(a: u16, b: u16) -> bool {
    a as int / 256 != b as int / 256
}

/// The carry flag of `c` as 0 or 1.
pub open spec fn carry_of(c: Cpu) -> int {
    if c.p & FLAG_C != 0 {
        1
    } else {
        0
    }
}

/// ADC: `a + value + carry`, with C on unsigned overflow and V when the
/// signed sum leaves -128..=127.
pub open spec fn adc_spec(c: Cpu, value: u8) -> Cpu {
    let sum = c.a as int + value as int + carry_of(c);
    let signed_sum = signed_byte(c.a) + signed_byte(value) + carry_of(c);
    let result = (sum % 256) as u8;
    Cpu {
        a: result,
        p: with_flag(
            with_flag(
                with_flag(with_flag(c.p, FLAG_C, sum > 255), FLAG_V, signed_sum < -128 || signed_sum > 127),
                FLAG_Z,
                result == 0,
            ),
            FLAG_N,
            result >= 128,
        ) | FLAG_U,
        ..c
    }
}

/// CMP/CPX/CPY: flags of `reg - value`; C when no borrow.
pub open spec fn compare_spec(c: Cpu, reg: u8, value: u8) -> Cpu {
    let result = wrap8(reg as int - value as int);
    Cpu {
        p: with_flag(with_flag(with_flag(c.p, FLAG_C, reg >= value), FLAG_Z, result == 0), FLAG_N, result >= 128)
            | FLAG_U,
        ..c
    }
}

/// BIT: Z from `a & value`, V and N copied from bits 6 and 7 of `value`.
pub open spec fn bit_spec(c: Cpu, value: u8) -> Cpu {
    Cpu {
        p: with_flag(
            with_flag(with_flag(c.p, FLAG_Z, c.a & value == 0), FLAG_V, value & 0x40 != 0),
            FLAG_N,
            value & 0x80 != 0,
        ) | FLAG_U,
        ..c
    }
}

/// A shift or rotate of `value`: the result and the bit shifted out into C.
pub open spec fn shifted_spec(c: Cpu, result: u8, carry_out: bool) -> Cpu {
    Cpu {
        p: with_flag(with_flag(with_flag(c.p, FLAG_C, carry_out), FLAG_Z, result == 0), FLAG_N, result >= 128)
            | FLAG_U,
        ..c
    }
}

/// ASL result: `value * 2` modulo 256.
pub open spec fn asl_value(value: u8) -> u8 {
    wrap8(value as int * 2)
}

/// LSR result: `value / 2`.
pub open spec fn lsr_value(value: u8) -> u8 {
    (value / 2) as u8
}

/// ROL result: `value * 2 + carry` modulo 256.
pub open spec fn rol_value(c: Cpu, value: u8) -> u8 {
    wrap8(value as int * 2 + carry_of(c))
}

/// ROR result: `value / 2`, with the carry in bit 7.
pub open spec fn ror_value(c: Cpu, value: u8) -> u8 {
    (value / 2 + 128 * carry_of(c)) as u8
}

/// LSR leaves N clear: bit 7 of `value / 2` is 0.
pub open spec fn lsr_spec(c: Cpu, value: u8) -> Cpu {
    let result = lsr_value(value);
    Cpu {
        p: with_flag(with_flag(with_flag(c.p, FLAG_C, value % 2 == 1), FLAG_Z, result == 0), FLAG_N, false)
            | FLAG_U,
        ..c
    }
}

impl NesEmulator {
    pub open spec fn set_pc(self, pc: u16) -> NesEmulator {
        self.with_cpu(Cpu { pc: pc, ..self.cpu })
    }

    /// The byte at PC, read over the bus; PC moves past it.
    #[verifier::opaque]
    pub open spec fn fetch_spec(self) -> (NesEmulator, u8) {
        let (s1, v) = self.bus_read(self.cpu.pc);
        (s1.set_pc(wrap16(self.cpu.pc as int + 1)), v)
    }

    /// Two fetched bytes, low first.
    #[verifier::opaque]
    pub open spec fn fetch_u16_spec(self) -> (NesEmulator, u16) {
        let (s1, lo) = self.fetch_spec();
        let (s2, hi) = s1.fetch_spec();
        (s2, (lo as int + 256 * hi as int) as u16)
    }

    /// Zero-page operand address.
    #[verifier::opaque]
    pub open spec fn zp_spec(self) -> (NesEmulator, u16) {
        let (s1, v) = self.fetch_spec();
        (s1, v as u16)
    }

    /// Zero-page,X operand address (wrapping within the zero page).
    #[verifier::opaque]
    pub open spec fn zpx_spec(self) -> (NesEmulator, u16) {
        let (s1, v) = self.fetch_spec();
        (s1, wrap8(v as int + s1.cpu.x as int) as u16)
    }

    /// Zero-page,Y operand address (wrapping within the zero page).
    #[verifier::opaque]
    pub open spec fn zpy_spec(self) -> (NesEmulator, u16) {
        let (s1, v) = self.fetch_spec();
        (s1, wrap8(v as int + s1.cpu.y as int) as u16)
    }

    /// Absolute,X operand address and whether indexing crossed a page.
    #[verifier::opaque]
    pub open spec fn absx_spec(self) -> (NesEmulator, u16, bool) {
        let (s1, base) = self.fetch_u16_spec();
        let addr = wrap16(base as int + s1.cpu.x as int);
        (s1, addr, crosses_page(base, addr))
    }

    /// Absolute,Y operand address and whether indexing crossed a page.
    #[verifier::opaque]
    pub open spec fn absy_spec(self) -> (NesEmulator, u16, bool) {
        let (s1, base) = self.fetch_u16_spec();
        let addr = wrap16(base as int + s1.cpu.y as int);
        (s1, addr, crosses_page(base, addr))
    }

    /// (Indirect,X) operand address: the pointer at zero page `operand + X`.
    #[verifier::opaque]
    pub open spec fn indx_spec(self) -> (NesEmulator, u16) {
        let (s1, v) = self.fetch_spec();
        let ptr = wrap8(v as int + s1.cpu.x as int);
        let (s2, lo) = s1.bus_read(ptr as u16);
        let (s3, hi) = s2.bus_read(wrap8(ptr as int + 1) as u16);
        (s3, (lo as int + 256 * hi as int) as u16)
    }

    /// (Indirect),Y operand address: the pointer at zero page `operand`,
    /// plus Y, and whether that crossed a page.
    #[verifier::opaque]
    pub open spec fn indy_spec(self) -> (NesEmulator, u16, bool) {
        let (s1, ptr) = self.fetch_spec();
        let (s2, lo) = s1.bus_read(ptr as u16);
        let (s3, hi) = s2.bus_read(wrap8(ptr as int + 1) as u16);
        let base = (lo as int + 256 * hi as int) as u16;
        let addr = wrap16(base as int + s3.cpu.y as int);
        (s3, addr, crosses_page(base, addr))
    }

    #[verifier::opaque]
    pub open spec fn set_flag_spec(self, flag: u8, value: bool) -> NesEmulator {
        self.with_cpu(Cpu { p: with_flag(self.cpu.p, flag, value) | FLAG_U, ..self.cpu })
    }

    #[verifier::opaque]
    pub open spec fn set_zn_spec(self, value: u8) -> NesEmulator {
        self.with_cpu(Cpu { p: zn_spec(self.cpu.p, value), ..self.cpu })
    }

    /// A push: the byte goes to page 1 at SP, then SP decrements.
    #[verifier::opaque]
    pub open spec fn push_spec(self, value: u8) -> NesEmulator {
        let s1 = self.bus_write((0x100 + self.cpu.sp as int) as u16, value);
        s1.with_cpu(Cpu { sp: wrap8(s1.cpu.sp as int - 1), ..s1.cpu })
    }

    /// A pop: SP increments, then the byte at page 1 is read.
    #[verifier::opaque]
    pub open spec fn pop_spec(self) -> (NesEmulator, u8) {
        let sp = wrap8(self.cpu.sp as int + 1);
        self.with_cpu(Cpu { sp: sp, ..self.cpu }).bus_read((0x100 + sp as int) as u16)
    }

    /// Pushes the high byte, then the low byte.
    #[verifier::opaque]
    pub open spec fn push_u16_spec(self, value: u16) -> NesEmulator {
        self.push_spec((value as int / 256) as u8).push_spec((value as int % 256) as u8)
    }

    /// Pops the low byte, then the high byte.
    #[verifier::opaque]
    pub open spec fn pop_u16_spec(self) -> (NesEmulator, u16) {
        let (s1, lo) = self.pop_spec();
        let (s2, hi) = s1.pop_spec();
        (s2, (lo as int + 256 * hi as int) as u16)
    }

    /// An interrupt: PC and the status (B set for BRK only, unused bit set)
    /// are pushed, interrupts are disabled, and PC is loaded from `vector`.
    #[verifier::opaque]
    pub open spec fn interrupt_spec(self, vector: u16, brk: bool) -> NesEmulator {
        let s1 = self.push_u16_spec(self.cpu.pc);
        let p = with_flag(s1.cpu.p | FLAG_U, FLAG_B, brk);
        let s2 = s1.push_spec(p).set_flag_spec(FLAG_I, true);
        let (s3, target) = s2.read_u16_spec(vector);
        s3.set_pc(target)
    }

    /// A branch: the offset is fetched; when `condition` holds PC moves by
    /// the signed offset, taking one more cycle, and another when it lands on
    /// a different page.
    #[verifier::opaque]
    pub open spec fn branch_spec(self, condition: bool) -> (NesEmulator, u16) {
        let (s1, offset) = self.fetch_spec();
        if !condition {
            (s1, 2)
        } else {
            let old_pc = s1.cpu.pc;
            let new_pc = wrap16(old_pc as int + signed_byte(offset));
            (s1.set_pc(new_pc), if crosses_page(old_pc, new_pc) {
                4
            } else {
                3
            })
        }
    }

    /// ORA: `a | value`, then Z and N.
    #[verifier::opaque]
    pub open spec fn ora_spec(self, value: u8) -> NesEmulator {
        let s = self.with_cpu(Cpu { a: self.cpu.a | value, ..self.cpu });
        s.set_zn_spec(s.cpu.a)
    }

    /// AND: `a & value`, then Z and N.
    #[verifier::opaque]
    pub open spec fn and_spec(self, value: u8) -> NesEmulator {
        let s = self.with_cpu(Cpu { a: self.cpu.a & value, ..self.cpu });
        s.set_zn_spec(s.cpu.a)
    }

    /// EOR: `a ^ value`, then Z and N.
    #[verifier::opaque]
    pub open spec fn eor_spec(self, value: u8) -> NesEmulator {
        let s = self.with_cpu(Cpu { a: self.cpu.a ^ value, ..self.cpu });
        s.set_zn_spec(s.cpu.a)
    }

    pub open spec fn alu(self, c: Cpu) -> NesEmulator {
        self.with_cpu(c)
    }

    /// The memory form of a shift/rotate/increment: read, transform, write.
    #[verifier::opaque]
    pub open spec fn rmw_spec(self, addr: u16, op: int) -> NesEmulator {
        let (s1, v) = self.bus_read(addr);
        let c = s1.cpu;
        let (cpu, result) = if op == 0 {
            (shifted_spec(c, asl_value(v), v >= 128), asl_value(v))
        } else if op == 1 {
            (lsr_spec(c, v), lsr_value(v))
        } else if op == 2 {
            (shifted_spec(c, rol_value(c, v), v >= 128), rol_value(c, v))
        } else {
            (shifted_spec(c, ror_value(c, v), v % 2 == 1), ror_value(c, v))
        };
        s1.with_cpu(cpu).bus_write(addr, result)
    }

    /// DEC/INC on memory: read, add `delta` (wrapping), write, then Z and N.
    #[verifier::opaque]
    pub open spec fn step_mem_spec(self, addr: u16, delta: int) -> NesEmulator {
        let (s1, v) = self.bus_read(addr);
        let result = wrap8(v as int + delta);
        s1.bus_write(addr, result).set_zn_spec(result)
    }
}

/// 1 for true, 0 for false.
pub fn u8_from_bool(b: bool) -> (r: u8)
    ensures
        r == (if b {
            1u8
        } else {
            0u8
        }),
{
    if b {
        1
    } else {
        0
    }
}

/// Whether `a` and `b` lie on different pages.
pub fn page_crossed(a: u16, b: u16) -> (crossed: bool)
    ensures
        crossed == crosses_page(a, b),
{
    assert((a & 0xff00) == (b & 0xff00) <==> a / 256 == b / 256) by (bit_vector);
    (a & 0xff00) != (b & 0xff00)
}

impl NesEmulator {
    pub fn fetch_u8(&mut self) -> (value: u8)
        requires
            old(self).wf(),
        ensures
            final(self).wf(),
            (*final(self), value) == old(self).fetch_spec(),
    {
        reveal(NesEmulator::fetch_spec);
        reveal(NesEmulator::bus_read);
        let value = if self.cpu.pc >= 0x8000 {
            self.prg_read(self.cpu.pc)
        } else {
            self.cpu_read(self.cpu.pc)
        };
        self.cpu.pc = self.cpu.pc.wrapping_add(1);
        value
    }

    pub fn fetch_u16(&mut self) -> (value: u16)
        requires
            old(self).wf(),
        ensures
            final(self).wf(),
            (*final(self), value) == old(self).fetch_u16_spec(),
    {
        reveal(NesEmulator::fetch_u16_spec);
        let lo = self.fetch_u8() as u16;
        let hi = self.fetch_u8() as u16;
        proof {
            lemma_word_of_bytes(lo, hi);
        }
        lo | (hi << 8)
    }

    pub fn zp(&mut self) -> (addr: u16)
        requires
            old(self).wf(),
        ensures
            final(self).wf(),
            (*final(self), addr) == old(self).zp_spec(),
    {
        reveal(NesEmulator::zp_spec);
        self.fetch_u8() as u16
    }

    pub fn zpx(&mut self) -> (addr: u16)
        requires
            old(self).wf(),
        ensures
            final(self).wf(),
            (*final(self), addr) == old(self).zpx_spec(),
    {
        reveal(NesEmulator::zpx_spec);
        self.fetch_u8().wrapping_add(self.cpu.x) as u16
    }

    pub fn zpy(&mut self) -> (addr: u16)
        requires
            old(self).wf(),
        ensures
            final(self).wf(),
            (*final(self), addr) == old(self).zpy_spec(),
    {
        reveal(NesEmulator::zpy_spec);
        self.fetch_u8().wrapping_add(self.cpu.y) as u16
    }

    pub fn abs(&mut self) -> (addr: u16)
        requires
            old(self).wf(),
        ensures
            final(self).wf(),
            (*final(self), addr) == old(self).fetch_u16_spec(),
    {
        self.fetch_u16()
    }

    pub fn absx(&mut self) -> (r: (u16, bool))
        requires
            old(self).wf(),
        ensures
            final(self).wf(),
            (*final(self), r.0, r.1) == old(self).absx_spec(),
    {
        reveal(NesEmulator::absx_spec);
        let base = self.fetch_u16();
        let addr = base.wrapping_add(self.cpu.x as u16);
        (addr, page_crossed(base, addr))
    }

    pub fn absy(&mut self) -> (r: (u16, bool))
        requires
            old(self).wf(),
        ensures
            final(self).wf(),
            (*final(self), r.0, r.1) == old(self).absy_spec(),
    {
        reveal(NesEmulator::absy_spec);
        let base = self.fetch_u16();
        let addr = base.wrapping_add(self.cpu.y as u16);
        (addr, page_crossed(base, addr))
    }

    pub fn indx(&mut self) -> (addr: u16)
        requires
            old(self).wf(),
        ensures
            final(self).wf(),
            (*final(self), addr) == old(self).indx_spec(),
    {
        reveal(NesEmulator::indx_spec);
        let ptr = self.fetch_u8().wrapping_add(self.cpu.x);
        let lo = self.cpu_read(ptr as u16) as u16;
        let hi = self.cpu_read(ptr.wrapping_add(1) as u16) as u16;
        proof {
            lemma_word_of_bytes(lo, hi);
        }
        lo | (hi << 8)
    }

    pub fn indy(&mut self) -> (r: (u16, bool))
        requires
            old(self).wf(),
        ensures
            final(self).wf(),
            (*final(self), r.0, r.1) == old(self).indy_spec(),
    {
        reveal(NesEmulator::indy_spec);
        let ptr = self.fetch_u8();
        let lo = self.cpu_read(ptr as u16) as u16;
        let hi = self.cpu_read(ptr.wrapping_add(1) as u16) as u16;
        proof {
            lemma_word_of_bytes(lo, hi);
        }
        let base = lo | (hi << 8);
        let addr = base.wrapping_add(self.cpu.y as u16);
        (addr, page_crossed(base, addr))
    }

    pub fn set_flag(&mut self, flag: u8, value: bool)
        ensures
            old(self).wf() ==> final(self).wf(),
            *final(self) == old(self).set_flag_spec(flag, value),
    {
        reveal(NesEmulator::set_flag_spec);
        if value {
            self.cpu.p |= flag;
        } else {
            self.cpu.p &= !flag;
        }
        self.cpu.p |= FLAG_U;
    }

    pub fn flag(&self, flag: u8) -> (set: bool)
        ensures
            set == (self.cpu.p & flag != 0),
    {
        self.cpu.p & flag != 0
    }

    pub fn set_zn(&mut self, value: u8)
        ensures
            old(self).wf() ==> final(self).wf(),
            *final(self) == old(self).set_zn_spec(value),
    {
        reveal(NesEmulator::set_zn_spec);
        let p0 = self.cpu.p;
        assert(p0 & !(FLAG_Z | FLAG_N) == (p0 & !FLAG_Z) & !FLAG_N && ((p0 & !FLAG_Z) & !FLAG_N) | FLAG_Z
            == ((p0 | FLAG_Z) & !FLAG_N) && (((p0 & !FLAG_Z) & !FLAG_N) | FLAG_Z) | FLAG_N == ((p0
            | FLAG_Z) | FLAG_N) && ((p0 & !FLAG_Z) & !FLAG_N) | FLAG_N == ((p0 & !FLAG_Z) | FLAG_N))
            by (bit_vector);
        proof {
            lemma_byte_bits(value);
        }
        let mut p = self.cpu.p & !(FLAG_Z | FLAG_N);
        if value == 0 {
            p |= FLAG_Z;
        }
        if value & 0x80 != 0 {
            p |= FLAG_N;
        }
        self.cpu.p = p | FLAG_U;
    }

    pub fn push(&mut self, value: u8)
        requires
            old(self).wf(),
        ensures
            final(self).wf(),
            *final(self) == old(self).push_spec(value),
    {
        reveal(NesEmulator::push_spec);
        proof {
            lemma_u16_bits(self.cpu.sp as u16);
        }
        let addr = 0x0100 | self.cpu.sp as u16;
        self.cpu_write(addr, value);
        self.cpu.sp = self.cpu.sp.wrapping_sub(1);
    }

    pub fn pop(&mut self) -> (value: u8)
        requires
            old(self).wf(),
        ensures
            final(self).wf(),
            (*final(self), value) == old(self).pop_spec(),
    {
        reveal(NesEmulator::pop_spec);
        self.cpu.sp = self.cpu.sp.wrapping_add(1);
        proof {
            lemma_u16_bits(self.cpu.sp as u16);
        }
        self.cpu_read(0x0100 | self.cpu.sp as u16)
    }

    pub fn push_u16(&mut self, value: u16)
        requires
            old(self).wf(),
        ensures
            final(self).wf(),
            *final(self) == old(self).push_u16_spec(value),
    {
        reveal(NesEmulator::push_u16_spec);
        proof {
            lemma_u16_bits(value);
        }
        self.push((value >> 8) as u8);
        self.push(value as u8);
    }

    pub fn pop_u16(&mut self) -> (value: u16)
        requires
            old(self).wf(),
        ensures
            final(self).wf(),
            (*final(self), value) == old(self).pop_u16_spec(),
    {
        reveal(NesEmulator::pop_u16_spec);
        let lo = self.pop() as u16;
        let hi = self.pop() as u16;
        proof {
            lemma_word_of_bytes(lo, hi);
        }
        lo | (hi << 8)
    }

    pub fn interrupt(&mut self, vector: u16, brk: bool)
        requires
            old(self).wf(),
        ensures
            final(self).wf(),
            *final(self) == old(self).interrupt_spec(vector, brk),
    {
        reveal(NesEmulator::interrupt_spec);
        self.push_u16(self.cpu.pc);
        let mut p = self.cpu.p | FLAG_U;
        if brk {
            p |= FLAG_B;
        } else {
            p &= !FLAG_B;
        }
        self.push(p);
        self.set_flag(FLAG_I, true);
        self.cpu.pc = self.cpu_read_u16(vector);
    }

    pub fn branch(&mut self, condition: bool) -> (cycles: u16)
        requires
            old(self).wf(),
        ensures
            final(self).wf(),
            (*final(self), cycles) == old(self).branch_spec(condition),
            cycles >= 2,
    {
        reveal(NesEmulator::branch_spec);
        let offset_byte = self.fetch_u8();
        let offset = offset_byte as i8;
        if !condition {
            return 2;
        }
        let old_pc = self.cpu.pc;
        let ob = offset;
        assert(offset == signed_byte(offset_byte) && old_pc.wrapping_add(ob as i16 as u16) == wrap16(old_pc as int
            + ob as int)) by (bit_vector)
            requires
                offset == offset_byte as i8,
                ob == offset,
        ;
        self.cpu.pc = self.cpu.pc.wrapping_add(offset as i16 as u16);
        3 + page_crossed(old_pc, self.cpu.pc) as u16
    }

    pub fn adc(&mut self, value: u8)
        ensures
            *final(self) == old(self).alu(adc_spec(old(self).cpu, value)),
    {
        let carry = u8_from_bool(self.flag(FLAG_C));
        let a = self.cpu.a;
        let sum = a as u16 + value as u16 + carry as u16;
        let result = sum as u8;
        self.cpu.a = result;
        let p0 = self.cpu.p;
        let c_on = sum > 0xff;
        let v_on = (!(a ^ value) & (a ^ result) & 0x80) != 0;
        let z_on = result == 0;
        let n_on = result & 0x80 != 0;
        assert(v_on == (signed_byte(a) + signed_byte(value) + carry < -128 || signed_byte(a)
            + signed_byte(value) + carry > 127) && result == sum % 256 && n_on == (result >= 128)) by (bit_vector)
            requires
                carry < 2,
                sum == a as u16 + value as u16 + carry as u16,
                result == sum as u8,
                v_on == ((!(a ^ value) & (a ^ result) & 0x80) != 0),
                n_on == (result & 0x80 != 0),
        ;
        let mut p = self.cpu.p & !(FLAG_C | FLAG_V | FLAG_Z | FLAG_N);
        let ghost p1 = p;
        if c_on {
            p |= FLAG_C;
        }
        let ghost p2 = p;
        if v_on {
            p |= FLAG_V;
        }
        let ghost p3 = p;
        if z_on {
            p |= FLAG_Z;
        }
        let ghost p4 = p;
        if n_on {
            p |= FLAG_N;
        }
        assert(p | FLAG_U == with_flag(
            with_flag(with_flag(with_flag(p0, FLAG_C, c_on), FLAG_V, v_on), FLAG_Z, z_on),
            FLAG_N,
            n_on,
        ) | FLAG_U) by (bit_vector)
            requires
                p1 == p0 & !(FLAG_C | FLAG_V | FLAG_Z | FLAG_N),
                p2 == (if c_on {
                    p1 | FLAG_C
                } else {
                    p1
                }),
                p3 == (if v_on {
                    p2 | FLAG_V
                } else {
                    p2
                }),
                p4 == (if z_on {
                    p3 | FLAG_Z
                } else {
                    p3
                }),
                p == (if n_on {
                    p4 | FLAG_N
                } else {
                    p4
                }),
        ;
        self.cpu.p = p | FLAG_U;
    }

    pub fn sbc(&mut self, value: u8)
        ensures
            *final(self) == old(self).alu(adc_spec(old(self).cpu, !value)),
    {
        self.adc(!value);
    }

    /// Sets C, Z and N from a comparison or shift; keeps the other flags.
    fn set_czn(&mut self, c_on: bool, result: u8)
        ensures
            *final(self) == old(self).alu(shifted_spec(old(self).cpu, result, c_on)),
    {
        let p0 = self.cpu.p;
        let z_on = result == 0;
        let n_on = result & 0x80 != 0;
        proof {
            lemma_byte_bits(result);
        }
        let mut p = self.cpu.p & !(FLAG_C | FLAG_Z | FLAG_N);
        let ghost p1 = p;
        if c_on {
            p |= FLAG_C;
        }
        let ghost p2 = p;
        if z_on {
            p |= FLAG_Z;
        }
        let ghost p3 = p;
        if n_on {
            p |= FLAG_N;
        }
        assert(p | FLAG_U == with_flag(with_flag(with_flag(p0, FLAG_C, c_on), FLAG_Z, z_on), FLAG_N, n_on)
            | FLAG_U) by (bit_vector)
            requires
                p1 == p0 & !(FLAG_C | FLAG_Z | FLAG_N),
                p2 == (if c_on {
                    p1 | FLAG_C
                } else {
                    p1
                }),
                p3 == (if z_on {
                    p2 | FLAG_Z
                } else {
                    p2
                }),
                p == (if n_on {
                    p3 | FLAG_N
                } else {
                    p3
                }),
        ;
        self.cpu.p = p | FLAG_U;
    }

    pub fn compare(&mut self, reg: u8, value: u8)
        ensures
            *final(self) == old(self).alu(compare_spec(old(self).cpu, reg, value)),
    {
        let result = reg.wrapping_sub(value);
        self.set_czn(reg >= value, result);
    }

    pub fn ora(&mut self, value: u8)
        ensures
            old(self).wf() ==> final(self).wf(),
            *final(self) == old(self).ora_spec(value),
    {
        reveal(NesEmulator::ora_spec);
        self.cpu.a |= value;
        self.set_zn(self.cpu.a);
    }

    pub fn and(&mut self, value: u8)
        ensures
            old(self).wf() ==> final(self).wf(),
            *final(self) == old(self).and_spec(value),
    {
        reveal(NesEmulator::and_spec);
        self.cpu.a &= value;
        self.set_zn(self.cpu.a);
    }

    pub fn eor(&mut self, value: u8)
        ensures
            old(self).wf() ==> final(self).wf(),
            *final(self) == old(self).eor_spec(value),
    {
        reveal(NesEmulator::eor_spec);
        self.cpu.a ^= value;
        self.set_zn(self.cpu.a);
    }

    pub fn bit(&mut self, value: u8)
        ensures
            *final(self) == old(self).alu(bit_spec(old(self).cpu, value)),
    {
        let p0 = self.cpu.p;
        let z_on = self.cpu.a & value == 0;
        let mut p = self.cpu.p & !(FLAG_Z | FLAG_V | FLAG_N);
        let ghost p1 = p;
        if z_on {
            p |= FLAG_Z;
        }
        let ghost p2 = p;
        p |= value & (FLAG_V | FLAG_N);
        assert(p | FLAG_U == with_flag(
            with_flag(with_flag(p0, FLAG_Z, z_on), FLAG_V, value & 0x40 != 0),
            FLAG_N,
            value & 0x80 != 0,
        ) | FLAG_U) by (bit_vector)
            requires
                p1 == p0 & !(FLAG_Z | FLAG_V | FLAG_N),
                p2 == (if z_on {
                    p1 | FLAG_Z
                } else {
                    p1
                }),
                p == p2 | (value & (FLAG_V | FLAG_N)),
        ;
        self.cpu.p = p | FLAG_U;
    }

    pub fn asl(&mut self, value: u8) -> (result: u8)
        ensures
            result == asl_value(value),
            *final(self) == old(self).alu(shifted_spec(old(self).cpu, result, value >= 128)),
    {
        let result = value << 1;
        proof {
            lemma_byte_bits(value);
        }
        self.set_czn(value & 0x80 != 0, result);
        result
    }

    pub fn lsr(&mut self, value: u8) -> (result: u8)
        ensures
            result == lsr_value(value),
            *final(self) == old(self).alu(lsr_spec(old(self).cpu, value)),
    {
        let result = value >> 1;
        proof {
            lemma_byte_bits(value);
        }
        self.set_czn(value & 1 != 0, result);
        result
    }

    pub fn rol(&mut self, value: u8) -> (result: u8)
        ensures
            result == rol_value(old(self).cpu, value),
            *final(self) == old(self).alu(shifted_spec(old(self).cpu, result, value >= 128)),
    {
        let carry = u8_from_bool(self.flag(FLAG_C));
        let result = (value << 1) | carry;
        assert(result == wrap8(value as int * 2 + carry as int)) by (bit_vector)
            requires
                result == (value << 1u8) | carry,
                carry < 2,
        ;
        proof {
            lemma_byte_bits(value);
        }
        self.set_czn(value & 0x80 != 0, result);
        result
    }

    pub fn ror(&mut self, value: u8) -> (result: u8)
        ensures
            result == ror_value(old(self).cpu, value),
            *final(self) == old(self).alu(shifted_spec(old(self).cpu, result, value % 2 == 1)),
    {
        let carry: u8 = if self.flag(FLAG_C) {
            0x80
        } else {
            0
        };
        let result = (value >> 1) | carry;
        assert(result == value / 2 + carry) by (bit_vector)
            requires
                result == (value >> 1u8) | carry,
                carry == 0 || carry == 0x80,
        ;
        proof {
            lemma_byte_bits(value);
        }
        self.set_czn(value & 1 != 0, result);
        result
    }

    pub fn asl_mem(&mut self, addr: u16)
        requires
            old(self).wf(),
        ensures
            final(self).wf(),
            *final(self) == old(self).rmw_spec(addr, 0),
    {
        reveal(NesEmulator::rmw_spec);
        let value = self.cpu_read(addr);
        let result = self.asl(value);
        self.cpu_write(addr, result);
    }

    pub fn lsr_mem(&mut self, addr: u16)
        requires
            old(self).wf(),
        ensures
            final(self).wf(),
            *final(self) == old(self).rmw_spec(addr, 1),
    {
        reveal(NesEmulator::rmw_spec);
        let value = self.cpu_read(addr);
        let result = self.lsr(value);
        self.cpu_write(addr, result);
    }

    pub fn rol_mem(&mut self, addr: u16)
        requires
            old(self).wf(),
        ensures
            final(self).wf(),
            *final(self) == old(self).rmw_spec(addr, 2),
    {
        reveal(NesEmulator::rmw_spec);
        let value = self.cpu_read(addr);
        let result = self.rol(value);
        self.cpu_write(addr, result);
    }

    pub fn ror_mem(&mut self, addr: u16)
        requires
            old(self).wf(),
        ensures
            final(self).wf(),
            *final(self) == old(self).rmw_spec(addr, 3),
    {
        reveal(NesEmulator::rmw_spec);
        let value = self.cpu_read(addr);
        let result = self.ror(value);
        self.cpu_write(addr, result);
    }

    pub fn dec_mem(&mut self, addr: u16)
        requires
            old(self).wf(),
        ensures
            final(self).wf(),
            *final(self) == old(self).step_mem_spec(addr, -1),
    {
        reveal(NesEmulator::step_mem_spec);
        let result = self.cpu_read(addr).wrapping_sub(1);
        self.cpu_write(addr, result);
        self.set_zn(result);
    }

    pub fn inc_mem(&mut self, addr: u16)
        requires
            old(self).wf(),
        ensures
            final(self).wf(),
            *final(self) == old(self).step_mem_spec(addr, 1),
    {
        reveal(NesEmulator::step_mem_spec);
        let result = self.cpu_read(addr).wrapping_add(1);
        self.cpu_write(addr, result);
        self.set_zn(result);
    }
}


/// ROR undoes ROL: rotating right what a left rotation gave returns the
/// original byte, with the carry it started with, and leaves the status as
/// loading that byte with that carry would (Z and N of the byte, U set,
/// every other flag as before the ROL).
pub proof fn lemma_ror_undoes_rol(c: Cpu, value: u8)
    ensures
        ({
            let r = rol_value(c, value);
            let c1 = shifted_spec(c, r, value >= 128);
            &&& ror_value(c1, r) == value
            &&& shifted_spec(c1, ror_value(c1, r), r % 2 == 1) == shifted_spec(c, value, carry_of(c) == 1)
        }),
{
    let p = c.p;
    let r = rol_value(c, value);
    let cin: u8 = if carry_of(c) == 1 { 1 } else { 0 };
    assert(r == wrap8(value as int * 2 + cin as int));
    assert(wrap8(value as int * 2 + cin as int) == ((value as int * 2 + cin as int) % 256) as u8);
    let p1 = with_flag(with_flag(with_flag(p, FLAG_C, value >= 128), FLAG_Z, r == 0), FLAG_N, r >= 128) | FLAG_U;
    assert(((p1 & 1 != 0) <==> value >= 128) && (r % 2 == 1 <==> cin == 1) && r / 2 + 128 * (if value >= 128 {
        1int
    } else {
        0int
    }) == value && with_flag(with_flag(with_flag(p1, FLAG_C, r % 2 == 1), FLAG_Z, value == 0), FLAG_N, value >= 128)
        | FLAG_U == with_flag(with_flag(with_flag(p, FLAG_C, cin == 1), FLAG_Z, value == 0), FLAG_N, value >= 128)
        | FLAG_U) by (bit_vector)
        requires
            cin < 2,
            r == ((value as int * 2 + cin as int) % 256) as u8,
            p1 == with_flag(with_flag(with_flag(p, FLAG_C, value >= 128), FLAG_Z, r == 0), FLAG_N, r >= 128) | FLAG_U,
    ;
}

impl NesEmulator {
    /// A pop gives back what the push before it pushed, and leaves the
    /// registers as they were before the push.
    pub proof fn lemma_push_then_pop(self, value: u8)
        ensures
            self.push_spec(value).pop_spec().1 == value,
            self.push_spec(value).pop_spec().0.cpu == self.cpu,
    {
        reveal(NesEmulator::push_spec);
        reveal(NesEmulator::pop_spec);
        reveal(NesEmulator::bus_read);
        reveal(NesEmulator::bus_write);
        let sp = self.cpu.sp;
        let pushed = self.push_spec(value);
        assert(pushed.cpu.sp == wrap8(sp as int - 1));
        assert(wrap8(pushed.cpu.sp as int + 1) == sp);
        let idx = (0x100 + sp as int) % 0x800;
        assert(pushed.ram[idx] == value);
    }

    /// Pulling a word gives back the word pushed before it, and leaves the
    /// registers as they were before the push.
    #[verifier::spinoff_prover]
    #[verifier::rlimit(60)]
    pub proof fn lemma_push_then_pop_u16(self, value: u16)
        ensures
            self.push_u16_spec(value).pop_u16_spec().1 == value,
            self.push_u16_spec(value).pop_u16_spec().0.cpu == self.cpu,
    {
        reveal(NesEmulator::push_u16_spec);
        reveal(NesEmulator::pop_u16_spec);
        reveal(NesEmulator::push_spec);
        reveal(NesEmulator::pop_spec);
        reveal(NesEmulator::bus_read);
        reveal(NesEmulator::bus_write);
        let hi = (value as int / 256) as u8;
        let lo = (value as int % 256) as u8;
        let s1 = self.push_spec(hi);
        let s2 = s1.push_spec(lo);
        let sp = self.cpu.sp;
        assert(wrap8(wrap8(sp as int - 1) as int - 1) as int + 1 == wrap8(sp as int - 1) as int + 0
            || wrap8(wrap8(sp as int - 1) as int - 1) as int + 1 == 256);
        let (p1, a) = s2.pop_spec();
        let (p2, b) = p1.pop_spec();
        assert(p1.cpu.sp == s1.cpu.sp);
        assert(a == lo);
        assert(p2.cpu.sp == sp);
        let i_hi = (0x100 + sp as int) % 0x800;
        let i_lo = (0x100 + s1.cpu.sp as int) % 0x800;
        assert(i_hi != i_lo);
        assert(b == hi);
    }
}

} // verus!
