use vstd::prelude::*;

use crate::cpu::{
    adc_spec, asl_value, bit_spec, compare_spec, lsr_spec, lsr_value, rol_value, ror_value,
    shifted_spec,
};
use crate::emulator::{
    Cpu, NesEmulator, FLAG_B, FLAG_C, FLAG_D, FLAG_I, FLAG_N, FLAG_U, FLAG_V, FLAG_Z,
};
use crate::ppu::{wrap16, wrap8};

use crate::bits::{lemma_byte_bits, lemma_word_of_bytes};

verus! {

/// The address JMP (indirect) takes the high byte of its target from: the
/// byte after `ptr`, without carrying into the page (the 6502 page bug).
pub open spec fn jmp_indirect_high(ptr: u16) -> u16 {
    ((ptr as int / 256) * 256 + (ptr as int + 1) % 256) as u16
}

pub proof fn lemma_jmp_indirect_high(ptr: u16, hi_addr: u16)
    requires
        hi_addr == (ptr & 0xff00) | ptr.wrapping_add(1) & 0x00ff,
    ensures
        hi_addr == jmp_indirect_high(ptr),
{
    assert((ptr & 0xff00) | (ptr.wrapping_add(1) & 0x00ff) == ((ptr / 256) * 256 + (ptr + 1) % 256)
        as u16) by (bit_vector);
}


impl NesEmulator {
    /// The effect of the instruction `opcode`, whose opcode byte has been
    /// fetched, and its base cycle count (page crossings and taken branches
    /// included). Opcodes outside the official set take 2 cycles and do
    /// nothing.
    #[verifier::opaque]
    pub open spec fn execute_spec(self, opcode: u8) -> (NesEmulator, u16) {
        let row = opcode / 16;
        if row == 0 {
            self.row_0_spec(opcode)
        } else if row == 1 {
            self.row_1_spec(opcode)
        } else if row == 2 {
            self.row_2_spec(opcode)
        } else if row == 3 {
            self.row_3_spec(opcode)
        } else if row == 4 {
            self.row_4_spec(opcode)
        } else if row == 5 {
            self.row_5_spec(opcode)
        } else if row == 6 {
            self.row_6_spec(opcode)
        } else if row == 7 {
            self.row_7_spec(opcode)
        } else if row == 8 {
            self.row_8_spec(opcode)
        } else if row == 9 {
            self.row_9_spec(opcode)
        } else if row == 10 {
            self.row_a_spec(opcode)
        } else if row == 11 {
            self.row_b_spec(opcode)
        } else if row == 12 {
            self.row_c_spec(opcode)
        } else if row == 13 {
            self.row_d_spec(opcode)
        } else if row == 14 {
            self.row_e_spec(opcode)
        } else {
            self.row_f_spec(opcode)
        }
    }

    /// The instructions whose opcodes are `0x00..=0x0f`.
    pub open spec fn row_0_spec(self, opcode: u8) -> (NesEmulator, u16) {
        match opcode {
            0x00 => (self.set_pc(self.cpu.pc.wrapping_add(1)).interrupt_spec(0xfffe, true), 7),
            0x01 => {
                let (s1, a) = self.indx_spec();
                let (s2, v) = s1.bus_read(a);
                (s2.ora_spec(v), 6)
            },
            0x05 => {
                let (s1, a) = self.zp_spec();
                let (s2, v) = s1.bus_read(a);
                (s2.ora_spec(v), 3)
            },
            0x06 => {
                let (s1, a) = self.zp_spec();
                (s1.rmw_spec(a, 0), 5)
            },
            0x08 => (self.push_spec(self.cpu.p | FLAG_B | FLAG_U), 3),
            0x09 => {
                let (s1, v) = self.fetch_spec();
                (s1.ora_spec(v), 2)
            },
            0x0a => {
                let r = asl_value(self.cpu.a);
                let s1 = self.alu(shifted_spec(self.cpu, r, self.cpu.a >= 128));
                (s1.with_cpu(Cpu { a: r, ..s1.cpu }), 2)
            },
            0x0d => {
                let (s1, a) = self.fetch_u16_spec();
                let (s2, v) = s1.bus_read(a);
                (s2.ora_spec(v), 4)
            },
            0x0e => {
                let (s1, a) = self.fetch_u16_spec();
                (s1.rmw_spec(a, 0), 6)
            },
            _ => (self, 2),
        }
    }

    /// The instructions whose opcodes are `0x10..=0x1f`.
    pub open spec fn row_1_spec(self, opcode: u8) -> (NesEmulator, u16) {
        match opcode {
            0x10 => self.branch_spec(self.cpu.p & FLAG_N == 0),
            0x11 => {
                let (s1, a, crossed) = self.indy_spec();
                let (s2, v) = s1.bus_read(a);
                (s2.ora_spec(v), if crossed { 6 } else { 5 })
            },
            0x15 => {
                let (s1, a) = self.zpx_spec();
                let (s2, v) = s1.bus_read(a);
                (s2.ora_spec(v), 4)
            },
            0x16 => {
                let (s1, a) = self.zpx_spec();
                (s1.rmw_spec(a, 0), 6)
            },
            0x18 => (self.set_flag_spec(FLAG_C, false), 2),
            0x19 => {
                let (s1, a, crossed) = self.absy_spec();
                let (s2, v) = s1.bus_read(a);
                (s2.ora_spec(v), if crossed { 5 } else { 4 })
            },
            0x1d => {
                let (s1, a, crossed) = self.absx_spec();
                let (s2, v) = s1.bus_read(a);
                (s2.ora_spec(v), if crossed { 5 } else { 4 })
            },
            0x1e => {
                let (s1, a, _crossed) = self.absx_spec();
                (s1.rmw_spec(a, 0), 7)
            },
            _ => (self, 2),
        }
    }

    /// The instructions whose opcodes are `0x20..=0x2f`.
    pub open spec fn row_2_spec(self, opcode: u8) -> (NesEmulator, u16) {
        match opcode {
            0x20 => {
                let (s1, a) = self.fetch_u16_spec();
                (s1.push_u16_spec(s1.cpu.pc.wrapping_sub(1)).set_pc(a), 6)
            },
            0x21 => {
                let (s1, a) = self.indx_spec();
                let (s2, v) = s1.bus_read(a);
                (s2.and_spec(v), 6)
            },
            0x24 => {
                let (s1, a) = self.zp_spec();
                let (s2, v) = s1.bus_read(a);
                (s2.alu(bit_spec(s2.cpu, v)), 3)
            },
            0x25 => {
                let (s1, a) = self.zp_spec();
                let (s2, v) = s1.bus_read(a);
                (s2.and_spec(v), 3)
            },
            0x26 => {
                let (s1, a) = self.zp_spec();
                (s1.rmw_spec(a, 2), 5)
            },
            0x28 => {
                let (s1, v) = self.pop_spec();
                (s1.with_cpu(Cpu { p: (v & !FLAG_B) | FLAG_U, ..s1.cpu }), 4)
            },
            0x29 => {
                let (s1, v) = self.fetch_spec();
                (s1.and_spec(v), 2)
            },
            0x2a => {
                let r = rol_value(self.cpu, self.cpu.a);
                let s1 = self.alu(shifted_spec(self.cpu, r, self.cpu.a >= 128));
                (s1.with_cpu(Cpu { a: r, ..s1.cpu }), 2)
            },
            0x2c => {
                let (s1, a) = self.fetch_u16_spec();
                let (s2, v) = s1.bus_read(a);
                (s2.alu(bit_spec(s2.cpu, v)), 4)
            },
            0x2d => {
                let (s1, a) = self.fetch_u16_spec();
                let (s2, v) = s1.bus_read(a);
                (s2.and_spec(v), 4)
            },
            0x2e => {
                let (s1, a) = self.fetch_u16_spec();
                (s1.rmw_spec(a, 2), 6)
            },
            _ => (self, 2),
        }
    }

    /// The instructions whose opcodes are `0x30..=0x3f`.
    pub open spec fn row_3_spec(self, opcode: u8) -> (NesEmulator, u16) {
        match opcode {
            0x30 => self.branch_spec(self.cpu.p & FLAG_N != 0),
            0x31 => {
                let (s1, a, crossed) = self.indy_spec();
                let (s2, v) = s1.bus_read(a);
                (s2.and_spec(v), if crossed { 6 } else { 5 })
            },
            0x35 => {
                let (s1, a) = self.zpx_spec();
                let (s2, v) = s1.bus_read(a);
                (s2.and_spec(v), 4)
            },
            0x36 => {
                let (s1, a) = self.zpx_spec();
                (s1.rmw_spec(a, 2), 6)
            },
            0x38 => (self.set_flag_spec(FLAG_C, true), 2),
            0x39 => {
                let (s1, a, crossed) = self.absy_spec();
                let (s2, v) = s1.bus_read(a);
                (s2.and_spec(v), if crossed { 5 } else { 4 })
            },
            0x3d => {
                let (s1, a, crossed) = self.absx_spec();
                let (s2, v) = s1.bus_read(a);
                (s2.and_spec(v), if crossed { 5 } else { 4 })
            },
            0x3e => {
                let (s1, a, _crossed) = self.absx_spec();
                (s1.rmw_spec(a, 2), 7)
            },
            _ => (self, 2),
        }
    }

    /// The instructions whose opcodes are `0x40..=0x4f`.
    pub open spec fn row_4_spec(self, opcode: u8) -> (NesEmulator, u16) {
        match opcode {
            0x40 => {
                let (s1, v) = self.pop_spec();
                let s2 = s1.with_cpu(Cpu { p: (v & !FLAG_B) | FLAG_U, ..s1.cpu });
                let (s3, pc) = s2.pop_u16_spec();
                (s3.set_pc(pc), 6)
            },
            0x41 => {
                let (s1, a) = self.indx_spec();
                let (s2, v) = s1.bus_read(a);
                (s2.eor_spec(v), 6)
            },
            0x45 => {
                let (s1, a) = self.zp_spec();
                let (s2, v) = s1.bus_read(a);
                (s2.eor_spec(v), 3)
            },
            0x46 => {
                let (s1, a) = self.zp_spec();
                (s1.rmw_spec(a, 1), 5)
            },
            0x48 => (self.push_spec(self.cpu.a), 3),
            0x49 => {
                let (s1, v) = self.fetch_spec();
                (s1.eor_spec(v), 2)
            },
            0x4a => {
                let r = lsr_value(self.cpu.a);
                let s1 = self.alu(lsr_spec(self.cpu, self.cpu.a));
                (s1.with_cpu(Cpu { a: r, ..s1.cpu }), 2)
            },
            0x4c => {
                let (s1, a) = self.fetch_u16_spec();
                (s1.set_pc(a), 3)
            },
            0x4d => {
                let (s1, a) = self.fetch_u16_spec();
                let (s2, v) = s1.bus_read(a);
                (s2.eor_spec(v), 4)
            },
            0x4e => {
                let (s1, a) = self.fetch_u16_spec();
                (s1.rmw_spec(a, 1), 6)
            },
            _ => (self, 2),
        }
    }

    /// The instructions whose opcodes are `0x50..=0x5f`.
    pub open spec fn row_5_spec(self, opcode: u8) -> (NesEmulator, u16) {
        match opcode {
            0x50 => self.branch_spec(self.cpu.p & FLAG_V == 0),
            0x51 => {
                let (s1, a, crossed) = self.indy_spec();
                let (s2, v) = s1.bus_read(a);
                (s2.eor_spec(v), if crossed { 6 } else { 5 })
            },
            0x55 => {
                let (s1, a) = self.zpx_spec();
                let (s2, v) = s1.bus_read(a);
                (s2.eor_spec(v), 4)
            },
            0x56 => {
                let (s1, a) = self.zpx_spec();
                (s1.rmw_spec(a, 1), 6)
            },
            0x58 => (self.set_flag_spec(FLAG_I, false), 2),
            0x59 => {
                let (s1, a, crossed) = self.absy_spec();
                let (s2, v) = s1.bus_read(a);
                (s2.eor_spec(v), if crossed { 5 } else { 4 })
            },
            0x5d => {
                let (s1, a, crossed) = self.absx_spec();
                let (s2, v) = s1.bus_read(a);
                (s2.eor_spec(v), if crossed { 5 } else { 4 })
            },
            0x5e => {
                let (s1, a, _crossed) = self.absx_spec();
                (s1.rmw_spec(a, 1), 7)
            },
            _ => (self, 2),
        }
    }

    /// The instructions whose opcodes are `0x60..=0x6f`.
    pub open spec fn row_6_spec(self, opcode: u8) -> (NesEmulator, u16) {
        match opcode {
            0x60 => {
                let (s1, pc) = self.pop_u16_spec();
                (s1.set_pc(pc.wrapping_add(1)), 6)
            },
            0x61 => {
                let (s1, a) = self.indx_spec();
                let (s2, v) = s1.bus_read(a);
                (s2.alu(adc_spec(s2.cpu, v)), 6)
            },
            0x65 => {
                let (s1, a) = self.zp_spec();
                let (s2, v) = s1.bus_read(a);
                (s2.alu(adc_spec(s2.cpu, v)), 3)
            },
            0x66 => {
                let (s1, a) = self.zp_spec();
                (s1.rmw_spec(a, 3), 5)
            },
            0x68 => {
                let (s1, v) = self.pop_spec();
                let s2 = s1.with_cpu(Cpu { a: v, ..s1.cpu });
                (s2.set_zn_spec(s2.cpu.a), 4)
            },
            0x69 => {
                let (s1, v) = self.fetch_spec();
                (s1.alu(adc_spec(s1.cpu, v)), 2)
            },
            0x6a => {
                let r = ror_value(self.cpu, self.cpu.a);
                let s1 = self.alu(shifted_spec(self.cpu, r, self.cpu.a % 2 == 1));
                (s1.with_cpu(Cpu { a: r, ..s1.cpu }), 2)
            },
            0x6c => {
                let (s1, ptr) = self.fetch_u16_spec();
                let (s2, lo) = s1.bus_read(ptr);
                let (s3, hi) = s2.bus_read(jmp_indirect_high(ptr));
                (s3.set_pc((lo as int + 256 * hi as int) as u16), 5)
            },
            0x6d => {
                let (s1, a) = self.fetch_u16_spec();
                let (s2, v) = s1.bus_read(a);
                (s2.alu(adc_spec(s2.cpu, v)), 4)
            },
            0x6e => {
                let (s1, a) = self.fetch_u16_spec();
                (s1.rmw_spec(a, 3), 6)
            },
            _ => (self, 2),
        }
    }

    /// The instructions whose opcodes are `0x70..=0x7f`.
    pub open spec fn row_7_spec(self, opcode: u8) -> (NesEmulator, u16) {
        match opcode {
            0x70 => self.branch_spec(self.cpu.p & FLAG_V != 0),
            0x71 => {
                let (s1, a, crossed) = self.indy_spec();
                let (s2, v) = s1.bus_read(a);
                (s2.alu(adc_spec(s2.cpu, v)), if crossed { 6 } else { 5 })
            },
            0x75 => {
                let (s1, a) = self.zpx_spec();
                let (s2, v) = s1.bus_read(a);
                (s2.alu(adc_spec(s2.cpu, v)), 4)
            },
            0x76 => {
                let (s1, a) = self.zpx_spec();
                (s1.rmw_spec(a, 3), 6)
            },
            0x78 => (self.set_flag_spec(FLAG_I, true), 2),
            0x79 => {
                let (s1, a, crossed) = self.absy_spec();
                let (s2, v) = s1.bus_read(a);
                (s2.alu(adc_spec(s2.cpu, v)), if crossed { 5 } else { 4 })
            },
            0x7d => {
                let (s1, a, crossed) = self.absx_spec();
                let (s2, v) = s1.bus_read(a);
                (s2.alu(adc_spec(s2.cpu, v)), if crossed { 5 } else { 4 })
            },
            0x7e => {
                let (s1, a, _crossed) = self.absx_spec();
                (s1.rmw_spec(a, 3), 7)
            },
            _ => (self, 2),
        }
    }

    /// The instructions whose opcodes are `0x80..=0x8f`.
    pub open spec fn row_8_spec(self, opcode: u8) -> (NesEmulator, u16) {
        match opcode {
            0x81 => {
                let (s1, a) = self.indx_spec();
                (s1.bus_write(a, s1.cpu.a), 6)
            },
            0x84 => {
                let (s1, a) = self.zp_spec();
                (s1.bus_write(a, s1.cpu.y), 3)
            },
            0x85 => {
                let (s1, a) = self.zp_spec();
                (s1.bus_write(a, s1.cpu.a), 3)
            },
            0x86 => {
                let (s1, a) = self.zp_spec();
                (s1.bus_write(a, s1.cpu.x), 3)
            },
            0x88 => {
                let s1 = self.with_cpu(Cpu { y: self.cpu.y.wrapping_sub(1), ..self.cpu });
                (s1.set_zn_spec(s1.cpu.y), 2)
            },
            0x8a => {
                let s1 = self.with_cpu(Cpu { a: self.cpu.x, ..self.cpu });
                (s1.set_zn_spec(s1.cpu.a), 2)
            },
            0x8c => {
                let (s1, a) = self.fetch_u16_spec();
                (s1.bus_write(a, s1.cpu.y), 4)
            },
            0x8d => {
                let (s1, a) = self.fetch_u16_spec();
                (s1.bus_write(a, s1.cpu.a), 4)
            },
            0x8e => {
                let (s1, a) = self.fetch_u16_spec();
                (s1.bus_write(a, s1.cpu.x), 4)
            },
            _ => (self, 2),
        }
    }

    /// The instructions whose opcodes are `0x90..=0x9f`.
    pub open spec fn row_9_spec(self, opcode: u8) -> (NesEmulator, u16) {
        match opcode {
            0x90 => self.branch_spec(self.cpu.p & FLAG_C == 0),
            0x91 => {
                let (s1, a, _crossed) = self.indy_spec();
                (s1.bus_write(a, s1.cpu.a), 6)
            },
            0x94 => {
                let (s1, a) = self.zpx_spec();
                (s1.bus_write(a, s1.cpu.y), 4)
            },
            0x95 => {
                let (s1, a) = self.zpx_spec();
                (s1.bus_write(a, s1.cpu.a), 4)
            },
            0x96 => {
                let (s1, a) = self.zpy_spec();
                (s1.bus_write(a, s1.cpu.x), 4)
            },
            0x98 => {
                let s1 = self.with_cpu(Cpu { a: self.cpu.y, ..self.cpu });
                (s1.set_zn_spec(s1.cpu.a), 2)
            },
            0x99 => {
                let (s1, a, _crossed) = self.absy_spec();
                (s1.bus_write(a, s1.cpu.a), 5)
            },
            0x9a => (self.with_cpu(Cpu { sp: self.cpu.x, ..self.cpu }), 2),
            0x9d => {
                let (s1, a, _crossed) = self.absx_spec();
                (s1.bus_write(a, s1.cpu.a), 5)
            },
            _ => (self, 2),
        }
    }

    /// The instructions whose opcodes are `0xa0..=0xaf`.
    pub open spec fn row_a_spec(self, opcode: u8) -> (NesEmulator, u16) {
        match opcode {
            0xa0 => {
                let (s1, v) = self.fetch_spec();
                (s1.with_cpu(Cpu { y: v, ..s1.cpu }).set_zn_spec(v), 2)
            },
            0xa1 => {
                let (s1, a) = self.indx_spec();
                let (s2, v) = s1.bus_read(a);
                (s2.with_cpu(Cpu { a: v, ..s2.cpu }).set_zn_spec(v), 6)
            },
            0xa2 => {
                let (s1, v) = self.fetch_spec();
                (s1.with_cpu(Cpu { x: v, ..s1.cpu }).set_zn_spec(v), 2)
            },
            0xa4 => {
                let (s1, a) = self.zp_spec();
                let (s2, v) = s1.bus_read(a);
                (s2.with_cpu(Cpu { y: v, ..s2.cpu }).set_zn_spec(v), 3)
            },
            0xa5 => {
                let (s1, a) = self.zp_spec();
                let (s2, v) = s1.bus_read(a);
                (s2.with_cpu(Cpu { a: v, ..s2.cpu }).set_zn_spec(v), 3)
            },
            0xa6 => {
                let (s1, a) = self.zp_spec();
                let (s2, v) = s1.bus_read(a);
                (s2.with_cpu(Cpu { x: v, ..s2.cpu }).set_zn_spec(v), 3)
            },
            0xa8 => {
                let s1 = self.with_cpu(Cpu { y: self.cpu.a, ..self.cpu });
                (s1.set_zn_spec(s1.cpu.y), 2)
            },
            0xa9 => {
                let (s1, v) = self.fetch_spec();
                (s1.with_cpu(Cpu { a: v, ..s1.cpu }).set_zn_spec(v), 2)
            },
            0xaa => {
                let s1 = self.with_cpu(Cpu { x: self.cpu.a, ..self.cpu });
                (s1.set_zn_spec(s1.cpu.x), 2)
            },
            0xac => {
                let (s1, a) = self.fetch_u16_spec();
                let (s2, v) = s1.bus_read(a);
                (s2.with_cpu(Cpu { y: v, ..s2.cpu }).set_zn_spec(v), 4)
            },
            0xad => {
                let (s1, a) = self.fetch_u16_spec();
                let (s2, v) = s1.bus_read(a);
                (s2.with_cpu(Cpu { a: v, ..s2.cpu }).set_zn_spec(v), 4)
            },
            0xae => {
                let (s1, a) = self.fetch_u16_spec();
                let (s2, v) = s1.bus_read(a);
                (s2.with_cpu(Cpu { x: v, ..s2.cpu }).set_zn_spec(v), 4)
            },
            _ => (self, 2),
        }
    }

    /// The instructions whose opcodes are `0xb0..=0xbf`.
    pub open spec fn row_b_spec(self, opcode: u8) -> (NesEmulator, u16) {
        match opcode {
            0xb0 => self.branch_spec(self.cpu.p & FLAG_C != 0),
            0xb1 => {
                let (s1, a, crossed) = self.indy_spec();
                let (s2, v) = s1.bus_read(a);
                (s2.with_cpu(Cpu { a: v, ..s2.cpu }).set_zn_spec(v), if crossed { 6 } else { 5 })
            },
            0xb4 => {
                let (s1, a) = self.zpx_spec();
                let (s2, v) = s1.bus_read(a);
                (s2.with_cpu(Cpu { y: v, ..s2.cpu }).set_zn_spec(v), 4)
            },
            0xb5 => {
                let (s1, a) = self.zpx_spec();
                let (s2, v) = s1.bus_read(a);
                (s2.with_cpu(Cpu { a: v, ..s2.cpu }).set_zn_spec(v), 4)
            },
            0xb6 => {
                let (s1, a) = self.zpy_spec();
                let (s2, v) = s1.bus_read(a);
                (s2.with_cpu(Cpu { x: v, ..s2.cpu }).set_zn_spec(v), 4)
            },
            0xb8 => (self.set_flag_spec(FLAG_V, false), 2),
            0xb9 => {
                let (s1, a, crossed) = self.absy_spec();
                let (s2, v) = s1.bus_read(a);
                (s2.with_cpu(Cpu { a: v, ..s2.cpu }).set_zn_spec(v), if crossed { 5 } else { 4 })
            },
            0xba => {
                let s1 = self.with_cpu(Cpu { x: self.cpu.sp, ..self.cpu });
                (s1.set_zn_spec(s1.cpu.x), 2)
            },
            0xbc => {
                let (s1, a, crossed) = self.absx_spec();
                let (s2, v) = s1.bus_read(a);
                (s2.with_cpu(Cpu { y: v, ..s2.cpu }).set_zn_spec(v), if crossed { 5 } else { 4 })
            },
            0xbd => {
                let (s1, a, crossed) = self.absx_spec();
                let (s2, v) = s1.bus_read(a);
                (s2.with_cpu(Cpu { a: v, ..s2.cpu }).set_zn_spec(v), if crossed { 5 } else { 4 })
            },
            0xbe => {
                let (s1, a, crossed) = self.absy_spec();
                let (s2, v) = s1.bus_read(a);
                (s2.with_cpu(Cpu { x: v, ..s2.cpu }).set_zn_spec(v), if crossed { 5 } else { 4 })
            },
            _ => (self, 2),
        }
    }

    /// The instructions whose opcodes are `0xc0..=0xcf`.
    pub open spec fn row_c_spec(self, opcode: u8) -> (NesEmulator, u16) {
        match opcode {
            0xc0 => {
                let (s1, v) = self.fetch_spec();
                (s1.alu(compare_spec(s1.cpu, s1.cpu.y, v)), 2)
            },
            0xc1 => {
                let (s1, a) = self.indx_spec();
                let (s2, v) = s1.bus_read(a);
                (s2.alu(compare_spec(s2.cpu, s2.cpu.a, v)), 6)
            },
            0xc4 => {
                let (s1, a) = self.zp_spec();
                let (s2, v) = s1.bus_read(a);
                (s2.alu(compare_spec(s2.cpu, s2.cpu.y, v)), 3)
            },
            0xc5 => {
                let (s1, a) = self.zp_spec();
                let (s2, v) = s1.bus_read(a);
                (s2.alu(compare_spec(s2.cpu, s2.cpu.a, v)), 3)
            },
            0xc6 => {
                let (s1, a) = self.zp_spec();
                (s1.step_mem_spec(a, -1), 5)
            },
            0xc8 => {
                let s1 = self.with_cpu(Cpu { y: self.cpu.y.wrapping_add(1), ..self.cpu });
                (s1.set_zn_spec(s1.cpu.y), 2)
            },
            0xc9 => {
                let (s1, v) = self.fetch_spec();
                (s1.alu(compare_spec(s1.cpu, s1.cpu.a, v)), 2)
            },
            0xca => {
                let s1 = self.with_cpu(Cpu { x: self.cpu.x.wrapping_sub(1), ..self.cpu });
                (s1.set_zn_spec(s1.cpu.x), 2)
            },
            0xcc => {
                let (s1, a) = self.fetch_u16_spec();
                let (s2, v) = s1.bus_read(a);
                (s2.alu(compare_spec(s2.cpu, s2.cpu.y, v)), 4)
            },
            0xcd => {
                let (s1, a) = self.fetch_u16_spec();
                let (s2, v) = s1.bus_read(a);
                (s2.alu(compare_spec(s2.cpu, s2.cpu.a, v)), 4)
            },
            0xce => {
                let (s1, a) = self.fetch_u16_spec();
                (s1.step_mem_spec(a, -1), 6)
            },
            _ => (self, 2),
        }
    }

    /// The instructions whose opcodes are `0xd0..=0xdf`.
    pub open spec fn row_d_spec(self, opcode: u8) -> (NesEmulator, u16) {
        match opcode {
            0xd0 => self.branch_spec(self.cpu.p & FLAG_Z == 0),
            0xd1 => {
                let (s1, a, crossed) = self.indy_spec();
                let (s2, v) = s1.bus_read(a);
                (s2.alu(compare_spec(s2.cpu, s2.cpu.a, v)), if crossed { 6 } else { 5 })
            },
            0xd5 => {
                let (s1, a) = self.zpx_spec();
                let (s2, v) = s1.bus_read(a);
                (s2.alu(compare_spec(s2.cpu, s2.cpu.a, v)), 4)
            },
            0xd6 => {
                let (s1, a) = self.zpx_spec();
                (s1.step_mem_spec(a, -1), 6)
            },
            0xd8 => (self.set_flag_spec(FLAG_D, false), 2),
            0xd9 => {
                let (s1, a, crossed) = self.absy_spec();
                let (s2, v) = s1.bus_read(a);
                (s2.alu(compare_spec(s2.cpu, s2.cpu.a, v)), if crossed { 5 } else { 4 })
            },
            0xdd => {
                let (s1, a, crossed) = self.absx_spec();
                let (s2, v) = s1.bus_read(a);
                (s2.alu(compare_spec(s2.cpu, s2.cpu.a, v)), if crossed { 5 } else { 4 })
            },
            0xde => {
                let (s1, a, _crossed) = self.absx_spec();
                (s1.step_mem_spec(a, -1), 7)
            },
            _ => (self, 2),
        }
    }

    /// The instructions whose opcodes are `0xe0..=0xef`.
    pub open spec fn row_e_spec(self, opcode: u8) -> (NesEmulator, u16) {
        match opcode {
            0xe0 => {
                let (s1, v) = self.fetch_spec();
                (s1.alu(compare_spec(s1.cpu, s1.cpu.x, v)), 2)
            },
            0xe1 => {
                let (s1, a) = self.indx_spec();
                let (s2, v) = s1.bus_read(a);
                (s2.alu(adc_spec(s2.cpu, !v)), 6)
            },
            0xe4 => {
                let (s1, a) = self.zp_spec();
                let (s2, v) = s1.bus_read(a);
                (s2.alu(compare_spec(s2.cpu, s2.cpu.x, v)), 3)
            },
            0xe5 => {
                let (s1, a) = self.zp_spec();
                let (s2, v) = s1.bus_read(a);
                (s2.alu(adc_spec(s2.cpu, !v)), 3)
            },
            0xe6 => {
                let (s1, a) = self.zp_spec();
                (s1.step_mem_spec(a, 1), 5)
            },
            0xe8 => {
                let s1 = self.with_cpu(Cpu { x: self.cpu.x.wrapping_add(1), ..self.cpu });
                (s1.set_zn_spec(s1.cpu.x), 2)
            },
            0xe9 => {
                let (s1, v) = self.fetch_spec();
                (s1.alu(adc_spec(s1.cpu, !v)), 2)
            },
            0xea => (self, 2),
            0xec => {
                let (s1, a) = self.fetch_u16_spec();
                let (s2, v) = s1.bus_read(a);
                (s2.alu(compare_spec(s2.cpu, s2.cpu.x, v)), 4)
            },
            0xed => {
                let (s1, a) = self.fetch_u16_spec();
                let (s2, v) = s1.bus_read(a);
                (s2.alu(adc_spec(s2.cpu, !v)), 4)
            },
            0xee => {
                let (s1, a) = self.fetch_u16_spec();
                (s1.step_mem_spec(a, 1), 6)
            },
            _ => (self, 2),
        }
    }

    /// The instructions whose opcodes are `0xf0..=0xff`.
    pub open spec fn row_f_spec(self, opcode: u8) -> (NesEmulator, u16) {
        match opcode {
            0xf0 => self.branch_spec(self.cpu.p & FLAG_Z != 0),
            0xf1 => {
                let (s1, a, crossed) = self.indy_spec();
                let (s2, v) = s1.bus_read(a);
                (s2.alu(adc_spec(s2.cpu, !v)), if crossed { 6 } else { 5 })
            },
            0xf5 => {
                let (s1, a) = self.zpx_spec();
                let (s2, v) = s1.bus_read(a);
                (s2.alu(adc_spec(s2.cpu, !v)), 4)
            },
            0xf6 => {
                let (s1, a) = self.zpx_spec();
                (s1.step_mem_spec(a, 1), 6)
            },
            0xf8 => (self.set_flag_spec(FLAG_D, true), 2),
            0xf9 => {
                let (s1, a, crossed) = self.absy_spec();
                let (s2, v) = s1.bus_read(a);
                (s2.alu(adc_spec(s2.cpu, !v)), if crossed { 5 } else { 4 })
            },
            0xfd => {
                let (s1, a, crossed) = self.absx_spec();
                let (s2, v) = s1.bus_read(a);
                (s2.alu(adc_spec(s2.cpu, !v)), if crossed { 5 } else { 4 })
            },
            0xfe => {
                let (s1, a, _crossed) = self.absx_spec();
                (s1.step_mem_spec(a, 1), 7)
            },
            _ => (self, 2),
        }
    }

    /// One instruction: fetch, execute, then add the cycles a DMA stalled
    /// (saturating) and clear that stall.
    #[verifier::opaque]
    pub open spec fn step_spec(self) -> (NesEmulator, u16) {
        let (s1, opcode) = self.fetch_spec();
        let (s2, cycles) = s1.execute_spec(opcode);
        let total = cycles as int + s2.extra_cycles as int;
        (
            NesEmulator { extra_cycles: 0, ..s2 },
            if total > 0xffff {
                0xffff
            } else {
                total as u16
            },
        )
    }

    /// Executes the instruction whose opcode byte was just fetched.
    pub fn execute(&mut self, opcode: u8) -> (cycles: u16)
        requires
            old(self).wf(),
        ensures
            final(self).wf(),
            (*final(self), cycles) == old(self).execute_spec(opcode),
            cycles >= 2,
    {
        reveal(NesEmulator::execute_spec);
        let row = opcode >> 4;
        proof {
            lemma_byte_bits(opcode);
        }
        match row {
            0 => self.execute_row_0(opcode),
            1 => self.execute_row_1(opcode),
            2 => self.execute_row_2(opcode),
            3 => self.execute_row_3(opcode),
            4 => self.execute_row_4(opcode),
            5 => self.execute_row_5(opcode),
            6 => self.execute_row_6(opcode),
            7 => self.execute_row_7(opcode),
            8 => self.execute_row_8(opcode),
            9 => self.execute_row_9(opcode),
            10 => self.execute_row_a(opcode),
            11 => self.execute_row_b(opcode),
            12 => self.execute_row_c(opcode),
            13 => self.execute_row_d(opcode),
            14 => self.execute_row_e(opcode),
            15 => self.execute_row_f(opcode),
            _ => self.execute_row_f(opcode),
        }
    }

    /// The instructions whose opcodes are `0x00..=0x0f`.
    fn execute_row_0(&mut self, opcode: u8) -> (cycles: u16)
        requires
            old(self).wf(),
            opcode / 16 == 0,
        ensures
            final(self).wf(),
            (*final(self), cycles) == old(self).execute_spec(opcode),
            cycles >= 2,
    {
        reveal(NesEmulator::execute_spec);
        match opcode {
            0x00 => {
                    self.cpu.pc = self.cpu.pc.wrapping_add(1);
                    self.interrupt(0xfffe, true);
                    return 7;
            },
            0x01 => {
                    let a = self.indx();
                    let v = self.cpu_read(a);
                    self.ora(v);
                    return 6;
            },
            0x05 => {
                    let a = self.zp();
                    let v = self.cpu_read(a);
                    self.ora(v);
                    return 3;
            },
            0x06 => {
                    let a = self.zp();
                    self.asl_mem(a);
                    return 5;
            },
            0x08 => {
                    self.push(self.cpu.p | FLAG_B | FLAG_U);
                    return 3;
            },
            0x09 => {
                    let v = self.fetch_u8();
                    self.ora(v);
                    return 2;
            },
            0x0a => {
                    self.cpu.a = self.asl(self.cpu.a);
                    return 2;
            },
            0x0d => {
                    let a = self.abs();
                    let v = self.cpu_read(a);
                    self.ora(v);
                    return 4;
            },
            0x0e => {
                    let a = self.abs();
                    self.asl_mem(a);
                    return 6;
            },
            _ => 2,
        }
    }

    /// The instructions whose opcodes are `0x10..=0x1f`.
    fn execute_row_1(&mut self, opcode: u8) -> (cycles: u16)
        requires
            old(self).wf(),
            opcode / 16 == 1,
        ensures
            final(self).wf(),
            (*final(self), cycles) == old(self).execute_spec(opcode),
            cycles >= 2,
    {
        reveal(NesEmulator::execute_spec);
        match opcode {
            0x10 => {
                return self.branch(!self.flag(FLAG_N));
            },
            0x11 => {
                    let (a, p) = self.indy();
                    let v = self.cpu_read(a);
                    self.ora(v);
                    return 5 + p as u16;
            },
            0x15 => {
                    let a = self.zpx();
                    let v = self.cpu_read(a);
                    self.ora(v);
                    return 4;
            },
            0x16 => {
                    let a = self.zpx();
                    self.asl_mem(a);
                    return 6;
            },
            0x18 => {
                    self.set_flag(FLAG_C, false);
                    return 2;
            },
            0x19 => {
                    let (a, p) = self.absy();
                    let v = self.cpu_read(a);
                    self.ora(v);
                    return 4 + p as u16;
            },
            0x1d => {
                    let (a, p) = self.absx();
                    let v = self.cpu_read(a);
                    self.ora(v);
                    return 4 + p as u16;
            },
            0x1e => {
                    let (a, _) = self.absx();
                    self.asl_mem(a);
                    return 7;
            },
            _ => 2,
        }
    }

    /// The instructions whose opcodes are `0x20..=0x2f`.
    fn execute_row_2(&mut self, opcode: u8) -> (cycles: u16)
        requires
            old(self).wf(),
            opcode / 16 == 2,
        ensures
            final(self).wf(),
            (*final(self), cycles) == old(self).execute_spec(opcode),
            cycles >= 2,
    {
        reveal(NesEmulator::execute_spec);
        match opcode {
            0x20 => {
                    let a = self.abs();
                    self.push_u16(self.cpu.pc.wrapping_sub(1));
                    self.cpu.pc = a;
                    return 6;
            },
            0x21 => {
                    let a = self.indx();
                    let v = self.cpu_read(a);
                    self.and(v);
                    return 6;
            },
            0x24 => {
                    let a = self.zp();
                    let v = self.cpu_read(a);
                    self.bit(v);
                    return 3;
            },
            0x25 => {
                    let a = self.zp();
                    let v = self.cpu_read(a);
                    self.and(v);
                    return 3;
            },
            0x26 => {
                    let a = self.zp();
                    self.rol_mem(a);
                    return 5;
            },
            0x28 => {
                    self.cpu.p = (self.pop() & !FLAG_B) | FLAG_U;
                    return 4;
            },
            0x29 => {
                    let v = self.fetch_u8();
                    self.and(v);
                    return 2;
            },
            0x2a => {
                    self.cpu.a = self.rol(self.cpu.a);
                    return 2;
            },
            0x2c => {
                    let a = self.abs();
                    let v = self.cpu_read(a);
                    self.bit(v);
                    return 4;
            },
            0x2d => {
                    let a = self.abs();
                    let v = self.cpu_read(a);
                    self.and(v);
                    return 4;
            },
            0x2e => {
                    let a = self.abs();
                    self.rol_mem(a);
                    return 6;
            },
            _ => 2,
        }
    }

    /// The instructions whose opcodes are `0x30..=0x3f`.
    fn execute_row_3(&mut self, opcode: u8) -> (cycles: u16)
        requires
            old(self).wf(),
            opcode / 16 == 3,
        ensures
            final(self).wf(),
            (*final(self), cycles) == old(self).execute_spec(opcode),
            cycles >= 2,
    {
        reveal(NesEmulator::execute_spec);
        match opcode {
            0x30 => {
                return self.branch(self.flag(FLAG_N));
            },
            0x31 => {
                    let (a, p) = self.indy();
                    let v = self.cpu_read(a);
                    self.and(v);
                    return 5 + p as u16;
            },
            0x35 => {
                    let a = self.zpx();
                    let v = self.cpu_read(a);
                    self.and(v);
                    return 4;
            },
            0x36 => {
                    let a = self.zpx();
                    self.rol_mem(a);
                    return 6;
            },
            0x38 => {
                    self.set_flag(FLAG_C, true);
                    return 2;
            },
            0x39 => {
                    let (a, p) = self.absy();
                    let v = self.cpu_read(a);
                    self.and(v);
                    return 4 + p as u16;
            },
            0x3d => {
                    let (a, p) = self.absx();
                    let v = self.cpu_read(a);
                    self.and(v);
                    return 4 + p as u16;
            },
            0x3e => {
                    let (a, _) = self.absx();
                    self.rol_mem(a);
                    return 7;
            },
            _ => 2,
        }
    }

    /// The instructions whose opcodes are `0x40..=0x4f`.
    fn execute_row_4(&mut self, opcode: u8) -> (cycles: u16)
        requires
            old(self).wf(),
            opcode / 16 == 4,
        ensures
            final(self).wf(),
            (*final(self), cycles) == old(self).execute_spec(opcode),
            cycles >= 2,
    {
        reveal(NesEmulator::execute_spec);
        match opcode {
            0x40 => {
                    self.cpu.p = (self.pop() & !FLAG_B) | FLAG_U;
                    self.cpu.pc = self.pop_u16();
                    return 6;
            },
            0x41 => {
                    let a = self.indx();
                    let v = self.cpu_read(a);
                    self.eor(v);
                    return 6;
            },
            0x45 => {
                    let a = self.zp();
                    let v = self.cpu_read(a);
                    self.eor(v);
                    return 3;
            },
            0x46 => {
                    let a = self.zp();
                    self.lsr_mem(a);
                    return 5;
            },
            0x48 => {
                    self.push(self.cpu.a);
                    return 3;
            },
            0x49 => {
                    let v = self.fetch_u8();
                    self.eor(v);
                    return 2;
            },
            0x4a => {
                    self.cpu.a = self.lsr(self.cpu.a);
                    return 2;
            },
            0x4c => {
                    let a = self.abs();
                    self.cpu.pc = a;
                    return 3;
            },
            0x4d => {
                    let a = self.abs();
                    let v = self.cpu_read(a);
                    self.eor(v);
                    return 4;
            },
            0x4e => {
                    let a = self.abs();
                    self.lsr_mem(a);
                    return 6;
            },
            _ => 2,
        }
    }

    /// The instructions whose opcodes are `0x50..=0x5f`.
    fn execute_row_5(&mut self, opcode: u8) -> (cycles: u16)
        requires
            old(self).wf(),
            opcode / 16 == 5,
        ensures
            final(self).wf(),
            (*final(self), cycles) == old(self).execute_spec(opcode),
            cycles >= 2,
    {
        reveal(NesEmulator::execute_spec);
        match opcode {
            0x50 => {
                return self.branch(!self.flag(FLAG_V));
            },
            0x51 => {
                    let (a, p) = self.indy();
                    let v = self.cpu_read(a);
                    self.eor(v);
                    return 5 + p as u16;
            },
            0x55 => {
                    let a = self.zpx();
                    let v = self.cpu_read(a);
                    self.eor(v);
                    return 4;
            },
            0x56 => {
                    let a = self.zpx();
                    self.lsr_mem(a);
                    return 6;
            },
            0x58 => {
                    self.set_flag(FLAG_I, false);
                    return 2;
            },
            0x59 => {
                    let (a, p) = self.absy();
                    let v = self.cpu_read(a);
                    self.eor(v);
                    return 4 + p as u16;
            },
            0x5d => {
                    let (a, p) = self.absx();
                    let v = self.cpu_read(a);
                    self.eor(v);
                    return 4 + p as u16;
            },
            0x5e => {
                    let (a, _) = self.absx();
                    self.lsr_mem(a);
                    return 7;
            },
            _ => 2,
        }
    }

    /// The instructions whose opcodes are `0x60..=0x6f`.
    fn execute_row_6(&mut self, opcode: u8) -> (cycles: u16)
        requires
            old(self).wf(),
            opcode / 16 == 6,
        ensures
            final(self).wf(),
            (*final(self), cycles) == old(self).execute_spec(opcode),
            cycles >= 2,
    {
        reveal(NesEmulator::execute_spec);
        match opcode {
            0x60 => {
                    self.cpu.pc = self.pop_u16().wrapping_add(1);
                    return 6;
            },
            0x61 => {
                    let a = self.indx();
                    let v = self.cpu_read(a);
                    self.adc(v);
                    return 6;
            },
            0x65 => {
                    let a = self.zp();
                    let v = self.cpu_read(a);
                    self.adc(v);
                    return 3;
            },
            0x66 => {
                    let a = self.zp();
                    self.ror_mem(a);
                    return 5;
            },
            0x68 => {
                    self.cpu.a = self.pop();
                    self.set_zn(self.cpu.a);
                    return 4;
            },
            0x69 => {
                    let v = self.fetch_u8();
                    self.adc(v);
                    return 2;
            },
            0x6a => {
                    self.cpu.a = self.ror(self.cpu.a);
                    return 2;
            },
            0x6c => {
                    let ptr = self.abs();
                    let lo = self.cpu_read(ptr) as u16;
                    let hi_addr = (ptr & 0xff00) | ptr.wrapping_add(1) & 0x00ff;
                    proof {
                        lemma_jmp_indirect_high(ptr, hi_addr);
                    }
                    let hi = self.cpu_read(hi_addr) as u16;
                    proof {
                        lemma_word_of_bytes(lo, hi);
                    }
                    self.cpu.pc = lo | (hi << 8);
                    return 5;
            },
            0x6d => {
                    let a = self.abs();
                    let v = self.cpu_read(a);
                    self.adc(v);
                    return 4;
            },
            0x6e => {
                    let a = self.abs();
                    self.ror_mem(a);
                    return 6;
            },
            _ => 2,
        }
    }

    /// The instructions whose opcodes are `0x70..=0x7f`.
    fn execute_row_7(&mut self, opcode: u8) -> (cycles: u16)
        requires
            old(self).wf(),
            opcode / 16 == 7,
        ensures
            final(self).wf(),
            (*final(self), cycles) == old(self).execute_spec(opcode),
            cycles >= 2,
    {
        reveal(NesEmulator::execute_spec);
        match opcode {
            0x70 => {
                return self.branch(self.flag(FLAG_V));
            },
            0x71 => {
                    let (a, p) = self.indy();
                    let v = self.cpu_read(a);
                    self.adc(v);
                    return 5 + p as u16;
            },
            0x75 => {
                    let a = self.zpx();
                    let v = self.cpu_read(a);
                    self.adc(v);
                    return 4;
            },
            0x76 => {
                    let a = self.zpx();
                    self.ror_mem(a);
                    return 6;
            },
            0x78 => {
                    self.set_flag(FLAG_I, true);
                    return 2;
            },
            0x79 => {
                    let (a, p) = self.absy();
                    let v = self.cpu_read(a);
                    self.adc(v);
                    return 4 + p as u16;
            },
            0x7d => {
                    let (a, p) = self.absx();
                    let v = self.cpu_read(a);
                    self.adc(v);
                    return 4 + p as u16;
            },
            0x7e => {
                    let (a, _) = self.absx();
                    self.ror_mem(a);
                    return 7;
            },
            _ => 2,
        }
    }

    /// The instructions whose opcodes are `0x80..=0x8f`.
    fn execute_row_8(&mut self, opcode: u8) -> (cycles: u16)
        requires
            old(self).wf(),
            opcode / 16 == 8,
        ensures
            final(self).wf(),
            (*final(self), cycles) == old(self).execute_spec(opcode),
            cycles >= 2,
    {
        reveal(NesEmulator::execute_spec);
        match opcode {
            0x81 => {
                    let a = self.indx();
                    self.cpu_write(a, self.cpu.a);
                    return 6;
            },
            0x84 => {
                    let a = self.zp();
                    self.cpu_write(a, self.cpu.y);
                    return 3;
            },
            0x85 => {
                    let a = self.zp();
                    self.cpu_write(a, self.cpu.a);
                    return 3;
            },
            0x86 => {
                    let a = self.zp();
                    self.cpu_write(a, self.cpu.x);
                    return 3;
            },
            0x88 => {
                    self.cpu.y = self.cpu.y.wrapping_sub(1);
                    self.set_zn(self.cpu.y);
                    return 2;
            },
            0x8a => {
                    self.cpu.a = self.cpu.x;
                    self.set_zn(self.cpu.a);
                    return 2;
            },
            0x8c => {
                    let a = self.abs();
                    self.cpu_write(a, self.cpu.y);
                    return 4;
            },
            0x8d => {
                    let a = self.abs();
                    self.cpu_write(a, self.cpu.a);
                    return 4;
            },
            0x8e => {
                    let a = self.abs();
                    self.cpu_write(a, self.cpu.x);
                    return 4;
            },
            _ => 2,
        }
    }

    /// The instructions whose opcodes are `0x90..=0x9f`.
    fn execute_row_9(&mut self, opcode: u8) -> (cycles: u16)
        requires
            old(self).wf(),
            opcode / 16 == 9,
        ensures
            final(self).wf(),
            (*final(self), cycles) == old(self).execute_spec(opcode),
            cycles >= 2,
    {
        reveal(NesEmulator::execute_spec);
        match opcode {
            0x90 => {
                return self.branch(!self.flag(FLAG_C));
            },
            0x91 => {
                    let (a, _) = self.indy();
                    self.cpu_write(a, self.cpu.a);
                    return 6;
            },
            0x94 => {
                    let a = self.zpx();
                    self.cpu_write(a, self.cpu.y);
                    return 4;
            },
            0x95 => {
                    let a = self.zpx();
                    self.cpu_write(a, self.cpu.a);
                    return 4;
            },
            0x96 => {
                    let a = self.zpy();
                    self.cpu_write(a, self.cpu.x);
                    return 4;
            },
            0x98 => {
                    self.cpu.a = self.cpu.y;
                    self.set_zn(self.cpu.a);
                    return 2;
            },
            0x99 => {
                    let (a, _) = self.absy();
                    self.cpu_write(a, self.cpu.a);
                    return 5;
            },
            0x9a => {
                    self.cpu.sp = self.cpu.x;
                    return 2;
            },
            0x9d => {
                    let (a, _) = self.absx();
                    self.cpu_write(a, self.cpu.a);
                    return 5;
            },
            _ => 2,
        }
    }

    /// The instructions whose opcodes are `0xa0..=0xaf`.
    fn execute_row_a(&mut self, opcode: u8) -> (cycles: u16)
        requires
            old(self).wf(),
            opcode / 16 == 10,
        ensures
            final(self).wf(),
            (*final(self), cycles) == old(self).execute_spec(opcode),
            cycles >= 2,
    {
        reveal(NesEmulator::execute_spec);
        match opcode {
            0xa0 => {
                    let v = self.fetch_u8();
                    self.cpu.y = v;
                    self.set_zn(v);
                    return 2;
            },
            0xa1 => {
                    let a = self.indx();
                    let v = self.cpu_read(a);
                    self.cpu.a = v;
                    self.set_zn(v);
                    return 6;
            },
            0xa2 => {
                    let v = self.fetch_u8();
                    self.cpu.x = v;
                    self.set_zn(v);
                    return 2;
            },
            0xa4 => {
                    let a = self.zp();
                    let v = self.cpu_read(a);
                    self.cpu.y = v;
                    self.set_zn(v);
                    return 3;
            },
            0xa5 => {
                    let a = self.zp();
                    let v = self.cpu_read(a);
                    self.cpu.a = v;
                    self.set_zn(v);
                    return 3;
            },
            0xa6 => {
                    let a = self.zp();
                    let v = self.cpu_read(a);
                    self.cpu.x = v;
                    self.set_zn(v);
                    return 3;
            },
            0xa8 => {
                    self.cpu.y = self.cpu.a;
                    self.set_zn(self.cpu.y);
                    return 2;
            },
            0xa9 => {
                    let v = self.fetch_u8();
                    self.cpu.a = v;
                    self.set_zn(v);
                    return 2;
            },
            0xaa => {
                    self.cpu.x = self.cpu.a;
                    self.set_zn(self.cpu.x);
                    return 2;
            },
            0xac => {
                    let a = self.abs();
                    let v = self.cpu_read(a);
                    self.cpu.y = v;
                    self.set_zn(v);
                    return 4;
            },
            0xad => {
                    let a = self.abs();
                    let v = self.cpu_read(a);
                    self.cpu.a = v;
                    self.set_zn(v);
                    return 4;
            },
            0xae => {
                    let a = self.abs();
                    let v = self.cpu_read(a);
                    self.cpu.x = v;
                    self.set_zn(v);
                    return 4;
            },
            _ => 2,
        }
    }

    /// The instructions whose opcodes are `0xb0..=0xbf`.
    fn execute_row_b(&mut self, opcode: u8) -> (cycles: u16)
        requires
            old(self).wf(),
            opcode / 16 == 11,
        ensures
            final(self).wf(),
            (*final(self), cycles) == old(self).execute_spec(opcode),
            cycles >= 2,
    {
        reveal(NesEmulator::execute_spec);
        match opcode {
            0xb0 => {
                return self.branch(self.flag(FLAG_C));
            },
            0xb1 => {
                    let (a, p) = self.indy();
                    let v = self.cpu_read(a);
                    self.cpu.a = v;
                    self.set_zn(v);
                    return 5 + p as u16;
            },
            0xb4 => {
                    let a = self.zpx();
                    let v = self.cpu_read(a);
                    self.cpu.y = v;
                    self.set_zn(v);
                    return 4;
            },
            0xb5 => {
                    let a = self.zpx();
                    let v = self.cpu_read(a);
                    self.cpu.a = v;
                    self.set_zn(v);
                    return 4;
            },
            0xb6 => {
                    let a = self.zpy();
                    let v = self.cpu_read(a);
                    self.cpu.x = v;
                    self.set_zn(v);
                    return 4;
            },
            0xb8 => {
                    self.set_flag(FLAG_V, false);
                    return 2;
            },
            0xb9 => {
                    let (a, p) = self.absy();
                    let v = self.cpu_read(a);
                    self.cpu.a = v;
                    self.set_zn(v);
                    return 4 + p as u16;
            },
            0xba => {
                    self.cpu.x = self.cpu.sp;
                    self.set_zn(self.cpu.x);
                    return 2;
            },
            0xbc => {
                    let (a, p) = self.absx();
                    let v = self.cpu_read(a);
                    self.cpu.y = v;
                    self.set_zn(v);
                    return 4 + p as u16;
            },
            0xbd => {
                    let (a, p) = self.absx();
                    let v = self.cpu_read(a);
                    self.cpu.a = v;
                    self.set_zn(v);
                    return 4 + p as u16;
            },
            0xbe => {
                    let (a, p) = self.absy();
                    let v = self.cpu_read(a);
                    self.cpu.x = v;
                    self.set_zn(v);
                    return 4 + p as u16;
            },
            _ => 2,
        }
    }

    /// The instructions whose opcodes are `0xc0..=0xcf`.
    fn execute_row_c(&mut self, opcode: u8) -> (cycles: u16)
        requires
            old(self).wf(),
            opcode / 16 == 12,
        ensures
            final(self).wf(),
            (*final(self), cycles) == old(self).execute_spec(opcode),
            cycles >= 2,
    {
        reveal(NesEmulator::execute_spec);
        match opcode {
            0xc0 => {
                    let v = self.fetch_u8();
                    self.compare(self.cpu.y, v);
                    return 2;
            },
            0xc1 => {
                    let a = self.indx();
                    let v = self.cpu_read(a);
                    self.compare(self.cpu.a, v);
                    return 6;
            },
            0xc4 => {
                    let a = self.zp();
                    let v = self.cpu_read(a);
                    self.compare(self.cpu.y, v);
                    return 3;
            },
            0xc5 => {
                    let a = self.zp();
                    let v = self.cpu_read(a);
                    self.compare(self.cpu.a, v);
                    return 3;
            },
            0xc6 => {
                    let a = self.zp();
                    self.dec_mem(a);
                    return 5;
            },
            0xc8 => {
                    self.cpu.y = self.cpu.y.wrapping_add(1);
                    self.set_zn(self.cpu.y);
                    return 2;
            },
            0xc9 => {
                    let v = self.fetch_u8();
                    self.compare(self.cpu.a, v);
                    return 2;
            },
            0xca => {
                    self.cpu.x = self.cpu.x.wrapping_sub(1);
                    self.set_zn(self.cpu.x);
                    return 2;
            },
            0xcc => {
                    let a = self.abs();
                    let v = self.cpu_read(a);
                    self.compare(self.cpu.y, v);
                    return 4;
            },
            0xcd => {
                    let a = self.abs();
                    let v = self.cpu_read(a);
                    self.compare(self.cpu.a, v);
                    return 4;
            },
            0xce => {
                    let a = self.abs();
                    self.dec_mem(a);
                    return 6;
            },
            _ => 2,
        }
    }

    /// The instructions whose opcodes are `0xd0..=0xdf`.
    fn execute_row_d(&mut self, opcode: u8) -> (cycles: u16)
        requires
            old(self).wf(),
            opcode / 16 == 13,
        ensures
            final(self).wf(),
            (*final(self), cycles) == old(self).execute_spec(opcode),
            cycles >= 2,
    {
        reveal(NesEmulator::execute_spec);
        match opcode {
            0xd0 => {
                return self.branch(!self.flag(FLAG_Z));
            },
            0xd1 => {
                    let (a, p) = self.indy();
                    let v = self.cpu_read(a);
                    self.compare(self.cpu.a, v);
                    return 5 + p as u16;
            },
            0xd5 => {
                    let a = self.zpx();
                    let v = self.cpu_read(a);
                    self.compare(self.cpu.a, v);
                    return 4;
            },
            0xd6 => {
                    let a = self.zpx();
                    self.dec_mem(a);
                    return 6;
            },
            0xd8 => {
                    self.set_flag(FLAG_D, false);
                    return 2;
            },
            0xd9 => {
                    let (a, p) = self.absy();
                    let v = self.cpu_read(a);
                    self.compare(self.cpu.a, v);
                    return 4 + p as u16;
            },
            0xdd => {
                    let (a, p) = self.absx();
                    let v = self.cpu_read(a);
                    self.compare(self.cpu.a, v);
                    return 4 + p as u16;
            },
            0xde => {
                    let (a, _) = self.absx();
                    self.dec_mem(a);
                    return 7;
            },
            _ => 2,
        }
    }

    /// The instructions whose opcodes are `0xe0..=0xef`.
    fn execute_row_e(&mut self, opcode: u8) -> (cycles: u16)
        requires
            old(self).wf(),
            opcode / 16 == 14,
        ensures
            final(self).wf(),
            (*final(self), cycles) == old(self).execute_spec(opcode),
            cycles >= 2,
    {
        reveal(NesEmulator::execute_spec);
        match opcode {
            0xe0 => {
                    let v = self.fetch_u8();
                    self.compare(self.cpu.x, v);
                    return 2;
            },
            0xe1 => {
                    let a = self.indx();
                    let v = self.cpu_read(a);
                    self.sbc(v);
                    return 6;
            },
            0xe4 => {
                    let a = self.zp();
                    let v = self.cpu_read(a);
                    self.compare(self.cpu.x, v);
                    return 3;
            },
            0xe5 => {
                    let a = self.zp();
                    let v = self.cpu_read(a);
                    self.sbc(v);
                    return 3;
            },
            0xe6 => {
                    let a = self.zp();
                    self.inc_mem(a);
                    return 5;
            },
            0xe8 => {
                    self.cpu.x = self.cpu.x.wrapping_add(1);
                    self.set_zn(self.cpu.x);
                    return 2;
            },
            0xe9 => {
                    let v = self.fetch_u8();
                    self.sbc(v);
                    return 2;
            },
            0xea => {
                return 2;
            },
            0xec => {
                    let a = self.abs();
                    let v = self.cpu_read(a);
                    self.compare(self.cpu.x, v);
                    return 4;
            },
            0xed => {
                    let a = self.abs();
                    let v = self.cpu_read(a);
                    self.sbc(v);
                    return 4;
            },
            0xee => {
                    let a = self.abs();
                    self.inc_mem(a);
                    return 6;
            },
            _ => 2,
        }
    }

    /// The instructions whose opcodes are `0xf0..=0xff`.
    fn execute_row_f(&mut self, opcode: u8) -> (cycles: u16)
        requires
            old(self).wf(),
            opcode / 16 == 15,
        ensures
            final(self).wf(),
            (*final(self), cycles) == old(self).execute_spec(opcode),
            cycles >= 2,
    {
        reveal(NesEmulator::execute_spec);
        match opcode {
            0xf0 => {
                return self.branch(self.flag(FLAG_Z));
            },
            0xf1 => {
                    let (a, p) = self.indy();
                    let v = self.cpu_read(a);
                    self.sbc(v);
                    return 5 + p as u16;
            },
            0xf5 => {
                    let a = self.zpx();
                    let v = self.cpu_read(a);
                    self.sbc(v);
                    return 4;
            },
            0xf6 => {
                    let a = self.zpx();
                    self.inc_mem(a);
                    return 6;
            },
            0xf8 => {
                    self.set_flag(FLAG_D, true);
                    return 2;
            },
            0xf9 => {
                    let (a, p) = self.absy();
                    let v = self.cpu_read(a);
                    self.sbc(v);
                    return 4 + p as u16;
            },
            0xfd => {
                    let (a, p) = self.absx();
                    let v = self.cpu_read(a);
                    self.sbc(v);
                    return 4 + p as u16;
            },
            0xfe => {
                    let (a, _) = self.absx();
                    self.inc_mem(a);
                    return 7;
            },
            _ => 2,
        }
    }

    /// Runs one instruction and returns the cycles it took.
    pub fn cpu_step(&mut self) -> (cycles: u16)
        requires
            old(self).wf(),
        ensures
            final(self).wf(),
            (*final(self), cycles) == old(self).step_spec(),
            cycles >= 2,
    {
        reveal(NesEmulator::step_spec);
        let opcode = self.fetch_u8();
        let mut cycles = self.execute(opcode);
        cycles = cycles.saturating_add(self.extra_cycles);
        self.extra_cycles = 0;
        cycles
    }
}

} // verus!
