//! What every instruction and every frame leaves alone: the episode flags,
//! and the unused status bit once it is set.
use vstd::prelude::*;

use crate::cpu::with_flag;
use crate::emulator::{
    buttons_of, MarioAction, NesEmulator, CPU_CYCLES_PER_FRAME_GUARD, FLAG_B, FLAG_I, FLAG_N, FLAG_U, FLAG_X_POS, FLAG_Z,
};
use crate::emulator::Cpu;
use crate::ppu::{next_event_dot, wrap16, wrap8};

verus! {

/// `b` keeps `a`'s episode flags (done, terminate on the flagpole), and its
/// status either is `a`'s or has the unused bit set.
pub open spec fn frame_kept(a: NesEmulator, b: NesEmulator) -> bool {
    &&& b.done == a.done
    &&& b.terminate_on_flag == a.terminate_on_flag
    &&& (b.cpu.p == a.cpu.p || b.cpu.p & FLAG_U != 0)
}

/// `b` keeps `a`'s episode flags and its whole register file.
pub open spec fn cpu_kept(a: NesEmulator, b: NesEmulator) -> bool {
    &&& b.done == a.done
    &&& b.terminate_on_flag == a.terminate_on_flag
    &&& b.cpu == a.cpu
}

/// `b` keeps `a`'s episode flags and status; other registers may change.
pub open spec fn p_kept(a: NesEmulator, b: NesEmulator) -> bool {
    &&& b.done == a.done
    &&& b.terminate_on_flag == a.terminate_on_flag
    &&& b.cpu.p == a.cpu.p
}

/// `b` keeps `a`'s episode flags and has the unused status bit set.
pub open spec fn u_set(a: NesEmulator, b: NesEmulator) -> bool {
    &&& b.done == a.done
    &&& b.terminate_on_flag == a.terminate_on_flag
    &&& b.cpu.p & FLAG_U != 0
}

/// Setting the unused bit sets it; changing another flag keeps it.
pub broadcast proof fn lemma_or_u(x: u8)
    ensures
        #[trigger] (x | FLAG_U) & FLAG_U != 0,
{
    assert((x | 0x20u8) & 0x20u8 != 0) by (bit_vector);
}

/// A PLP or RTI status has the break bit clear.
pub proof fn lemma_pulled_status(v: u8)
    ensures
        ((v & !FLAG_B) | FLAG_U) & FLAG_B == 0,
        ((v & !FLAG_B) | FLAG_U) & FLAG_U != 0,
        ((v & !FLAG_B) | FLAG_U) & 0xcf == v & 0xcf,
{
    assert(((v & !0x10u8) | 0x20u8) & 0x10u8 == 0 && ((v & !0x10u8) | 0x20u8) & 0x20u8 != 0 && ((v & !0x10u8)
        | 0x20u8) & 0xcf == v & 0xcf) by (bit_vector);
}

/// OAM DMA touches neither the registers nor the episode flags.
pub proof fn lemma_dma_kept(e: NesEmulator, page: u8, i: nat)
    ensures
        cpu_kept(e, e.dma_from(page, i)),
    decreases 256 - i,
{
    if i < 256 {
        reveal(NesEmulator::bus_read);
        let (s1, v) = e.bus_read((page as int * 256 + i) as u16);
        let idx = crate::ppu::wrap8(s1.ppu.oam_addr as int + i);
        let s2 = s1.with_ppu(crate::ppu::Ppu { oam: vstd::array::spec_array_update(s1.ppu.oam, idx as int, v), ..s1.ppu });
        lemma_dma_kept(s2, page, i + 1);
    }
}

pub broadcast proof fn lemma_bus_read_kept(e: NesEmulator, addr: u16)
    ensures
        cpu_kept(e, #[trigger] e.bus_read(addr).0),
{
    reveal(NesEmulator::bus_read);
}

pub broadcast proof fn lemma_bus_write_kept(e: NesEmulator, addr: u16, value: u8)
    ensures
        cpu_kept(e, #[trigger] e.bus_write(addr, value)),
{
    reveal(NesEmulator::bus_write);
    lemma_dma_kept(e, value, 0);
}

pub broadcast proof fn lemma_read_u16_kept(e: NesEmulator, addr: u16)
    ensures
        cpu_kept(e, #[trigger] e.read_u16_spec(addr).0),
{
    reveal(NesEmulator::read_u16_spec);
    lemma_bus_read_kept(e, addr);
    lemma_bus_read_kept(e.bus_read(addr).0, crate::ppu::wrap16(addr as int + 1));
}

pub broadcast proof fn lemma_fetch_kept(e: NesEmulator)
    ensures
        p_kept(e, #[trigger] e.fetch_spec().0),
{
    reveal(NesEmulator::fetch_spec);
    lemma_bus_read_kept(e, e.cpu.pc);
}

pub broadcast proof fn lemma_fetch_u16_kept(e: NesEmulator)
    ensures
        p_kept(e, #[trigger] e.fetch_u16_spec().0),
{
    reveal(NesEmulator::fetch_u16_spec);
    lemma_fetch_kept(e);
    lemma_fetch_kept(e.fetch_spec().0);
}

pub broadcast proof fn lemma_zp_kept(e: NesEmulator)
    ensures
        p_kept(e, #[trigger] e.zp_spec().0),
{
    reveal(NesEmulator::zp_spec);
    lemma_fetch_kept(e);
}

pub broadcast proof fn lemma_zpx_kept(e: NesEmulator)
    ensures
        p_kept(e, #[trigger] e.zpx_spec().0),
{
    reveal(NesEmulator::zpx_spec);
    lemma_fetch_kept(e);
}

pub broadcast proof fn lemma_zpy_kept(e: NesEmulator)
    ensures
        p_kept(e, #[trigger] e.zpy_spec().0),
{
    reveal(NesEmulator::zpy_spec);
    lemma_fetch_kept(e);
}

pub broadcast proof fn lemma_absx_kept(e: NesEmulator)
    ensures
        p_kept(e, #[trigger] e.absx_spec().0),
{
    reveal(NesEmulator::absx_spec);
    lemma_fetch_u16_kept(e);
}

pub broadcast proof fn lemma_absy_kept(e: NesEmulator)
    ensures
        p_kept(e, #[trigger] e.absy_spec().0),
{
    reveal(NesEmulator::absy_spec);
    lemma_fetch_u16_kept(e);
}

pub broadcast proof fn lemma_indx_kept(e: NesEmulator)
    ensures
        p_kept(e, #[trigger] e.indx_spec().0),
{
    reveal(NesEmulator::indx_spec);
    lemma_fetch_kept(e);
    let s1 = e.fetch_spec().0;
    let v = e.fetch_spec().1;
    let ptr = crate::ppu::wrap8(v as int + s1.cpu.x as int);
    lemma_bus_read_kept(s1, ptr as u16);
    let s2 = s1.bus_read(ptr as u16).0;
    lemma_bus_read_kept(s2, crate::ppu::wrap8(ptr as int + 1) as u16);
}

pub broadcast proof fn lemma_indy_kept(e: NesEmulator)
    ensures
        p_kept(e, #[trigger] e.indy_spec().0),
{
    reveal(NesEmulator::indy_spec);
    lemma_fetch_kept(e);
    let s1 = e.fetch_spec().0;
    let v = e.fetch_spec().1;
    lemma_bus_read_kept(s1, v as u16);
    let t2 = s1.bus_read(v as u16).0;
    lemma_bus_read_kept(t2, crate::ppu::wrap8(v as int + 1) as u16);
}

pub broadcast proof fn lemma_set_flag_u_set(e: NesEmulator, flag: u8, on: bool)
    ensures
        u_set(e, #[trigger] e.set_flag_spec(flag, on)),
{
    reveal(NesEmulator::set_flag_spec);
    lemma_or_u(with_flag(e.cpu.p, flag, on));
}

pub broadcast proof fn lemma_set_zn_u_set(e: NesEmulator, value: u8)
    ensures
        u_set(e, #[trigger] e.set_zn_spec(value)),
{
    reveal(NesEmulator::set_zn_spec);
    lemma_or_u(with_flag(with_flag(e.cpu.p, FLAG_Z, value == 0), FLAG_N, value >= 128));
}

pub broadcast proof fn lemma_logic_u_set(e: NesEmulator, value: u8)
    ensures
        u_set(e, #[trigger] e.ora_spec(value)),
{
    reveal(NesEmulator::ora_spec);
    let s = e.with_cpu(crate::emulator::Cpu { a: e.cpu.a | value, ..e.cpu });
    lemma_set_zn_u_set(s, s.cpu.a);
}

pub broadcast proof fn lemma_and_u_set(e: NesEmulator, value: u8)
    ensures
        u_set(e, #[trigger] e.and_spec(value)),
{
    reveal(NesEmulator::and_spec);
    let s = e.with_cpu(crate::emulator::Cpu { a: e.cpu.a & value, ..e.cpu });
    lemma_set_zn_u_set(s, s.cpu.a);
}

pub broadcast proof fn lemma_eor_u_set(e: NesEmulator, value: u8)
    ensures
        u_set(e, #[trigger] e.eor_spec(value)),
{
    reveal(NesEmulator::eor_spec);
    let s = e.with_cpu(crate::emulator::Cpu { a: e.cpu.a ^ value, ..e.cpu });
    lemma_set_zn_u_set(s, s.cpu.a);
}

pub broadcast proof fn lemma_push_kept(e: NesEmulator, value: u8)
    ensures
        p_kept(e, #[trigger] e.push_spec(value)),
{
    reveal(NesEmulator::push_spec);
    lemma_bus_write_kept(e, (0x100 + e.cpu.sp as int) as u16, value);
}

pub broadcast proof fn lemma_pop_kept(e: NesEmulator)
    ensures
        p_kept(e, #[trigger] e.pop_spec().0),
{
    reveal(NesEmulator::pop_spec);
    let sp = crate::ppu::wrap8(e.cpu.sp as int + 1);
    let e1 = e.with_cpu(crate::emulator::Cpu { sp: sp, ..e.cpu });
    lemma_bus_read_kept(e1, (0x100 + sp as int) as u16);
}

pub broadcast proof fn lemma_push_u16_kept(e: NesEmulator, word: u16)
    ensures
        p_kept(e, #[trigger] e.push_u16_spec(word)),
{
    reveal(NesEmulator::push_u16_spec);
    let hi = (word as int / 256) as u8;
    let lo = (word as int % 256) as u8;
    lemma_push_kept(e, hi);
    lemma_push_kept(e.push_spec(hi), lo);
}

pub broadcast proof fn lemma_pop_u16_kept(e: NesEmulator)
    ensures
        p_kept(e, #[trigger] e.pop_u16_spec().0),
{
    reveal(NesEmulator::pop_u16_spec);
    lemma_pop_kept(e);
    lemma_pop_kept(e.pop_spec().0);
}

pub broadcast proof fn lemma_rmw_u_set(e: NesEmulator, addr: u16, op: int)
    ensures
        u_set(e, #[trigger] e.rmw_spec(addr, op)),
{
    broadcast use lemma_or_u;
    reveal(NesEmulator::rmw_spec);
    lemma_bus_read_kept(e, addr);
    let (s1, v) = e.bus_read(addr);
    let c = s1.cpu;
    let (cpu, result) = if op == 0 {
        (crate::cpu::shifted_spec(c, crate::cpu::asl_value(v), v >= 128), crate::cpu::asl_value(v))
    } else if op == 1 {
        (crate::cpu::lsr_spec(c, v), crate::cpu::lsr_value(v))
    } else if op == 2 {
        (crate::cpu::shifted_spec(c, crate::cpu::rol_value(c, v), v >= 128), crate::cpu::rol_value(c, v))
    } else {
        (crate::cpu::shifted_spec(c, crate::cpu::ror_value(c, v), v % 2 == 1), crate::cpu::ror_value(c, v))
    };
    lemma_bus_write_kept(s1.with_cpu(cpu), addr, result);
}

pub broadcast proof fn lemma_step_mem_u_set(e: NesEmulator, addr: u16, delta: int)
    ensures
        u_set(e, #[trigger] e.step_mem_spec(addr, delta)),
{
    reveal(NesEmulator::step_mem_spec);
    lemma_bus_read_kept(e, addr);
    let (s1, v) = e.bus_read(addr);
    let r2 = crate::ppu::wrap8(v as int + delta);
    lemma_bus_write_kept(s1, addr, r2);
    lemma_set_zn_u_set(s1.bus_write(addr, r2), r2);
}

pub broadcast proof fn lemma_interrupt_u_set(e: NesEmulator, vector: u16, brk: bool)
    ensures
        u_set(e, #[trigger] e.interrupt_spec(vector, brk)),
{
    reveal(NesEmulator::interrupt_spec);
    lemma_push_u16_kept(e, e.cpu.pc);
    let s1 = e.push_u16_spec(e.cpu.pc);
    let p = with_flag(s1.cpu.p | FLAG_U, FLAG_B, brk);
    lemma_push_kept(s1, p);
    let s2a = s1.push_spec(p);
    lemma_set_flag_u_set(s2a, FLAG_I, true);
    let s2 = s2a.set_flag_spec(FLAG_I, true);
    lemma_read_u16_kept(s2, vector);
}

pub broadcast proof fn lemma_branch_kept(e: NesEmulator, condition: bool)
    ensures
        p_kept(e, #[trigger] e.branch_spec(condition).0),
{
    reveal(NesEmulator::branch_spec);
    lemma_fetch_kept(e);
}

pub broadcast group group_step_kept {
    lemma_or_u,
    lemma_bus_read_kept,
    lemma_bus_write_kept,
    lemma_read_u16_kept,
    lemma_fetch_kept,
    lemma_fetch_u16_kept,
    lemma_zp_kept,
    lemma_zpx_kept,
    lemma_zpy_kept,
    lemma_absx_kept,
    lemma_absy_kept,
    lemma_indx_kept,
    lemma_indy_kept,
    lemma_set_flag_u_set,
    lemma_set_zn_u_set,
    lemma_logic_u_set,
    lemma_and_u_set,
    lemma_eor_u_set,
    lemma_push_kept,
    lemma_pop_kept,
    lemma_push_u16_kept,
    lemma_pop_u16_kept,
    lemma_rmw_u_set,
    lemma_step_mem_u_set,
    lemma_interrupt_u_set,
    lemma_branch_kept,
}

proof fn lemma_row_0_kept(e: NesEmulator, opcode: u8)
    requires
        opcode / 16 == 0x0,
    ensures
        frame_kept(e, e.row_0_spec(opcode).0),
{
    broadcast use group_step_kept;
    assert(0x00 <= opcode <= 0x0f);
    if opcode == 0x00 {
        assert(frame_kept(e, e.row_0_spec(0x00).0));
    }
    if opcode == 0x01 {
        assert(frame_kept(e, e.row_0_spec(0x01).0));
    }
    if opcode == 0x02 {
        assert(frame_kept(e, e.row_0_spec(0x02).0));
    }
    if opcode == 0x03 {
        assert(frame_kept(e, e.row_0_spec(0x03).0));
    }
    if opcode == 0x04 {
        assert(frame_kept(e, e.row_0_spec(0x04).0));
    }
    if opcode == 0x05 {
        assert(frame_kept(e, e.row_0_spec(0x05).0));
    }
    if opcode == 0x06 {
        assert(frame_kept(e, e.row_0_spec(0x06).0));
    }
    if opcode == 0x07 {
        assert(frame_kept(e, e.row_0_spec(0x07).0));
    }
    if opcode == 0x08 {
        assert(frame_kept(e, e.row_0_spec(0x08).0));
    }
    if opcode == 0x09 {
        assert(frame_kept(e, e.row_0_spec(0x09).0));
    }
    if opcode == 0x0a {
        assert(frame_kept(e, e.row_0_spec(0x0a).0));
    }
    if opcode == 0x0b {
        assert(frame_kept(e, e.row_0_spec(0x0b).0));
    }
    if opcode == 0x0c {
        assert(frame_kept(e, e.row_0_spec(0x0c).0));
    }
    if opcode == 0x0d {
        assert(frame_kept(e, e.row_0_spec(0x0d).0));
    }
    if opcode == 0x0e {
        assert(frame_kept(e, e.row_0_spec(0x0e).0));
    }
    if opcode == 0x0f {
        assert(frame_kept(e, e.row_0_spec(0x0f).0));
    }
}

proof fn lemma_row_1_kept(e: NesEmulator, opcode: u8)
    requires
        opcode / 16 == 0x1,
    ensures
        frame_kept(e, e.row_1_spec(opcode).0),
{
    broadcast use group_step_kept;
    assert(0x10 <= opcode <= 0x1f);
    if opcode == 0x10 {
        assert(frame_kept(e, e.row_1_spec(0x10).0));
    }
    if opcode == 0x11 {
        assert(frame_kept(e, e.row_1_spec(0x11).0));
    }
    if opcode == 0x12 {
        assert(frame_kept(e, e.row_1_spec(0x12).0));
    }
    if opcode == 0x13 {
        assert(frame_kept(e, e.row_1_spec(0x13).0));
    }
    if opcode == 0x14 {
        assert(frame_kept(e, e.row_1_spec(0x14).0));
    }
    if opcode == 0x15 {
        assert(frame_kept(e, e.row_1_spec(0x15).0));
    }
    if opcode == 0x16 {
        assert(frame_kept(e, e.row_1_spec(0x16).0));
    }
    if opcode == 0x17 {
        assert(frame_kept(e, e.row_1_spec(0x17).0));
    }
    if opcode == 0x18 {
        assert(frame_kept(e, e.row_1_spec(0x18).0));
    }
    if opcode == 0x19 {
        assert(frame_kept(e, e.row_1_spec(0x19).0));
    }
    if opcode == 0x1a {
        assert(frame_kept(e, e.row_1_spec(0x1a).0));
    }
    if opcode == 0x1b {
        assert(frame_kept(e, e.row_1_spec(0x1b).0));
    }
    if opcode == 0x1c {
        assert(frame_kept(e, e.row_1_spec(0x1c).0));
    }
    if opcode == 0x1d {
        assert(frame_kept(e, e.row_1_spec(0x1d).0));
    }
    if opcode == 0x1e {
        assert(frame_kept(e, e.row_1_spec(0x1e).0));
    }
    if opcode == 0x1f {
        assert(frame_kept(e, e.row_1_spec(0x1f).0));
    }
}

proof fn lemma_row_2_kept(e: NesEmulator, opcode: u8)
    requires
        opcode / 16 == 0x2,
    ensures
        frame_kept(e, e.row_2_spec(opcode).0),
{
    broadcast use group_step_kept;
    assert(0x20 <= opcode <= 0x2f);
    if opcode == 0x20 {
        assert(frame_kept(e, e.row_2_spec(0x20).0));
    }
    if opcode == 0x21 {
        assert(frame_kept(e, e.row_2_spec(0x21).0));
    }
    if opcode == 0x22 {
        assert(frame_kept(e, e.row_2_spec(0x22).0));
    }
    if opcode == 0x23 {
        assert(frame_kept(e, e.row_2_spec(0x23).0));
    }
    if opcode == 0x24 {
        assert(frame_kept(e, e.row_2_spec(0x24).0));
    }
    if opcode == 0x25 {
        assert(frame_kept(e, e.row_2_spec(0x25).0));
    }
    if opcode == 0x26 {
        assert(frame_kept(e, e.row_2_spec(0x26).0));
    }
    if opcode == 0x27 {
        assert(frame_kept(e, e.row_2_spec(0x27).0));
    }
    if opcode == 0x28 {
        assert(frame_kept(e, e.row_2_spec(0x28).0));
    }
    if opcode == 0x29 {
        assert(frame_kept(e, e.row_2_spec(0x29).0));
    }
    if opcode == 0x2a {
        assert(frame_kept(e, e.row_2_spec(0x2a).0));
    }
    if opcode == 0x2b {
        assert(frame_kept(e, e.row_2_spec(0x2b).0));
    }
    if opcode == 0x2c {
        assert(frame_kept(e, e.row_2_spec(0x2c).0));
    }
    if opcode == 0x2d {
        assert(frame_kept(e, e.row_2_spec(0x2d).0));
    }
    if opcode == 0x2e {
        assert(frame_kept(e, e.row_2_spec(0x2e).0));
    }
    if opcode == 0x2f {
        assert(frame_kept(e, e.row_2_spec(0x2f).0));
    }
}

proof fn lemma_row_3_kept(e: NesEmulator, opcode: u8)
    requires
        opcode / 16 == 0x3,
    ensures
        frame_kept(e, e.row_3_spec(opcode).0),
{
    broadcast use group_step_kept;
    assert(0x30 <= opcode <= 0x3f);
    if opcode == 0x30 {
        assert(frame_kept(e, e.row_3_spec(0x30).0));
    }
    if opcode == 0x31 {
        assert(frame_kept(e, e.row_3_spec(0x31).0));
    }
    if opcode == 0x32 {
        assert(frame_kept(e, e.row_3_spec(0x32).0));
    }
    if opcode == 0x33 {
        assert(frame_kept(e, e.row_3_spec(0x33).0));
    }
    if opcode == 0x34 {
        assert(frame_kept(e, e.row_3_spec(0x34).0));
    }
    if opcode == 0x35 {
        assert(frame_kept(e, e.row_3_spec(0x35).0));
    }
    if opcode == 0x36 {
        assert(frame_kept(e, e.row_3_spec(0x36).0));
    }
    if opcode == 0x37 {
        assert(frame_kept(e, e.row_3_spec(0x37).0));
    }
    if opcode == 0x38 {
        assert(frame_kept(e, e.row_3_spec(0x38).0));
    }
    if opcode == 0x39 {
        assert(frame_kept(e, e.row_3_spec(0x39).0));
    }
    if opcode == 0x3a {
        assert(frame_kept(e, e.row_3_spec(0x3a).0));
    }
    if opcode == 0x3b {
        assert(frame_kept(e, e.row_3_spec(0x3b).0));
    }
    if opcode == 0x3c {
        assert(frame_kept(e, e.row_3_spec(0x3c).0));
    }
    if opcode == 0x3d {
        assert(frame_kept(e, e.row_3_spec(0x3d).0));
    }
    if opcode == 0x3e {
        assert(frame_kept(e, e.row_3_spec(0x3e).0));
    }
    if opcode == 0x3f {
        assert(frame_kept(e, e.row_3_spec(0x3f).0));
    }
}

proof fn lemma_row_4_kept(e: NesEmulator, opcode: u8)
    requires
        opcode / 16 == 0x4,
    ensures
        frame_kept(e, e.row_4_spec(opcode).0),
{
    broadcast use group_step_kept;
    assert(0x40 <= opcode <= 0x4f);
    if opcode == 0x40 {
        assert(frame_kept(e, e.row_4_spec(0x40).0));
    }
    if opcode == 0x41 {
        assert(frame_kept(e, e.row_4_spec(0x41).0));
    }
    if opcode == 0x42 {
        assert(frame_kept(e, e.row_4_spec(0x42).0));
    }
    if opcode == 0x43 {
        assert(frame_kept(e, e.row_4_spec(0x43).0));
    }
    if opcode == 0x44 {
        assert(frame_kept(e, e.row_4_spec(0x44).0));
    }
    if opcode == 0x45 {
        assert(frame_kept(e, e.row_4_spec(0x45).0));
    }
    if opcode == 0x46 {
        assert(frame_kept(e, e.row_4_spec(0x46).0));
    }
    if opcode == 0x47 {
        assert(frame_kept(e, e.row_4_spec(0x47).0));
    }
    if opcode == 0x48 {
        assert(frame_kept(e, e.row_4_spec(0x48).0));
    }
    if opcode == 0x49 {
        assert(frame_kept(e, e.row_4_spec(0x49).0));
    }
    if opcode == 0x4a {
        assert(frame_kept(e, e.row_4_spec(0x4a).0));
    }
    if opcode == 0x4b {
        assert(frame_kept(e, e.row_4_spec(0x4b).0));
    }
    if opcode == 0x4c {
        assert(frame_kept(e, e.row_4_spec(0x4c).0));
    }
    if opcode == 0x4d {
        assert(frame_kept(e, e.row_4_spec(0x4d).0));
    }
    if opcode == 0x4e {
        assert(frame_kept(e, e.row_4_spec(0x4e).0));
    }
    if opcode == 0x4f {
        assert(frame_kept(e, e.row_4_spec(0x4f).0));
    }
}

proof fn lemma_row_5_kept(e: NesEmulator, opcode: u8)
    requires
        opcode / 16 == 0x5,
    ensures
        frame_kept(e, e.row_5_spec(opcode).0),
{
    broadcast use group_step_kept;
    assert(0x50 <= opcode <= 0x5f);
    if opcode == 0x50 {
        assert(frame_kept(e, e.row_5_spec(0x50).0));
    }
    if opcode == 0x51 {
        assert(frame_kept(e, e.row_5_spec(0x51).0));
    }
    if opcode == 0x52 {
        assert(frame_kept(e, e.row_5_spec(0x52).0));
    }
    if opcode == 0x53 {
        assert(frame_kept(e, e.row_5_spec(0x53).0));
    }
    if opcode == 0x54 {
        assert(frame_kept(e, e.row_5_spec(0x54).0));
    }
    if opcode == 0x55 {
        assert(frame_kept(e, e.row_5_spec(0x55).0));
    }
    if opcode == 0x56 {
        assert(frame_kept(e, e.row_5_spec(0x56).0));
    }
    if opcode == 0x57 {
        assert(frame_kept(e, e.row_5_spec(0x57).0));
    }
    if opcode == 0x58 {
        assert(frame_kept(e, e.row_5_spec(0x58).0));
    }
    if opcode == 0x59 {
        assert(frame_kept(e, e.row_5_spec(0x59).0));
    }
    if opcode == 0x5a {
        assert(frame_kept(e, e.row_5_spec(0x5a).0));
    }
    if opcode == 0x5b {
        assert(frame_kept(e, e.row_5_spec(0x5b).0));
    }
    if opcode == 0x5c {
        assert(frame_kept(e, e.row_5_spec(0x5c).0));
    }
    if opcode == 0x5d {
        assert(frame_kept(e, e.row_5_spec(0x5d).0));
    }
    if opcode == 0x5e {
        assert(frame_kept(e, e.row_5_spec(0x5e).0));
    }
    if opcode == 0x5f {
        assert(frame_kept(e, e.row_5_spec(0x5f).0));
    }
}

proof fn lemma_row_6_kept(e: NesEmulator, opcode: u8)
    requires
        opcode / 16 == 0x6,
    ensures
        frame_kept(e, e.row_6_spec(opcode).0),
{
    broadcast use group_step_kept;
    assert(0x60 <= opcode <= 0x6f);
    if opcode == 0x60 {
        assert(frame_kept(e, e.row_6_spec(0x60).0));
    }
    if opcode == 0x61 {
        assert(frame_kept(e, e.row_6_spec(0x61).0));
    }
    if opcode == 0x62 {
        assert(frame_kept(e, e.row_6_spec(0x62).0));
    }
    if opcode == 0x63 {
        assert(frame_kept(e, e.row_6_spec(0x63).0));
    }
    if opcode == 0x64 {
        assert(frame_kept(e, e.row_6_spec(0x64).0));
    }
    if opcode == 0x65 {
        assert(frame_kept(e, e.row_6_spec(0x65).0));
    }
    if opcode == 0x66 {
        assert(frame_kept(e, e.row_6_spec(0x66).0));
    }
    if opcode == 0x67 {
        assert(frame_kept(e, e.row_6_spec(0x67).0));
    }
    if opcode == 0x68 {
        assert(frame_kept(e, e.row_6_spec(0x68).0));
    }
    if opcode == 0x69 {
        assert(frame_kept(e, e.row_6_spec(0x69).0));
    }
    if opcode == 0x6a {
        assert(frame_kept(e, e.row_6_spec(0x6a).0));
    }
    if opcode == 0x6b {
        assert(frame_kept(e, e.row_6_spec(0x6b).0));
    }
    if opcode == 0x6c {
        assert(frame_kept(e, e.row_6_spec(0x6c).0));
    }
    if opcode == 0x6d {
        assert(frame_kept(e, e.row_6_spec(0x6d).0));
    }
    if opcode == 0x6e {
        assert(frame_kept(e, e.row_6_spec(0x6e).0));
    }
    if opcode == 0x6f {
        assert(frame_kept(e, e.row_6_spec(0x6f).0));
    }
}

proof fn lemma_row_7_kept(e: NesEmulator, opcode: u8)
    requires
        opcode / 16 == 0x7,
    ensures
        frame_kept(e, e.row_7_spec(opcode).0),
{
    broadcast use group_step_kept;
    assert(0x70 <= opcode <= 0x7f);
    if opcode == 0x70 {
        assert(frame_kept(e, e.row_7_spec(0x70).0));
    }
    if opcode == 0x71 {
        assert(frame_kept(e, e.row_7_spec(0x71).0));
    }
    if opcode == 0x72 {
        assert(frame_kept(e, e.row_7_spec(0x72).0));
    }
    if opcode == 0x73 {
        assert(frame_kept(e, e.row_7_spec(0x73).0));
    }
    if opcode == 0x74 {
        assert(frame_kept(e, e.row_7_spec(0x74).0));
    }
    if opcode == 0x75 {
        assert(frame_kept(e, e.row_7_spec(0x75).0));
    }
    if opcode == 0x76 {
        assert(frame_kept(e, e.row_7_spec(0x76).0));
    }
    if opcode == 0x77 {
        assert(frame_kept(e, e.row_7_spec(0x77).0));
    }
    if opcode == 0x78 {
        assert(frame_kept(e, e.row_7_spec(0x78).0));
    }
    if opcode == 0x79 {
        assert(frame_kept(e, e.row_7_spec(0x79).0));
    }
    if opcode == 0x7a {
        assert(frame_kept(e, e.row_7_spec(0x7a).0));
    }
    if opcode == 0x7b {
        assert(frame_kept(e, e.row_7_spec(0x7b).0));
    }
    if opcode == 0x7c {
        assert(frame_kept(e, e.row_7_spec(0x7c).0));
    }
    if opcode == 0x7d {
        assert(frame_kept(e, e.row_7_spec(0x7d).0));
    }
    if opcode == 0x7e {
        assert(frame_kept(e, e.row_7_spec(0x7e).0));
    }
    if opcode == 0x7f {
        assert(frame_kept(e, e.row_7_spec(0x7f).0));
    }
}

proof fn lemma_row_8_kept(e: NesEmulator, opcode: u8)
    requires
        opcode / 16 == 0x8,
    ensures
        frame_kept(e, e.row_8_spec(opcode).0),
{
    broadcast use group_step_kept;
    assert(0x80 <= opcode <= 0x8f);
    if opcode == 0x80 {
        assert(frame_kept(e, e.row_8_spec(0x80).0));
    }
    if opcode == 0x81 {
        assert(frame_kept(e, e.row_8_spec(0x81).0));
    }
    if opcode == 0x82 {
        assert(frame_kept(e, e.row_8_spec(0x82).0));
    }
    if opcode == 0x83 {
        assert(frame_kept(e, e.row_8_spec(0x83).0));
    }
    if opcode == 0x84 {
        assert(frame_kept(e, e.row_8_spec(0x84).0));
    }
    if opcode == 0x85 {
        assert(frame_kept(e, e.row_8_spec(0x85).0));
    }
    if opcode == 0x86 {
        assert(frame_kept(e, e.row_8_spec(0x86).0));
    }
    if opcode == 0x87 {
        assert(frame_kept(e, e.row_8_spec(0x87).0));
    }
    if opcode == 0x88 {
        assert(frame_kept(e, e.row_8_spec(0x88).0));
    }
    if opcode == 0x89 {
        assert(frame_kept(e, e.row_8_spec(0x89).0));
    }
    if opcode == 0x8a {
        assert(frame_kept(e, e.row_8_spec(0x8a).0));
    }
    if opcode == 0x8b {
        assert(frame_kept(e, e.row_8_spec(0x8b).0));
    }
    if opcode == 0x8c {
        assert(frame_kept(e, e.row_8_spec(0x8c).0));
    }
    if opcode == 0x8d {
        assert(frame_kept(e, e.row_8_spec(0x8d).0));
    }
    if opcode == 0x8e {
        assert(frame_kept(e, e.row_8_spec(0x8e).0));
    }
    if opcode == 0x8f {
        assert(frame_kept(e, e.row_8_spec(0x8f).0));
    }
}

proof fn lemma_row_9_kept(e: NesEmulator, opcode: u8)
    requires
        opcode / 16 == 0x9,
    ensures
        frame_kept(e, e.row_9_spec(opcode).0),
{
    broadcast use group_step_kept;
    assert(0x90 <= opcode <= 0x9f);
    if opcode == 0x90 {
        assert(frame_kept(e, e.row_9_spec(0x90).0));
    }
    if opcode == 0x91 {
        assert(frame_kept(e, e.row_9_spec(0x91).0));
    }
    if opcode == 0x92 {
        assert(frame_kept(e, e.row_9_spec(0x92).0));
    }
    if opcode == 0x93 {
        assert(frame_kept(e, e.row_9_spec(0x93).0));
    }
    if opcode == 0x94 {
        assert(frame_kept(e, e.row_9_spec(0x94).0));
    }
    if opcode == 0x95 {
        assert(frame_kept(e, e.row_9_spec(0x95).0));
    }
    if opcode == 0x96 {
        assert(frame_kept(e, e.row_9_spec(0x96).0));
    }
    if opcode == 0x97 {
        assert(frame_kept(e, e.row_9_spec(0x97).0));
    }
    if opcode == 0x98 {
        assert(frame_kept(e, e.row_9_spec(0x98).0));
    }
    if opcode == 0x99 {
        assert(frame_kept(e, e.row_9_spec(0x99).0));
    }
    if opcode == 0x9a {
        assert(frame_kept(e, e.row_9_spec(0x9a).0));
    }
    if opcode == 0x9b {
        assert(frame_kept(e, e.row_9_spec(0x9b).0));
    }
    if opcode == 0x9c {
        assert(frame_kept(e, e.row_9_spec(0x9c).0));
    }
    if opcode == 0x9d {
        assert(frame_kept(e, e.row_9_spec(0x9d).0));
    }
    if opcode == 0x9e {
        assert(frame_kept(e, e.row_9_spec(0x9e).0));
    }
    if opcode == 0x9f {
        assert(frame_kept(e, e.row_9_spec(0x9f).0));
    }
}

proof fn lemma_row_a_kept(e: NesEmulator, opcode: u8)
    requires
        opcode / 16 == 0xa,
    ensures
        frame_kept(e, e.row_a_spec(opcode).0),
{
    broadcast use group_step_kept;
    assert(0xa0 <= opcode <= 0xaf);
    if opcode == 0xa0 {
        assert(frame_kept(e, e.row_a_spec(0xa0).0));
    }
    if opcode == 0xa1 {
        assert(frame_kept(e, e.row_a_spec(0xa1).0));
    }
    if opcode == 0xa2 {
        assert(frame_kept(e, e.row_a_spec(0xa2).0));
    }
    if opcode == 0xa3 {
        assert(frame_kept(e, e.row_a_spec(0xa3).0));
    }
    if opcode == 0xa4 {
        assert(frame_kept(e, e.row_a_spec(0xa4).0));
    }
    if opcode == 0xa5 {
        assert(frame_kept(e, e.row_a_spec(0xa5).0));
    }
    if opcode == 0xa6 {
        assert(frame_kept(e, e.row_a_spec(0xa6).0));
    }
    if opcode == 0xa7 {
        assert(frame_kept(e, e.row_a_spec(0xa7).0));
    }
    if opcode == 0xa8 {
        assert(frame_kept(e, e.row_a_spec(0xa8).0));
    }
    if opcode == 0xa9 {
        assert(frame_kept(e, e.row_a_spec(0xa9).0));
    }
    if opcode == 0xaa {
        assert(frame_kept(e, e.row_a_spec(0xaa).0));
    }
    if opcode == 0xab {
        assert(frame_kept(e, e.row_a_spec(0xab).0));
    }
    if opcode == 0xac {
        assert(frame_kept(e, e.row_a_spec(0xac).0));
    }
    if opcode == 0xad {
        assert(frame_kept(e, e.row_a_spec(0xad).0));
    }
    if opcode == 0xae {
        assert(frame_kept(e, e.row_a_spec(0xae).0));
    }
    if opcode == 0xaf {
        assert(frame_kept(e, e.row_a_spec(0xaf).0));
    }
}

proof fn lemma_row_b_kept(e: NesEmulator, opcode: u8)
    requires
        opcode / 16 == 0xb,
    ensures
        frame_kept(e, e.row_b_spec(opcode).0),
{
    broadcast use group_step_kept;
    assert(0xb0 <= opcode <= 0xbf);
    if opcode == 0xb0 {
        assert(frame_kept(e, e.row_b_spec(0xb0).0));
    }
    if opcode == 0xb1 {
        assert(frame_kept(e, e.row_b_spec(0xb1).0));
    }
    if opcode == 0xb2 {
        assert(frame_kept(e, e.row_b_spec(0xb2).0));
    }
    if opcode == 0xb3 {
        assert(frame_kept(e, e.row_b_spec(0xb3).0));
    }
    if opcode == 0xb4 {
        assert(frame_kept(e, e.row_b_spec(0xb4).0));
    }
    if opcode == 0xb5 {
        assert(frame_kept(e, e.row_b_spec(0xb5).0));
    }
    if opcode == 0xb6 {
        assert(frame_kept(e, e.row_b_spec(0xb6).0));
    }
    if opcode == 0xb7 {
        assert(frame_kept(e, e.row_b_spec(0xb7).0));
    }
    if opcode == 0xb8 {
        assert(frame_kept(e, e.row_b_spec(0xb8).0));
    }
    if opcode == 0xb9 {
        assert(frame_kept(e, e.row_b_spec(0xb9).0));
    }
    if opcode == 0xba {
        assert(frame_kept(e, e.row_b_spec(0xba).0));
    }
    if opcode == 0xbb {
        assert(frame_kept(e, e.row_b_spec(0xbb).0));
    }
    if opcode == 0xbc {
        assert(frame_kept(e, e.row_b_spec(0xbc).0));
    }
    if opcode == 0xbd {
        assert(frame_kept(e, e.row_b_spec(0xbd).0));
    }
    if opcode == 0xbe {
        assert(frame_kept(e, e.row_b_spec(0xbe).0));
    }
    if opcode == 0xbf {
        assert(frame_kept(e, e.row_b_spec(0xbf).0));
    }
}

proof fn lemma_row_c_kept(e: NesEmulator, opcode: u8)
    requires
        opcode / 16 == 0xc,
    ensures
        frame_kept(e, e.row_c_spec(opcode).0),
{
    broadcast use group_step_kept;
    assert(0xc0 <= opcode <= 0xcf);
    if opcode == 0xc0 {
        assert(frame_kept(e, e.row_c_spec(0xc0).0));
    }
    if opcode == 0xc1 {
        assert(frame_kept(e, e.row_c_spec(0xc1).0));
    }
    if opcode == 0xc2 {
        assert(frame_kept(e, e.row_c_spec(0xc2).0));
    }
    if opcode == 0xc3 {
        assert(frame_kept(e, e.row_c_spec(0xc3).0));
    }
    if opcode == 0xc4 {
        assert(frame_kept(e, e.row_c_spec(0xc4).0));
    }
    if opcode == 0xc5 {
        assert(frame_kept(e, e.row_c_spec(0xc5).0));
    }
    if opcode == 0xc6 {
        assert(frame_kept(e, e.row_c_spec(0xc6).0));
    }
    if opcode == 0xc7 {
        assert(frame_kept(e, e.row_c_spec(0xc7).0));
    }
    if opcode == 0xc8 {
        assert(frame_kept(e, e.row_c_spec(0xc8).0));
    }
    if opcode == 0xc9 {
        assert(frame_kept(e, e.row_c_spec(0xc9).0));
    }
    if opcode == 0xca {
        assert(frame_kept(e, e.row_c_spec(0xca).0));
    }
    if opcode == 0xcb {
        assert(frame_kept(e, e.row_c_spec(0xcb).0));
    }
    if opcode == 0xcc {
        assert(frame_kept(e, e.row_c_spec(0xcc).0));
    }
    if opcode == 0xcd {
        assert(frame_kept(e, e.row_c_spec(0xcd).0));
    }
    if opcode == 0xce {
        assert(frame_kept(e, e.row_c_spec(0xce).0));
    }
    if opcode == 0xcf {
        assert(frame_kept(e, e.row_c_spec(0xcf).0));
    }
}

proof fn lemma_row_d_kept(e: NesEmulator, opcode: u8)
    requires
        opcode / 16 == 0xd,
    ensures
        frame_kept(e, e.row_d_spec(opcode).0),
{
    broadcast use group_step_kept;
    assert(0xd0 <= opcode <= 0xdf);
    if opcode == 0xd0 {
        assert(frame_kept(e, e.row_d_spec(0xd0).0));
    }
    if opcode == 0xd1 {
        assert(frame_kept(e, e.row_d_spec(0xd1).0));
    }
    if opcode == 0xd2 {
        assert(frame_kept(e, e.row_d_spec(0xd2).0));
    }
    if opcode == 0xd3 {
        assert(frame_kept(e, e.row_d_spec(0xd3).0));
    }
    if opcode == 0xd4 {
        assert(frame_kept(e, e.row_d_spec(0xd4).0));
    }
    if opcode == 0xd5 {
        assert(frame_kept(e, e.row_d_spec(0xd5).0));
    }
    if opcode == 0xd6 {
        assert(frame_kept(e, e.row_d_spec(0xd6).0));
    }
    if opcode == 0xd7 {
        assert(frame_kept(e, e.row_d_spec(0xd7).0));
    }
    if opcode == 0xd8 {
        assert(frame_kept(e, e.row_d_spec(0xd8).0));
    }
    if opcode == 0xd9 {
        assert(frame_kept(e, e.row_d_spec(0xd9).0));
    }
    if opcode == 0xda {
        assert(frame_kept(e, e.row_d_spec(0xda).0));
    }
    if opcode == 0xdb {
        assert(frame_kept(e, e.row_d_spec(0xdb).0));
    }
    if opcode == 0xdc {
        assert(frame_kept(e, e.row_d_spec(0xdc).0));
    }
    if opcode == 0xdd {
        assert(frame_kept(e, e.row_d_spec(0xdd).0));
    }
    if opcode == 0xde {
        assert(frame_kept(e, e.row_d_spec(0xde).0));
    }
    if opcode == 0xdf {
        assert(frame_kept(e, e.row_d_spec(0xdf).0));
    }
}

proof fn lemma_row_e_kept(e: NesEmulator, opcode: u8)
    requires
        opcode / 16 == 0xe,
    ensures
        frame_kept(e, e.row_e_spec(opcode).0),
{
    broadcast use group_step_kept;
    assert(0xe0 <= opcode <= 0xef);
    if opcode == 0xe0 {
        assert(frame_kept(e, e.row_e_spec(0xe0).0));
    }
    if opcode == 0xe1 {
        assert(frame_kept(e, e.row_e_spec(0xe1).0));
    }
    if opcode == 0xe2 {
        assert(frame_kept(e, e.row_e_spec(0xe2).0));
    }
    if opcode == 0xe3 {
        assert(frame_kept(e, e.row_e_spec(0xe3).0));
    }
    if opcode == 0xe4 {
        assert(frame_kept(e, e.row_e_spec(0xe4).0));
    }
    if opcode == 0xe5 {
        assert(frame_kept(e, e.row_e_spec(0xe5).0));
    }
    if opcode == 0xe6 {
        assert(frame_kept(e, e.row_e_spec(0xe6).0));
    }
    if opcode == 0xe7 {
        assert(frame_kept(e, e.row_e_spec(0xe7).0));
    }
    if opcode == 0xe8 {
        assert(frame_kept(e, e.row_e_spec(0xe8).0));
    }
    if opcode == 0xe9 {
        assert(frame_kept(e, e.row_e_spec(0xe9).0));
    }
    if opcode == 0xea {
        assert(frame_kept(e, e.row_e_spec(0xea).0));
    }
    if opcode == 0xeb {
        assert(frame_kept(e, e.row_e_spec(0xeb).0));
    }
    if opcode == 0xec {
        assert(frame_kept(e, e.row_e_spec(0xec).0));
    }
    if opcode == 0xed {
        assert(frame_kept(e, e.row_e_spec(0xed).0));
    }
    if opcode == 0xee {
        assert(frame_kept(e, e.row_e_spec(0xee).0));
    }
    if opcode == 0xef {
        assert(frame_kept(e, e.row_e_spec(0xef).0));
    }
}

proof fn lemma_row_f_kept(e: NesEmulator, opcode: u8)
    requires
        opcode / 16 == 0xf,
    ensures
        frame_kept(e, e.row_f_spec(opcode).0),
{
    broadcast use group_step_kept;
    assert(0xf0 <= opcode <= 0xff);
    if opcode == 0xf0 {
        assert(frame_kept(e, e.row_f_spec(0xf0).0));
    }
    if opcode == 0xf1 {
        assert(frame_kept(e, e.row_f_spec(0xf1).0));
    }
    if opcode == 0xf2 {
        assert(frame_kept(e, e.row_f_spec(0xf2).0));
    }
    if opcode == 0xf3 {
        assert(frame_kept(e, e.row_f_spec(0xf3).0));
    }
    if opcode == 0xf4 {
        assert(frame_kept(e, e.row_f_spec(0xf4).0));
    }
    if opcode == 0xf5 {
        assert(frame_kept(e, e.row_f_spec(0xf5).0));
    }
    if opcode == 0xf6 {
        assert(frame_kept(e, e.row_f_spec(0xf6).0));
    }
    if opcode == 0xf7 {
        assert(frame_kept(e, e.row_f_spec(0xf7).0));
    }
    if opcode == 0xf8 {
        assert(frame_kept(e, e.row_f_spec(0xf8).0));
    }
    if opcode == 0xf9 {
        assert(frame_kept(e, e.row_f_spec(0xf9).0));
    }
    if opcode == 0xfa {
        assert(frame_kept(e, e.row_f_spec(0xfa).0));
    }
    if opcode == 0xfb {
        assert(frame_kept(e, e.row_f_spec(0xfb).0));
    }
    if opcode == 0xfc {
        assert(frame_kept(e, e.row_f_spec(0xfc).0));
    }
    if opcode == 0xfd {
        assert(frame_kept(e, e.row_f_spec(0xfd).0));
    }
    if opcode == 0xfe {
        assert(frame_kept(e, e.row_f_spec(0xfe).0));
    }
    if opcode == 0xff {
        assert(frame_kept(e, e.row_f_spec(0xff).0));
    }
}

/// One instruction keeps the episode flags, and a set unused status bit.
proof fn lemma_execute_kept(e: NesEmulator, opcode: u8)
    ensures
        frame_kept(e, e.execute_spec(opcode).0),
{
    reveal(NesEmulator::execute_spec);
    let row = opcode / 16;
    if row == 0 {
        lemma_row_0_kept(e, opcode);
    } else if row == 1 {
        lemma_row_1_kept(e, opcode);
    } else if row == 2 {
        lemma_row_2_kept(e, opcode);
    } else if row == 3 {
        lemma_row_3_kept(e, opcode);
    } else if row == 4 {
        lemma_row_4_kept(e, opcode);
    } else if row == 5 {
        lemma_row_5_kept(e, opcode);
    } else if row == 6 {
        lemma_row_6_kept(e, opcode);
    } else if row == 7 {
        lemma_row_7_kept(e, opcode);
    } else if row == 8 {
        lemma_row_8_kept(e, opcode);
    } else if row == 9 {
        lemma_row_9_kept(e, opcode);
    } else if row == 10 {
        lemma_row_a_kept(e, opcode);
    } else if row == 11 {
        lemma_row_b_kept(e, opcode);
    } else if row == 12 {
        lemma_row_c_kept(e, opcode);
    } else if row == 13 {
        lemma_row_d_kept(e, opcode);
    } else if row == 14 {
        lemma_row_e_kept(e, opcode);
    } else if row == 15 {
        lemma_row_f_kept(e, opcode);
    }
}

/// A fetched and executed instruction keeps the episode flags, and a set
/// unused status bit.
pub proof fn lemma_step_kept(e: NesEmulator)
    ensures
        frame_kept(e, e.step_spec().0),
{
    reveal(NesEmulator::step_spec);
    lemma_fetch_kept(e);
    let (s1, opcode) = e.fetch_spec();
    lemma_execute_kept(s1, opcode);
}

/// The frame loop keeps the episode flags, and a set unused status bit.
pub proof fn lemma_frame_loop_kept(e: NesEmulator, guard: int, pending: int)
    ensures
        frame_kept(e, e.frame_loop(guard, pending)),
    decreases CPU_CYCLES_PER_FRAME_GUARD - guard,
{
    let s0 = e.with_ppu(crate::ppu::Ppu { nmi_pending: false, ..e.ppu });
    let s1 = if e.ppu.nmi_pending {
        lemma_interrupt_u_set(s0, 0xfffa, false);
        s0.interrupt_spec(0xfffa, false)
    } else {
        s0
    };
    lemma_step_kept(s1);
    let (s2, cycles) = s1.step_spec();
    let g = guard + cycles;
    let pend = pending + cycles * 3;
    if pend >= next_event_dot(s2.ppu.frame_dot as int) - s2.ppu.frame_dot || g >= CPU_CYCLES_PER_FRAME_GUARD {
        let (p, completed) = s2.ppu.tick_spec(pend as nat);
        let s3 = s2.with_ppu(p);
        if !(completed || g >= CPU_CYCLES_PER_FRAME_GUARD || g <= guard) {
            lemma_frame_loop_kept(s3, g, 0);
        }
    } else if g > guard {
        lemma_frame_loop_kept(s2, g, pend);
    }
}

/// A frame run keeps the episode flags, and a set unused status bit.
pub proof fn lemma_run_frame_kept(e: NesEmulator, buttons: u8)
    ensures
        frame_kept(e, e.run_frame_spec(buttons)),
{
    lemma_frame_loop_kept(NesEmulator { controller_state: buttons, ..e }, 0, 0);
}

impl NesEmulator {
    /// Once the unused status bit is set it stays set through every
    /// instruction; PLP and RTI (opcodes 0x28, 0x40) leave the break bit
    /// clear; and no instruction touches the episode flags.
    pub proof fn lemma_step_status(self)
        ensures
            self.cpu.p & FLAG_U != 0 ==> self.step_spec().0.cpu.p & FLAG_U != 0,
            self.step_spec().0.done == self.done,
            self.step_spec().0.terminate_on_flag == self.terminate_on_flag,
            (self.fetch_spec().1 == 0x28 || self.fetch_spec().1 == 0x40) ==> self.step_spec().0.cpu.p & FLAG_B
                == 0,
    {
        lemma_step_kept(self);
        reveal(NesEmulator::step_spec);
        lemma_fetch_kept(self);
        let (s1, opcode) = self.fetch_spec();
        if opcode == 0x28 || opcode == 0x40 {
            reveal(NesEmulator::execute_spec);
            let (s2, v) = s1.pop_spec();
            lemma_pulled_status(v);
            let s3 = s2.with_cpu(crate::emulator::Cpu { p: (v & !FLAG_B) | FLAG_U, ..s2.cpu });
            lemma_pop_u16_kept(s3);
        }
    }

    /// The episode ends only at the flagpole, and only when the emulator
    /// was built to terminate there: a frame step that sets the done flag
    /// starts from a running episode with flagpole termination on, and ends
    /// with the player at or past the flagpole.
    pub proof fn lemma_done_only_at_flagpole(self, action: MarioAction)
        ensures
            self.step_frame_spec(action).0.done ==> self.done || (self.terminate_on_flag
                && self.step_frame_spec(action).0.x_pos >= FLAG_X_POS),
            self.step_frame_spec(action).0.terminate_on_flag == self.terminate_on_flag,
    {
        lemma_run_frame_kept(self, buttons_of(action));
    }
}

/// The state a run of the public calls keeps: the game variables match
/// RAM, and the episode is done only past the flagpole with flagpole
/// termination on.
pub open spec fn episode_consistent(e: NesEmulator) -> bool {
    &&& e.info_synced()
    &&& (e.done ==> e.terminate_on_flag && e.x_pos >= FLAG_X_POS)
}

/// A reset (or freshly built) emulator is consistent, and every frame step
/// and every state load, successful or not, keeps it so. In every state
/// reached through these calls the getters are their RAM formulas
/// (`NesEmulator::lemma_info_matches_ram`) and `done` implies flagpole
/// termination at `x_pos >= FLAG_X_POS`.
pub proof fn lemma_episode_consistent(e: NesEmulator, before: NesEmulator, action: MarioAction, loaded: NesEmulator, state: Seq<u8>)
    ensures
        e.reset_from(before) ==> episode_consistent(e),
        episode_consistent(e) ==> episode_consistent(e.step_frame_spec(action).0),
        (loaded.fceu_loaded(before, state) && loaded.wf()) ==> episode_consistent(
            loaded.refreshed().run_frame_spec(0).refreshed(),
        ),
{
    e.lemma_done_only_at_flagpole(action);
    let r = e.run_frame_spec(buttons_of(action)).refreshed();
    assert(r.refreshed().x_pos == r.x_pos);
    let l = loaded.refreshed().run_frame_spec(0);
    lemma_run_frame_kept(loaded.refreshed(), 0);
    assert(l.refreshed().refreshed().x_pos == l.refreshed().x_pos);
}

/// A pulled word depends only on the stack pointer and RAM; pulling moves
/// the stack pointer up by two and changes nothing else.
pub(crate) proof fn lemma_pop_u16_reads_stack(x: NesEmulator)
    ensures
        ({
            let sp2 = wrap8(wrap8(x.cpu.sp as int + 1) as int + 1);
            let lo = x.ram[(0x100 + wrap8(x.cpu.sp as int + 1) as int) % 0x800];
            let hi = x.ram[(0x100 + sp2 as int) % 0x800];
            &&& x.pop_u16_spec().0 == x.with_cpu(Cpu { sp: sp2, ..x.cpu })
            &&& x.pop_u16_spec().1 == (lo as int + 256 * hi as int) as u16
        }),
{
    reveal(NesEmulator::pop_u16_spec);
    reveal(NesEmulator::pop_spec);
    reveal(NesEmulator::bus_read);
}

/// A read of PRG ROM (0x8000 and up) changes nothing.
proof fn lemma_rom_read(x: NesEmulator, addr: u16)
    requires
        addr >= 0x8000,
    ensures
        x.bus_read(addr) == (x, x.prg_at(addr)),
{
    reveal(NesEmulator::bus_read);
}

/// The JSR and RTS rows of the opcode table.
proof fn lemma_jsr_rts_rows(e: NesEmulator)
    ensures
        e.execute_spec(0x20) == ({
            let (s1, a) = e.fetch_u16_spec();
            (s1.push_u16_spec(s1.cpu.pc.wrapping_sub(1)).set_pc(a), 6u16)
        }),
        e.execute_spec(0x60) == ({
            let (s1, pc) = e.pop_u16_spec();
            (s1.set_pc(pc.wrapping_add(1)), 6u16)
        }),
{
    assert(e.execute_spec(0x20) == e.row_2_spec(0x20)) by {
        reveal(NesEmulator::execute_spec);
    }
    assert(e.execute_spec(0x60) == e.row_6_spec(0x60)) by {
        reveal(NesEmulator::execute_spec);
    }
}

/// One step from a fetch of opcode `op` that runs `op`'s row.
proof fn lemma_step_of(e: NesEmulator)
    ensures
        e.step_spec() == ({
            let (s1, opcode) = e.fetch_spec();
            let (s2, cycles) = s1.execute_spec(opcode);
            let total = cycles as int + s2.extra_cycles as int;
            (NesEmulator { extra_cycles: 0, ..s2 }, if total > 0xffff { 0xffff } else { total as u16 })
        }),
{
    reveal(NesEmulator::step_spec);
}

/// A fetch from ROM reads the byte at PC and moves PC past it.
proof fn lemma_rom_fetch(e: NesEmulator)
    requires
        e.cpu.pc >= 0x8000,
    ensures
        e.fetch_spec() == (e.set_pc(wrap16(e.cpu.pc as int + 1)), e.prg_at(e.cpu.pc)),
{
    reveal(NesEmulator::fetch_spec);
    lemma_rom_read(e, e.cpu.pc);
}

/// The JSR half: a JSR in ROM takes 6 cycles, jumps to its operand and
/// pushes the address of its last byte.
proof fn lemma_jsr_step(e: NesEmulator)
    requires
        0x8000 <= e.cpu.pc <= 0xfffd,
        e.prg_at(e.cpu.pc) == 0x20,
        e.extra_cycles == 0,
    ensures
        ({
            let pc = e.cpu.pc;
            let target = (e.prg_at((pc + 1) as u16) as int + 256 * e.prg_at((pc + 2) as u16) as int) as u16;
            let f2 = e.set_pc(wrap16(pc + 3));
            let (s1, c1) = e.step_spec();
            &&& c1 == 6
            &&& s1 == (NesEmulator { extra_cycles: 0, ..f2.push_u16_spec((pc + 2) as u16).set_pc(target) })
            &&& s1.extra_cycles == 0
        }),
{
    let pc = e.cpu.pc;
    let lo = e.prg_at((pc + 1) as u16);
    let hi = e.prg_at((pc + 2) as u16);
    let target = (lo as int + 256 * hi as int) as u16;
    lemma_step_of(e);
    lemma_rom_fetch(e);
    let f0 = e.set_pc(wrap16(pc + 1));
    assert(wrap16(pc + 1) == (pc + 1) as u16 && wrap16(pc + 2) == (pc + 2) as u16);
    lemma_rom_fetch(f0);
    let f1 = f0.set_pc(wrap16(pc + 2));
    lemma_rom_fetch(f1);
    let f2 = f1.set_pc(wrap16(pc + 3));
    assert(f0.fetch_spec() == (f1, lo));
    assert(f1.fetch_spec() == (f2, hi));
    assert(f0.fetch_u16_spec() == (f2, target)) by {
        reveal(NesEmulator::fetch_u16_spec);
    }
    lemma_jsr_rts_rows(f0);
    lemma_push_u16_ram(f2, (pc + 2) as u16);
    assert(f2 == e.set_pc(wrap16(pc + 3)));
    assert(f2.cpu.pc.wrapping_sub(1) == (pc + 2) as u16);
}

impl NesEmulator {
    /// JSR then RTS returns: when PC (in ROM, with room for the operand)
    /// holds a JSR to a ROM address that holds RTS, and no DMA stall is
    /// pending, the JSR takes 6 cycles and jumps to the target with two
    /// bytes pushed; the RTS takes 6 cycles and comes back to the
    /// instruction after the JSR with the stack pointer and every other
    /// register as before.
    pub proof fn lemma_jsr_then_rts(self)
        requires
            0x8000 <= self.cpu.pc <= 0xfffd,
            self.prg_at(self.cpu.pc) == 0x20,
            self.prg_at((self.cpu.pc + 1) as u16) as int + 256 * self.prg_at((self.cpu.pc + 2) as u16) as int
                >= 0x8000,
            self.prg_at(
                (self.prg_at((self.cpu.pc + 1) as u16) as int + 256 * self.prg_at((self.cpu.pc + 2) as u16) as int)
                    as u16,
            ) == 0x60,
            self.extra_cycles == 0,
        ensures
            ({
                let target = (self.prg_at((self.cpu.pc + 1) as u16) as int + 256 * self.prg_at(
                    (self.cpu.pc + 2) as u16,
                ) as int) as u16;
                let (s1, c1) = self.step_spec();
                let (s2, c2) = s1.step_spec();
                &&& c1 == 6
                &&& s1.cpu == (Cpu { pc: target, sp: wrap8(wrap8(self.cpu.sp as int - 1) as int - 1), ..self.cpu })
                &&& c2 == 6
                &&& s2.cpu == (Cpu { pc: self.cpu.pc.wrapping_add(3), ..self.cpu })
            }),
    {
        let pc = self.cpu.pc;
        let target = (self.prg_at((pc + 1) as u16) as int + 256 * self.prg_at((pc + 2) as u16) as int) as u16;
        lemma_jsr_step(self);
        let f2 = self.set_pc(wrap16(pc + 3));
        let ret = (pc + 2) as u16;
        let pushed = f2.push_u16_spec(ret);
        lemma_push_u16_kept(f2, ret);
        lemma_push_u16_ram(f2, ret);
        let s1 = NesEmulator { extra_cycles: 0, ..pushed.set_pc(target) };
        assert(self.step_spec().0 == s1);
        // RTS: opcode from ROM, return address from the stack.
        lemma_step_of(s1);
        lemma_rom_fetch(s1);
        let g0 = s1.set_pc(wrap16(target as int + 1));
        lemma_jsr_rts_rows(g0);
        lemma_pop_u16_reads_stack(g0);
        lemma_pop_u16_reads_stack(pushed);
        f2.lemma_push_then_pop_u16(ret);
        assert(g0.ram == pushed.ram);
        assert(g0.cpu.sp == pushed.cpu.sp);
        assert(g0.pop_u16_spec().1 == ret);
        assert(ret.wrapping_add(1) == pc.wrapping_add(3));
        let q = g0.pop_u16_spec().0;
        assert(q.cpu == Cpu { sp: self.cpu.sp, ..g0.cpu });
        let r = q.set_pc(ret.wrapping_add(1));
        assert(g0.execute_spec(0x60) == (r, 6u16));
        assert(r.extra_cycles == 0);
        assert(s1.fetch_spec().1 == 0x60);
        assert(s1.step_spec() == (NesEmulator { extra_cycles: 0, ..r }, 6u16));
        assert(r.cpu == Cpu { pc: pc.wrapping_add(3), ..self.cpu });
    }
}

/// A word push writes only RAM and the stack pointer: the DMA stall counter
/// stays.
proof fn lemma_push_u16_ram(e: NesEmulator, word: u16)
    ensures
        e.push_u16_spec(word).extra_cycles == e.extra_cycles,
        e.push_u16_spec(word).cpu == (Cpu { sp: wrap8(wrap8(e.cpu.sp as int - 1) as int - 1), ..e.cpu }),
        e.push_u16_spec(word).prg_rom == e.prg_rom,
        e.push_u16_spec(word).prg_addr_mask == e.prg_addr_mask,
{
    reveal(NesEmulator::push_u16_spec);
    reveal(NesEmulator::push_spec);
    reveal(NesEmulator::bus_write);
}

} // verus!
