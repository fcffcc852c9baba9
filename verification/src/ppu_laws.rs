//! What the PPU registers do, seen from the CPU: PPUDATA reads and writes
//! at PPUADDR and advance it, the PPUSTATUS read, the two-write PPUADDR and
//! PPUSCROLL latches, OAM access, and the start of vblank.
use vstd::prelude::*;

use crate::emulator::PPU_VBLANK_DOT;
use crate::ppu::{same_cell, Ppu};

verus! {

/// The bit facts the register laws rest on.
proof fn lemma_register_bits(t: u16, hi: u8, lo: u8, st: u8, x: u8)
    ensures
        (((((t & 0x00ff) | (((hi as u16) & 0x3f) << 8u16)) as u16) & 0xff00) | (lo as u16)) as int == (hi & 0x3f)
            as int * 256 + lo as int,
        (st & 0x7f) & 0x80 == 0,
        (st & 0x7f) & 0x7f == st & 0x7f,
        (st | 0x80) & 0x80 != 0,
        (st | 0x80) & 0x7f == st & 0x7f,
        x & 0x07 == x % 8,
{
    assert({
        &&& (((((t & 0x00ff) | (((hi as u16) & 0x3f) << 8u16)) as u16) & 0xff00) | (lo as u16)) as int == (hi
            & 0x3f) as int * 256 + lo as int
        &&& (st & 0x7f) & 0x80 == 0
        &&& (st & 0x7f) & 0x7f == st & 0x7f
        &&& (st | 0x80) & 0x80 != 0
        &&& (st | 0x80) & 0x7f == st & 0x7f
        &&& x & 0x07 == x % 8
    }) by (bit_vector);
}

impl Ppu {
    /// A PPUDATA write (register 7) stores the byte at PPUADDR (taken modulo
    /// 0x4000): afterwards every address in the same cell (its mirrors)
    /// reads the byte and every other address reads what it did, CHR ROM
    /// excepted; PPUADDR then advances by 32 when PPUCTRL bit 2 is set and
    /// by 1 otherwise, wrapping at 0x4000. Nothing else changes.
    pub proof fn lemma_ppudata_write(self, reg: u16, value: u8, other: u16)
        requires
            reg % 8 == 7,
        ensures
            ({
                let r = self.write_register_spec(reg, value);
                let at = (self.addr as int % 0x4000) as u16;
                &&& r.addr as int == (self.addr as int + if self.ctrl & 0x04 != 0 { 32int } else { 1 }) % 0x4000
                &&& r.ppu_read_spec(other) == if same_cell(self.vertical_mirroring, at, other) {
                    value
                } else {
                    self.ppu_read_spec(other)
                }
                &&& r == (Ppu { vram: r.vram, palette: r.palette, addr: r.addr, ..self })
            }),
    {
        let at = (self.addr as int % 0x4000) as u16;
        self.lemma_write_then_read(at, value, other);
        let w = self.ppu_write_spec(at, value);
        assert(w.ppu_read_spec(other) == Ppu { addr: self.next_data_addr(), ..w }.ppu_read_spec(other));
    }

    /// A PPUDATA read (register 7) below the palettes returns the read
    /// buffer and refills it with the byte at PPUADDR; a palette read
    /// returns the palette byte at once and leaves the buffer. PPUADDR
    /// advances as for a write. Nothing else changes.
    pub proof fn lemma_ppudata_read(self, reg: u16)
        requires
            reg % 8 == 7,
        ensures
            ({
                let (r, byte) = self.read_register_spec(reg);
                let at = (self.addr as int % 0x4000) as u16;
                &&& r.addr as int == (self.addr as int + if self.ctrl & 0x04 != 0 { 32int } else { 1 }) % 0x4000
                &&& at < 0x3f00 ==> byte == self.data_buffer && r.data_buffer == self.ppu_read_spec(at)
                &&& at >= 0x3f00 ==> byte == self.ppu_read_spec(at) && r.data_buffer == self.data_buffer
                &&& r == (Ppu { data_buffer: r.data_buffer, addr: r.addr, ..self })
            }),
    {
    }

    /// A PPUSTATUS read (register 2) returns the status, then clears the
    /// vblank bit (7) and resets the PPUADDR/PPUSCROLL write latch; the
    /// other status bits and everything else stay.
    pub proof fn lemma_ppustatus_read(self, reg: u16)
        requires
            reg % 8 == 2,
        ensures
            ({
                let (r, byte) = self.read_register_spec(reg);
                &&& byte == self.status
                &&& r.status & 0x80 == 0
                &&& r.status & 0x7f == self.status & 0x7f
                &&& r == (Ppu { status: r.status, first_write: true, ..self })
            }),
    {
        lemma_register_bits(0, 0, 0, self.status, 0);
    }

    /// Two PPUADDR writes (register 6) from a reset latch set PPUADDR to
    /// the high byte (its low six bits) times 256 plus the low byte, and
    /// leave the latch reset; only the address registers change.
    pub proof fn lemma_ppuaddr_pair(self, reg: u16, hi: u8, lo: u8)
        requires
            reg % 8 == 6,
            self.first_write,
        ensures
            ({
                let r = self.write_register_spec(reg, hi).write_register_spec(reg, lo);
                &&& r.addr as int == (hi & 0x3f) as int * 256 + lo as int
                &&& r.temp_addr == r.addr
                &&& r.first_write
                &&& r == (Ppu { addr: r.addr, temp_addr: r.temp_addr, ..self })
            }),
    {
        lemma_register_bits(self.temp_addr, hi, lo, 0, 0);
    }

    /// Two PPUSCROLL writes (register 5) from a reset latch set the fine X
    /// scroll to the low three bits of the first byte, the X scroll byte to
    /// the first byte and the Y scroll to the second, and leave the latch
    /// reset.
    pub proof fn lemma_ppuscroll_pair(self, reg: u16, x: u8, y: u8)
        requires
            reg % 8 == 5,
            self.first_write,
        ensures
            ({
                let r = self.write_register_spec(reg, x).write_register_spec(reg, y);
                &&& r.fine_x as int == x as int % 8
                &&& r.scroll_x_low == x
                &&& r.scroll_x_px as int == (self.ctrl % 2) as int * 256 + x as int
                &&& r.scroll_y_px == y as u16
                &&& r.first_write
                &&& r.ctrl == self.ctrl && r.mask == self.mask && r.addr == self.addr && r.vram == self.vram
            }),
    {
        lemma_register_bits(0, 0, 0, 0, x);
    }

    /// An OAMDATA write (register 4) stores the byte at OAMADDR and moves
    /// OAMADDR on by one (wrapping); an OAMDATA read returns the byte at
    /// OAMADDR and changes nothing; an OAMADDR write (register 3) sets it.
    pub proof fn lemma_oam_access(self, value: u8, i: int)
        requires
            0 <= i < 256,
        ensures
            ({
                let w = self.write_register_spec(0x2004, value);
                &&& w.oam[i] == if i == self.oam_addr as int { value } else { self.oam[i] }
                &&& w.oam_addr as int == (self.oam_addr as int + 1) % 256
                &&& w == (Ppu { oam: w.oam, oam_addr: w.oam_addr, ..self })
            }),
            self.read_register_spec(0x2004) == (self, self.oam[self.oam_addr as int]),
            self.write_register_spec(0x2003, value) == (Ppu { oam_addr: value, ..self }),
    {
        broadcast use vstd::array::group_array_axioms;
    }

    /// A PPUCTRL write (register 0) sets PPUCTRL and the nametable bits of
    /// the scroll; enabling the NMI (bit 7) while vblank is flagged raises
    /// one at once; the NMI already pending stays pending.
    pub proof fn lemma_ppuctrl_write(self, reg: u16, value: u8)
        requires
            reg % 8 == 0,
        ensures
            ({
                let r = self.write_register_spec(reg, value);
                &&& r.ctrl == value
                &&& r.nmi_pending == (self.nmi_pending || (self.ctrl & 0x80 == 0 && value & 0x80 != 0 && self.status
                    & 0x80 != 0))
                &&& r.scroll_x_px as int == (value % 2) as int * 256 + self.scroll_x_low as int
                &&& r.mask == self.mask && r.vram == self.vram && r.addr == self.addr && r.oam == self.oam
            }),
    {
    }

    /// At the vblank dot the PPU sets the vblank status bit (7), keeping
    /// the others, and raises an NMI exactly when PPUCTRL bit 7 enables it
    /// (or one was pending already); no frame completes there.
    pub proof fn lemma_vblank_starts(self)
        requires
            self.frame_dot == PPU_VBLANK_DOT,
        ensures
            ({
                let (r, completed) = self.event_spec();
                &&& !completed
                &&& r.status & 0x80 != 0
                &&& r.status & 0x7f == self.status & 0x7f
                &&& r.nmi_pending == (self.nmi_pending || self.ctrl & 0x80 != 0)
                &&& r == (Ppu { status: r.status, nmi_pending: r.nmi_pending, ..self })
            }),
    {
        lemma_register_bits(0, 0, 0, self.status, 0);
    }
}


/// Nametable mirroring. Vertical mirroring puts the tables at 0x2000 and
/// 0x2400 side by side on the two pages and repeats them at 0x2800 and
/// 0x2C00; horizontal mirroring puts 0x2000 and 0x2800 on the two pages,
/// with 0x2400 and 0x2C00 repeating them. Either way offset `o` of the
/// first table is RAM byte `o`, and the whole 0x2000..0x3000 range repeats
/// up to 0x3F00.
pub proof fn lemma_nametable_mirroring(o: int, t: int)
    requires
        0 <= o < 0x400,
        0 <= t < 4,
    ensures
        crate::ppu::nametable_index(true, 0x2000 + 0x400 * t + o) == 0x400 * (t % 2) + o,
        crate::ppu::nametable_index(false, 0x2000 + 0x400 * t + o) == 0x400 * (t / 2) + o,
        t < 3 ==> crate::ppu::nametable_index(true, 0x3000 + 0x400 * t + o) == crate::ppu::nametable_index(
            true,
            0x2000 + 0x400 * t + o,
        ),
        t < 3 ==> crate::ppu::nametable_index(false, 0x3000 + 0x400 * t + o) == crate::ppu::nametable_index(
            false,
            0x2000 + 0x400 * t + o,
        ),
{
}

/// Palette mirroring: the 32 palette bytes repeat every 32 addresses up
/// to 0x3FFF; the sprite backdrop entries 0x3F10, 0x3F14, 0x3F18, 0x3F1C
/// are the background entries 0x3F00, 0x3F04, 0x3F08, 0x3F0C; every other
/// address of the first 32 is its own byte.
pub proof fn lemma_palette_mirroring(i: int, k: int)
    requires
        0 <= i < 32,
        0 <= k < 8,
    ensures
        crate::ppu::palette_index(0x3f00 + 32 * k + i) == crate::ppu::palette_index(0x3f00 + i),
        i >= 16 && i % 4 == 0 ==> crate::ppu::palette_index(0x3f00 + i) == i - 16,
        !(i >= 16 && i % 4 == 0) ==> crate::ppu::palette_index(0x3f00 + i) == i,
{
}


impl Ppu {
    /// Ticking fewer dots than remain to the next event only moves the
    /// frame dot, and the next event stays the same.
    proof fn lemma_tick_before_event(self, a: nat)
        requires
            self.frame_dot < crate::emulator::PPU_DOTS_PER_FRAME,
            0 < a,
            (a as int) < crate::ppu::next_event_dot(self.frame_dot as int) - self.frame_dot,
        ensures
            self.tick_spec(a) == (Ppu { frame_dot: (self.frame_dot + a) as usize, ..self }, false),
            crate::ppu::next_event_dot(self.frame_dot + a) == crate::ppu::next_event_dot(self.frame_dot as int),
    {
        let p1 = Ppu { frame_dot: (self.frame_dot + a) as usize, ..self };
        assert(p1.event_spec() == (p1, false));
        assert(p1.tick_spec(0) == (p1, false));
    }

    /// PPU time composes: ticking `a` dots and then `b` dots ends in the
    /// same state as ticking `a + b` dots at once, and a frame completed
    /// during either part is the frame completed at once.
    #[verifier::spinoff_prover]
    #[verifier::rlimit(60)]
    pub proof fn lemma_tick_split(self, a: nat, b: nat)
        requires
            self.frame_dot < crate::emulator::PPU_DOTS_PER_FRAME,
        ensures
            ({
                let (p1, c1) = self.tick_spec(a);
                let (p2, c2) = p1.tick_spec(b);
                self.tick_spec(a + b) == (p2, c1 || c2)
            }),
        decreases a,
    {
        let current = self.frame_dot as int;
        let step = crate::ppu::next_event_dot(current) - current;
        assert(step > 0);
        if a == 0 {
            assert(a + b == b);
        } else if (a as int) < step {
            self.lemma_tick_before_event(a);
            let p1 = Ppu { frame_dot: (current + a) as usize, ..self };
            if ((a + b) as int) < step {
                self.lemma_tick_before_event(a + b);
                if b > 0 {
                    p1.lemma_tick_before_event(b);
                    assert(Ppu { frame_dot: (p1.frame_dot + b) as usize, ..p1 } == Ppu {
                        frame_dot: (current + a + b) as usize,
                        ..self
                    });
                }
            } else {
                let step1 = crate::ppu::next_event_dot(current + a) - (current + a);
                let e = Ppu { frame_dot: (current + step) as usize, ..self };
                let e1 = Ppu { frame_dot: (p1.frame_dot as int + step1) as usize, ..p1 };
                assert(e1 == e);
                assert((a + b - step) as nat == (b - step1) as nat);
            }
        } else {
            let e = Ppu { frame_dot: (current + step) as usize, ..self };
            let (at_event, completed) = e.event_spec();
            assert(at_event.frame_dot < crate::emulator::PPU_DOTS_PER_FRAME);
            at_event.lemma_tick_split((a - step) as nat, b);
            assert((a + b - step) as nat == (a - step) as nat + b);
        }
    }
}

} // verus!
