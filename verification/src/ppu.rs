use vstd::prelude::*;

use crate::emulator::{
    PPU_DOTS_PER_FRAME, PPU_PRERENDER_DOT, PPU_SPRITE0_DOT, PPU_VBLANK_DOT,
};
use vstd::array::spec_array_update;

use crate::bits::{lemma_and_le, lemma_byte_bits, lemma_u16_bits, lemma_usize_bits};
use crate::fceu::{le_u16_of, read_u16_le};

verus! {

/// `(x + y) mod 2^16`.
pub open spec fn wrap16(x: int) -> u16 {
    (x % 0x1_0000) as u16
}

/// `(x + y) mod 2^8`.
pub open spec fn wrap8(x: int) -> u8 {
    (x % 0x100) as u8
}

/// The next dot of the frame at which the PPU has something to do:
/// vblank start, pre-render line, sprite-0 hit, end of frame.
pub open spec fn next_event_dot(current: int) -> int {
    if current < PPU_VBLANK_DOT {
        PPU_VBLANK_DOT as int
    } else if current < PPU_PRERENDER_DOT {
        PPU_PRERENDER_DOT as int
    } else if current < PPU_SPRITE0_DOT {
        PPU_SPRITE0_DOT as int
    } else {
        PPU_DOTS_PER_FRAME as int
    }
}

/// Index into the 2 KiB of nametable RAM that a PPU address in
/// `0x2000..0x3f00` reaches: the four logical 1 KiB tables (repeating every
/// 4 KiB) fold onto two physical pages, side by side under vertical
/// mirroring and one above the other under horizontal mirroring.
pub open spec fn nametable_index(vertical_mirroring: bool, addr: int) -> int {
    let v = (addr - 0x2000) % 0x1000;
    let table = v / 0x400;
    let physical_table = if vertical_mirroring { table % 2 } else { (table / 2) % 2 };
    physical_table * 0x400 + v % 0x400
}

/// Index into the 32 palette bytes that a PPU address in `0x3f00..0x4000`
/// reaches: the addresses repeat every 32 bytes, and the four sprite
/// backdrop entries `0x10, 0x14, 0x18, 0x1c` alias `0x00, 0x04, 0x08, 0x0c`.
pub open spec fn palette_index(addr: int) -> int {
    let idx = (addr - 0x3f00) % 32;
    if idx >= 16 && idx % 4 == 0 {
        idx - 16
    } else {
        idx
    }
}

/// The horizontal scroll in pixels: nametable-select bit 0 of PPUCTRL is the
/// ninth bit above the low byte written through PPUSCROLL.
pub open spec fn scroll_x_of(ctrl: u8, scroll_x_low: u8) -> u16 {
    ((ctrl % 2) as int * 256 + scroll_x_low as int) as u16
}

/// The picture processing unit: registers, object attribute memory,
/// nametable RAM, palette RAM, the CHR ROM of the cartridge and frame timing.
#[derive(Clone)]
pub struct Ppu {
    pub chr_rom: Vec<u8>,
    pub chr_addr_mask: usize,
    pub vertical_mirroring: bool,
    pub ctrl: u8,
    pub mask: u8,
    pub status: u8,
    pub oam_addr: u8,
    pub oam: [u8; 256],
    pub vram: [u8; 2048],
    pub palette: [u8; 32],
    pub data_buffer: u8,
    pub addr: u16,
    pub temp_addr: u16,
    pub scroll_addr: u16,
    pub render_addr: u16,
    pub first_write: bool,
    pub fine_x: u8,
    pub scroll_x_px: u16,
    pub scroll_y_px: u16,
    pub scroll_x_low: u8,
    pub scroll_override_x_px: Option<u16>,
    pub frame_dot: usize,
    pub frame: u64,
    pub nmi_pending: bool,
}

impl Ppu {
    /// CHR ROM is non-empty and addressed through `len - 1`; the frame dot
    /// lies inside the frame.
    pub open spec fn wf(&self) -> bool {
        &&& self.chr_rom@.len() > 0
        &&& self.chr_addr_mask == self.chr_rom@.len() - 1
        &&& self.frame_dot < PPU_DOTS_PER_FRAME
    }

    /// The CHR ROM byte that pattern address `addr` reaches.
    pub open spec fn chr_at(&self, addr: int) -> u8 {
        self.chr_rom@[(addr as usize & self.chr_addr_mask) as int]
    }

    /// Everything but the cartridge data is back at its power-on value.
    pub open spec fn is_cleared(&self) -> bool {
        &&& self.ctrl == 0
        &&& self.mask == 0
        &&& self.status == 0
        &&& self.oam_addr == 0
        &&& (forall|i: int| 0 <= i < 256 ==> #[trigger] self.oam[i] == 0)
        &&& (forall|i: int| 0 <= i < 2048 ==> #[trigger] self.vram[i] == 0)
        &&& (forall|i: int| 0 <= i < 32 ==> #[trigger] self.palette[i] == 0)
        &&& self.data_buffer == 0
        &&& self.addr == 0
        &&& self.temp_addr == 0
        &&& self.scroll_addr == 0
        &&& self.render_addr == 0
        &&& self.first_write
        &&& self.fine_x == 0
        &&& self.scroll_x_px == 0
        &&& self.scroll_y_px == 0
        &&& self.scroll_x_low == 0
        &&& self.scroll_override_x_px is None
        &&& self.frame_dot == 0
        &&& self.frame == 0
        &&& !self.nmi_pending
    }

    /// The byte a PPU-bus read of `addr` (taken modulo 0x4000) sees:
    /// pattern tables in CHR ROM, mirrored nametables, mirrored palette.
    pub open spec fn ppu_read_spec(&self, addr: u16) -> u8 {
        let a = addr as int % 0x4000;
        if a < 0x2000 {
            self.chr_at(a)
        } else if a < 0x3f00 {
            self.vram[nametable_index(self.vertical_mirroring, a)]
        } else {
            self.palette[palette_index(a)]
        }
    }

    /// A PPU-bus write of `value` to `addr` (modulo 0x4000): CHR ROM ignores
    /// it, nametables and palette store it at their mirrored index.
    pub open spec fn ppu_write_spec(self, addr: u16, value: u8) -> Ppu {
        let a = addr as int % 0x4000;
        if a < 0x2000 {
            self
        } else if a < 0x3f00 {
            Ppu {
                vram: spec_array_update(self.vram, nametable_index(self.vertical_mirroring, a), value),
                ..self
            }
        } else {
            Ppu { palette: spec_array_update(self.palette, palette_index(a), value), ..self }
        }
    }

    /// How far PPUADDR moves after a PPUDATA access: 32 when PPUCTRL bit 2
    /// is set, 1 otherwise.
    pub open spec fn vram_increment(&self) -> int {
        if self.ctrl & 0x04 != 0 {
            32
        } else {
            1
        }
    }

    /// The address PPUADDR holds after a PPUDATA access.
    pub open spec fn next_data_addr(&self) -> u16 {
        (wrap16(self.addr as int + self.vram_increment()) as int % 0x4000) as u16
    }

    /// A PPUDATA read: palette addresses are read directly, every other
    /// address returns the read buffer and refills it; PPUADDR advances.
    pub open spec fn read_data_spec(self) -> (Ppu, u8) {
        let addr = (self.addr as int % 0x4000) as u16;
        let moved = Ppu { addr: self.next_data_addr(), ..self };
        if addr >= 0x3f00 {
            (moved, self.ppu_read_spec(addr))
        } else {
            (Ppu { data_buffer: self.ppu_read_spec(addr), ..moved }, self.data_buffer)
        }
    }

    /// A PPUDATA write: the value is stored at PPUADDR and PPUADDR advances.
    pub open spec fn write_data_spec(self, value: u8) -> Ppu {
        let addr = (self.addr as int % 0x4000) as u16;
        let written = self.ppu_write_spec(addr, value);
        Ppu { addr: self.next_data_addr(), ..written }
    }

    /// A CPU read of the register `reg & 7`: the new PPU state and the byte read.
    pub open spec fn read_register_spec(self, reg: u16) -> (Ppu, u8) {
        let r = reg % 8;
        if r == 2 {
            (Ppu { status: self.status & 0x7f, first_write: true, ..self }, self.status)
        } else if r == 4 {
            (self, self.oam[self.oam_addr as int])
        } else if r == 7 {
            self.read_data_spec()
        } else {
            (self, 0)
        }
    }

    /// A CPU write of `value` to the register `reg & 7`.
    pub open spec fn write_register_spec(self, reg: u16, value: u8) -> Ppu {
        let r = reg % 8;
        if r == 0 {
            let temp = ((self.temp_addr & 0xf3ff) | (((value as u16) & 0x03) << 10u16)) as u16;
            let scroll = ((self.scroll_addr & 0xf3ff) | (((value as u16) & 0x03) << 10u16)) as u16;
            let raise_nmi = self.ctrl & 0x80 == 0 && value & 0x80 != 0 && self.status & 0x80 != 0;
            Ppu {
                ctrl: value,
                temp_addr: temp,
                scroll_addr: scroll,
                scroll_x_px: scroll_x_of(value, self.scroll_x_low),
                nmi_pending: self.nmi_pending || raise_nmi,
                ..self
            }
        } else if r == 1 {
            Ppu { mask: value, ..self }
        } else if r == 3 {
            Ppu { oam_addr: value, ..self }
        } else if r == 4 {
            Ppu {
                oam: spec_array_update(self.oam, self.oam_addr as int, value),
                oam_addr: wrap8(self.oam_addr as int + 1),
                ..self
            }
        } else if r == 5 {
            if self.first_write {
                let temp = ((self.temp_addr & 0xffe0) | ((value as u16) >> 3u16)) as u16;
                Ppu {
                    fine_x: value & 0x07,
                    scroll_x_low: value,
                    scroll_x_px: scroll_x_of(self.ctrl, value),
                    temp_addr: temp,
                    scroll_addr: temp,
                    first_write: false,
                    ..self
                }
            } else {
                let t1 = ((self.temp_addr & 0x8fff) | (((value as u16) & 0x07) << 12u16)) as u16;
                let t2 = ((t1 & 0xfc1f) | (((value as u16) & 0xf8) << 2u16)) as u16;
                Ppu {
                    scroll_y_px: value as u16,
                    temp_addr: t2,
                    scroll_addr: t2,
                    first_write: true,
                    ..self
                }
            }
        } else if r == 6 {
            if self.first_write {
                let temp = ((self.temp_addr & 0x00ff) | (((value as u16) & 0x3f) << 8u16)) as u16;
                Ppu { temp_addr: temp, first_write: false, ..self }
            } else {
                let temp = ((self.temp_addr & 0xff00) | (value as u16)) as u16;
                Ppu { temp_addr: temp, addr: temp, first_write: true, ..self }
            }
        } else if r == 7 {
            self.write_data_spec(value)
        } else {
            self
        }
    }

    /// What happens when the frame dot lands on `self.frame_dot`: the
    /// sprite-0 flag is raised, vblank starts (with an NMI when PPUCTRL
    /// bit 7 is set), the flags are cleared on the pre-render line, or the
    /// frame ends. The flag says whether a frame was completed.
    pub open spec fn event_spec(self) -> (Ppu, bool) {
        let dot = self.frame_dot;
        if dot == PPU_SPRITE0_DOT {
            (Ppu { status: self.status | 0x40, ..self }, false)
        } else if dot == PPU_VBLANK_DOT {
            (
                Ppu {
                    status: self.status | 0x80,
                    nmi_pending: self.nmi_pending || self.ctrl & 0x80 != 0,
                    ..self
                },
                false,
            )
        } else if dot == PPU_PRERENDER_DOT {
            (Ppu { status: self.status & 0x3f, ..self }, false)
        } else if dot == PPU_DOTS_PER_FRAME {
            (Ppu { frame_dot: 0, frame: wrap64(self.frame as int + 1), ..self }, true)
        } else {
            (self, false)
        }
    }

    /// Advancing the PPU by `remaining` dots, event by event. The flag says
    /// whether a frame was completed on the way.
    pub open spec fn tick_spec(self, remaining: nat) -> (Ppu, bool)
        decreases remaining,
    {
        let current = self.frame_dot as int;
        let step = next_event_dot(current) - current;
        if remaining == 0 || step <= 0 {
            (self, false)
        } else {
            let advance = if (remaining as int) < step { remaining as int } else { step };
            let (at_event, completed) = Ppu { frame_dot: (current + advance) as usize, ..self }.event_spec();
            let (after, later) = at_event.tick_spec((remaining - advance) as nat);
            (after, completed || later)
        }
    }

}

/// `x mod 2^64`.
pub open spec fn wrap64(x: int) -> u64 {
    (x % 0x1_0000_0000_0000_0000) as u64
}

} // verus!

verus! {

/// The next dot of the frame at which the PPU has something to do.
pub fn next_ppu_event_dot(current: usize) -> (next: usize)
    ensures
        next == next_event_dot(current as int),
{
    if current < PPU_VBLANK_DOT {
        PPU_VBLANK_DOT
    } else if current < PPU_PRERENDER_DOT {
        PPU_PRERENDER_DOT
    } else if current < PPU_SPRITE0_DOT {
        PPU_SPRITE0_DOT
    } else {
        PPU_DOTS_PER_FRAME
    }
}

impl Ppu {
    /// A PPU at its power-on state over the given CHR ROM.
    pub fn new(chr_rom: Vec<u8>, vertical_mirroring: bool) -> (ppu: Ppu)
        requires
            chr_rom@.len() > 0,
        ensures
            ppu.wf(),
            ppu.is_cleared(),
            ppu.chr_rom == chr_rom,
            ppu.vertical_mirroring == vertical_mirroring,
    {
        let chr_addr_mask = chr_rom.len() - 1;
        Ppu {
            chr_rom,
            chr_addr_mask,
            vertical_mirroring,
            ctrl: 0,
            mask: 0,
            status: 0,
            oam_addr: 0,
            oam: [0; 256],
            vram: [0; 2048],
            palette: [0; 32],
            data_buffer: 0,
            addr: 0,
            temp_addr: 0,
            scroll_addr: 0,
            render_addr: 0,
            first_write: true,
            fine_x: 0,
            scroll_x_px: 0,
            scroll_y_px: 0,
            scroll_x_low: 0,
            scroll_override_x_px: None,
            frame_dot: 0,
            frame: 0,
            nmi_pending: false,
        }
    }

    /// Back to the power-on state; the cartridge data stays.
    pub fn reset(&mut self)
        requires
            old(self).wf(),
        ensures
            final(self).wf(),
            final(self).is_cleared(),
            final(self).chr_rom == old(self).chr_rom,
            final(self).chr_addr_mask == old(self).chr_addr_mask,
            final(self).vertical_mirroring == old(self).vertical_mirroring,
    {
        self.ctrl = 0;
        self.mask = 0;
        self.status = 0;
        self.oam_addr = 0;
        self.oam = [0; 256];
        self.vram = [0; 2048];
        self.palette = [0; 32];
        self.data_buffer = 0;
        self.addr = 0;
        self.temp_addr = 0;
        self.scroll_addr = 0;
        self.render_addr = 0;
        self.first_write = true;
        self.fine_x = 0;
        self.scroll_x_px = 0;
        self.scroll_y_px = 0;
        self.scroll_x_low = 0;
        self.scroll_override_x_px = None;
        self.frame_dot = 0;
        self.frame = 0;
        self.nmi_pending = false;
    }

    /// Object attribute memory.
    pub fn oam(&self) -> (oam: &[u8; 256])
        ensures
            *oam == self.oam,
    {
        &self.oam
    }

    /// Advances the PPU by `ppu_cycles` dots; true when a frame was completed.
    pub fn tick(&mut self, ppu_cycles: usize) -> (completed: bool)
        requires
            old(self).wf(),
        ensures
            final(self).wf(),
            (*final(self), completed) == old(self).tick_spec(ppu_cycles as nat),
    {
        let ghost target = old(self).tick_spec(ppu_cycles as nat);
        let mut completed_frame = false;
        let mut remaining = ppu_cycles;
        while remaining > 0
            invariant
                self.wf(),
                self.tick_spec(remaining as nat).0 == target.0,
                (completed_frame || self.tick_spec(remaining as nat).1) == target.1,
            decreases remaining,
        {
            let current = self.dot();
            let next = next_ppu_event_dot(current);
            let advance = if remaining < next - current {
                remaining
            } else {
                next - current
            };
            let ghost before = *self;
            self.set_dot(current + advance);
            remaining -= advance;
            let dot = self.dot();
            if dot == PPU_SPRITE0_DOT {
                self.status |= 0x40;
            } else if dot == PPU_VBLANK_DOT {
                self.status |= 0x80;
                if self.ctrl & 0x80 != 0 {
                    self.nmi_pending = true;
                }
            } else if dot == PPU_PRERENDER_DOT {
                let s = self.status;
                proof {
                    lemma_byte_bits(s);
                }
                self.status &= !0xc0;
            } else if dot == PPU_DOTS_PER_FRAME {
                self.frame_dot = 0;
                self.frame = self.frame.wrapping_add(1);
                completed_frame = true;
            }
            proof {
                let moved = Ppu { frame_dot: (current + advance) as usize, ..before };
                assert(*self == moved.event_spec().0);
            }
        }
        completed_frame
    }

    /// The current dot of the frame.
    pub fn dot(&self) -> (dot: usize)
        ensures
            dot == self.frame_dot,
    {
        self.frame_dot
    }

    /// Dots left until the next timing event.
    pub fn cycles_until_next_event(&self) -> (cycles: usize)
        requires
            self.wf(),
        ensures
            cycles == next_event_dot(self.frame_dot as int) - self.frame_dot,
            cycles > 0,
    {
        next_ppu_event_dot(self.dot()) - self.dot()
    }

    /// Moves the frame to `dot`.
    pub fn set_dot(&mut self, dot: usize)
        ensures
            *final(self) == (Ppu { frame_dot: dot, ..*old(self) }),
    {
        self.frame_dot = dot;
    }

    /// Whether an NMI was pending; it no longer is.
    pub fn take_nmi(&mut self) -> (pending: bool)
        ensures
            pending == old(self).nmi_pending,
            *final(self) == (Ppu { nmi_pending: false, ..*old(self) }),
    {
        let pending = self.nmi_pending;
        self.nmi_pending = false;
        pending
    }

    /// A CPU read of the PPU register `reg & 7`.
    pub fn cpu_read_register(&mut self, reg: u16) -> (value: u8)
        requires
            old(self).wf(),
        ensures
            final(self).wf(),
            (*final(self), value) == old(self).read_register_spec(reg),
    {
        proof {
            lemma_u16_bits(reg);
        }
        match reg & 7 {
            2 => {
                let value = self.status;
                proof {
                    lemma_byte_bits(value);
                }
                self.status &= !0x80;
                self.first_write = true;
                value
            },
            4 => self.oam[self.oam_addr as usize],
            7 => self.read_data(),
            _ => 0,
        }
    }

    /// A CPU write of `value` to the PPU register `reg & 7`.
    pub fn cpu_write_register(&mut self, reg: u16, value: u8)
        requires
            old(self).wf(),
        ensures
            final(self).wf(),
            *final(self) == old(self).write_register_spec(reg, value),
    {
        proof {
            lemma_u16_bits(reg);
        }
        match reg & 7 {
            0 => {
                let old_ctrl = self.ctrl;
                self.ctrl = value;
                self.temp_addr = (self.temp_addr & 0xf3ff) | (((value as u16) & 0x03) << 10);
                self.scroll_addr = (self.scroll_addr & 0xf3ff) | (((value as u16) & 0x03) << 10);
                self.update_scroll_x_px();
                if old_ctrl & 0x80 == 0 && value & 0x80 != 0 && self.status & 0x80 != 0 {
                    self.nmi_pending = true;
                }
            },
            1 => self.mask = value,
            3 => self.oam_addr = value,
            4 => {
                self.oam[self.oam_addr as usize] = value;
                self.oam_addr = self.oam_addr.wrapping_add(1);
            },
            5 => {
                if self.first_write {
                    self.fine_x = value & 0x07;
                    self.scroll_x_low = value;
                    self.update_scroll_x_px();
                    self.temp_addr = (self.temp_addr & 0xffe0) | ((value as u16) >> 3);
                } else {
                    self.scroll_y_px = value as u16;
                    self.temp_addr = (self.temp_addr & 0x8fff) | (((value as u16) & 0x07) << 12);
                    self.temp_addr = (self.temp_addr & 0xfc1f) | (((value as u16) & 0xf8) << 2);
                }
                self.scroll_addr = self.temp_addr;
                self.first_write = !self.first_write;
            },
            6 => {
                if self.first_write {
                    self.temp_addr = (self.temp_addr & 0x00ff) | (((value as u16) & 0x3f) << 8);
                } else {
                    self.temp_addr = (self.temp_addr & 0xff00) | value as u16;
                    self.addr = self.temp_addr;
                }
                self.first_write = !self.first_write;
            },
            7 => self.write_data(value),
            _ => {},
        }
    }

    /// A PPUDATA read.
    pub fn read_data(&mut self) -> (value: u8)
        requires
            old(self).wf(),
        ensures
            final(self).wf(),
            (*final(self), value) == old(self).read_data_spec(),
    {
        let a = self.addr;
        proof {
            lemma_u16_bits(a);
        }
        let addr = self.addr & 0x3fff;
        let inc: u16 = if self.ctrl & 0x04 != 0 {
            32
        } else {
            1
        };
        let moved = self.addr.wrapping_add(inc);
        proof {
            lemma_u16_bits(moved);
        }
        self.addr = self.addr.wrapping_add(inc) & 0x3fff;
        if addr >= 0x3f00 {
            self.ppu_read(addr)
        } else {
            let buffered = self.data_buffer;
            self.data_buffer = self.ppu_read(addr);
            buffered
        }
    }

    /// A PPUDATA write.
    pub fn write_data(&mut self, value: u8)
        requires
            old(self).wf(),
        ensures
            final(self).wf(),
            *final(self) == old(self).write_data_spec(value),
    {
        let a = self.addr;
        proof {
            lemma_u16_bits(a);
        }
        let addr = self.addr & 0x3fff;
        self.ppu_write(addr, value);
        let inc: u16 = if self.ctrl & 0x04 != 0 {
            32
        } else {
            1
        };
        let moved = self.addr.wrapping_add(inc);
        proof {
            lemma_u16_bits(moved);
        }
        self.addr = self.addr.wrapping_add(inc) & 0x3fff;
    }

    /// The CHR ROM byte at pattern address `addr` (masked to the ROM size).
    pub fn chr_read(&self, addr: usize) -> (value: u8)
        requires
            self.wf(),
        ensures
            value == self.chr_at(addr as int),
    {
        let mask = self.chr_addr_mask;
        proof {
            lemma_and_le(addr, mask);
        }
        let idx = addr & self.chr_addr_mask;
        self.chr_rom[idx]
    }

    /// A PPU-bus read.
    pub fn ppu_read(&self, addr: u16) -> (value: u8)
        requires
            self.wf(),
        ensures
            value == self.ppu_read_spec(addr),
    {
        proof {
            lemma_u16_bits(addr);
        }
        let addr = addr & 0x3fff;
        match addr {
            0x0000..=0x1fff => self.chr_read(addr as usize),
            0x2000..=0x3eff => {
                let idx = self.mirror_nametable_addr(addr);
                self.vram[idx]
            },
            0x3f00..=0x3fff => self.palette[self.mirror_palette_addr(addr)],
            _ => 0,
        }
    }

    /// The byte of logical nametable `table` at `offset` (masked to 1 KiB).
    pub fn nametable_read(&self, table: usize, offset: usize) -> (value: u8)
        ensures
            value == self.vram[(if self.vertical_mirroring {
                table % 2
            } else {
                (table / 2) % 2
            }) * 0x400 + offset % 0x400],
    {
        proof {
            lemma_usize_bits(table);
        }
        proof {
            lemma_usize_bits(offset);
        }
        let physical_table = if self.vertical_mirroring {
            table & 1
        } else {
            (table >> 1) & 1
        };
        self.vram[physical_table * 0x400 + (offset & 0x3ff)]
    }

    /// A PPU-bus write.
    pub fn ppu_write(&mut self, addr: u16, value: u8)
        ensures
            old(self).wf() ==> final(self).wf(),
            *final(self) == old(self).ppu_write_spec(addr, value),
    {
        proof {
            lemma_u16_bits(addr);
        }
        let addr = addr & 0x3fff;
        match addr {
            0x0000..=0x1fff => {},
            0x2000..=0x3eff => {
                let idx = self.mirror_nametable_addr(addr);
                self.vram[idx] = value;
            },
            0x3f00..=0x3fff => {
                let idx = self.mirror_palette_addr(addr);
                self.palette[idx] = value;
            },
            _ => {},
        }
    }

    /// Index into nametable RAM of a PPU address in the nametable range.
    pub fn mirror_nametable_addr(&self, addr: u16) -> (idx: usize)
        requires
            0x2000 <= addr,
        ensures
            idx == nametable_index(self.vertical_mirroring, addr as int),
            idx < 2048,
    {
        let v = (addr - 0x2000) as usize % 0x1000;
        let table = v / 0x400;
        proof {
            lemma_usize_bits(v);
        }
        proof {
            lemma_usize_bits(table);
        }
        let offset = v & 0x3ff;
        let physical_table = if self.vertical_mirroring {
            table & 1
        } else {
            (table >> 1) & 1
        };
        physical_table * 0x400 + offset
    }

    /// Index into palette RAM of a PPU address in the palette range.
    pub fn mirror_palette_addr(&self, addr: u16) -> (idx: usize)
        requires
            0x3f00 <= addr,
        ensures
            idx == palette_index(addr as int),
            idx < 32,
    {
        let d = addr as usize - 0x3f00;
        proof {
            lemma_usize_bits(d);
        }
        let mut idx = (addr as usize - 0x3f00) & 0x1f;
        if idx == 0x10 {
            idx = 0x00;
        } else if idx == 0x14 {
            idx = 0x04;
        } else if idx == 0x18 {
            idx = 0x08;
        } else if idx == 0x1c {
            idx = 0x0c;
        }
        idx
    }

    /// Recomputes the horizontal scroll from PPUCTRL and the PPUSCROLL low byte.
    pub fn update_scroll_x_px(&mut self)
        ensures
            *final(self) == (Ppu {
                scroll_x_px: scroll_x_of(old(self).ctrl, old(self).scroll_x_low),
                ..*old(self)
            }),
    {
        let c = self.ctrl;
        let l = self.scroll_x_low;
        assert((((c & 0x01) as u16) << 8u16) | (l as u16) == (c % 2) as u16 * 256 + l as u16)
            by (bit_vector);
        self.scroll_x_px = (((self.ctrl & 0x01) as u16) << 8) | self.scroll_x_low as u16;
    }

    /// Sets or clears the horizontal scroll that rendering uses in place of
    /// the register value.
    pub fn set_scroll_override_x(&mut self, scroll_x_px: Option<u16>)
        ensures
            *final(self) == (Ppu { scroll_override_x_px: scroll_x_px, ..*old(self) }),
    {
        self.scroll_override_x_px = scroll_x_px;
    }

    /// The horizontal scroll that rendering uses.
    pub fn render_scroll_x_px(&self) -> (scroll: u16)
        ensures
            scroll == self.render_scroll_x(),
    {
        match self.scroll_override_x_px {
            Some(v) => v,
            None => self.scroll_x_px,
        }
    }

    /// The horizontal scroll that rendering uses: the override when set.
    pub open spec fn render_scroll_x(&self) -> u16 {
        match self.scroll_override_x_px {
            Some(v) => v,
            None => self.scroll_x_px,
        }
    }

    /// Loads the PPU part of an FCEU state: nametables, palette and OAM are
    /// copied, the four registers come from `ppur`, the VRAM addresses and
    /// fine X from the optional fields (0 when absent or short).
    pub fn load_fceu_state(
        &mut self,
        ntar: &[u8],
        pram: &[u8],
        spra: &[u8],
        ppur: &[u8],
        radd: Option<&[u8]>,
        tadd: Option<&[u8]>,
        xoff: Option<&[u8]>,
    )
        requires
            old(self).wf(),
            ntar@.len() == 2048,
            pram@.len() == 32,
            spra@.len() == 256,
            ppur@.len() >= 4,
        ensures
            final(self).wf(),
            final(self).loaded_from(
                *old(self),
                ntar@,
                pram@,
                spra@,
                ppur@,
                opt_view(radd),
                opt_view(tadd),
                opt_view(xoff),
            ),
    {
        copy_into(&mut self.vram, ntar);
        copy_into(&mut self.palette, pram);
        copy_into(&mut self.oam, spra);
        self.ctrl = ppur[0];
        self.mask = ppur[1];
        self.status = ppur[2];
        self.oam_addr = ppur[3];
        self.addr = match radd {
            Some(s) => match read_u16_le(s) {
                Some(v) => v,
                None => 0,
            },
            None => 0,
        };
        self.temp_addr = match tadd {
            Some(s) => match read_u16_le(s) {
                Some(v) => v,
                None => 0,
            },
            None => 0,
        };
        self.scroll_addr = self.temp_addr;
        self.render_addr = self.addr;
        self.first_write = true;
        self.fine_x = match xoff {
            Some(s) => if s.len() > 0 {
                s[0]
            } else {
                0
            },
            None => 0,
        };
        self.frame_dot = 0;
        self.nmi_pending = false;
        self.update_scroll_x_px();
    }
}

/// The view of an optional byte slice.
pub open spec fn opt_view(o: Option<&[u8]>) -> Option<Seq<u8>> {
    match o {
        Some(s) => Some(s@),
        None => None,
    }
}

/// The little-endian `u16` an optional field holds, 0 when the field is
/// absent or shorter than two bytes.
pub open spec fn opt_u16_or_zero(o: Option<Seq<u8>>) -> u16 {
    match o {
        Some(s) => match le_u16_of(s) {
            Some(v) => v,
            None => 0,
        },
        None => 0,
    }
}

/// The first byte of an optional field, 0 when it is absent or empty.
pub open spec fn opt_first_or_zero(o: Option<Seq<u8>>) -> u8 {
    match o {
        Some(s) => if s.len() > 0 {
            s[0]
        } else {
            0
        },
        None => 0,
    }
}

/// Copies `src` into `dst`, which has its length.
pub fn copy_into<const N: usize>(dst: &mut [u8; N], src: &[u8])
    requires
        src@.len() == N,
    ensures
        final(dst)@ == src@,
{
    let mut i: usize = 0;
    while i < N
        invariant
            i <= N,
            src@.len() == N,
            forall|j: int| 0 <= j < i ==> dst[j] == src@[j],
        decreases N - i,
    {
        dst[i] = src[i];
        i += 1;
    }
    assert(dst@ =~= src@);
}

impl Ppu {
    /// `self` is what loading a saved state into `before` leaves: the
    /// nametables, palette and OAM copied, the four registers from `ppur`,
    /// the VRAM addresses and fine X from the optional fields, the timing
    /// at the start of a frame with no NMI pending; the cartridge data, the
    /// scroll bytes and the frame counter stay.
    pub open spec fn loaded_from(
        self,
        before: Ppu,
        ntar: Seq<u8>,
        pram: Seq<u8>,
        spra: Seq<u8>,
        ppur: Seq<u8>,
        radd: Option<Seq<u8>>,
        tadd: Option<Seq<u8>>,
        xoff: Option<Seq<u8>>,
    ) -> bool {
        &&& self.vram@ == ntar
        &&& self.palette@ == pram
        &&& self.oam@ == spra
        &&& self.ctrl == ppur[0]
        &&& self.mask == ppur[1]
        &&& self.status == ppur[2]
        &&& self.oam_addr == ppur[3]
        &&& self.addr == opt_u16_or_zero(radd)
        &&& self.temp_addr == opt_u16_or_zero(tadd)
        &&& self.scroll_addr == opt_u16_or_zero(tadd)
        &&& self.render_addr == opt_u16_or_zero(radd)
        &&& self.first_write
        &&& self.fine_x == opt_first_or_zero(xoff)
        &&& self.frame_dot == 0
        &&& !self.nmi_pending
        &&& self.scroll_x_px == scroll_x_of(ppur[0], before.scroll_x_low)
        &&& self.chr_rom == before.chr_rom
        &&& self.chr_addr_mask == before.chr_addr_mask
        &&& self.vertical_mirroring == before.vertical_mirroring
        &&& self.data_buffer == before.data_buffer
        &&& self.scroll_y_px == before.scroll_y_px
        &&& self.scroll_x_low == before.scroll_x_low
        &&& self.scroll_override_x_px == before.scroll_override_x_px
        &&& self.frame == before.frame
    }
}


/// Two PPU addresses reach the same nametable or palette byte.
pub open spec fn same_cell(vertical_mirroring: bool, a: u16, b: u16) -> bool {
    let x = a as int % 0x4000;
    let y = b as int % 0x4000;
    ||| (0x2000 <= x < 0x3f00 && 0x2000 <= y < 0x3f00 && nametable_index(vertical_mirroring, x)
        == nametable_index(vertical_mirroring, y))
    ||| (0x3f00 <= x && 0x3f00 <= y && palette_index(x) == palette_index(y))
}

impl Ppu {
    /// What a PPU-bus write stores, a read gives back: after writing `value`
    /// at `addr`, every address that reaches the same nametable or palette
    /// byte (its mirrors, and the aliased sprite backdrop entries) reads
    /// `value`, and every other address reads what it read before. Writes
    /// to pattern memory (CHR ROM) change nothing.
    pub proof fn lemma_write_then_read(&self, addr: u16, value: u8, other: u16)
        ensures
            self.ppu_write_spec(addr, value).ppu_read_spec(other) == if same_cell(
                self.vertical_mirroring,
                addr,
                other,
            ) {
                value
            } else {
                self.ppu_read_spec(other)
            },
    {
        let x = addr as int % 0x4000;
        let y = other as int % 0x4000;
        let w = self.ppu_write_spec(addr, value);
        if 0x2000 <= x < 0x3f00 {
            let i = nametable_index(self.vertical_mirroring, x);
            assert(0 <= i < 2048);
            if 0x2000 <= y < 0x3f00 {
                let j = nametable_index(self.vertical_mirroring, y);
                assert(0 <= j < 2048);
                assert(w.vram[j] == if i == j { value } else { self.vram[j] });
            }
        } else if 0x3f00 <= x {
            let i = palette_index(x);
            assert(0 <= i < 32);
            if 0x3f00 <= y {
                let j = palette_index(y);
                assert(0 <= j < 32);
                assert(w.palette[j] == if i == j { value } else { self.palette[j] });
            }
        }
    }

    /// Reading nametable `table` at `offset` directly gives what a PPU-bus
    /// read of address `0x2000 + table * 0x400 + offset` gives, under either
    /// mirroring.
    pub proof fn lemma_nametable_read_matches_bus(&self, table: int, offset: int)
        requires
            0 <= table < 4,
            0 <= offset < 0x400,
        ensures
            self.vram[(if self.vertical_mirroring {
                table % 2
            } else {
                (table / 2) % 2
            }) * 0x400 + offset % 0x400] == self.ppu_read_spec((0x2000 + table * 0x400 + offset) as u16),
    {
        let a = 0x2000 + table * 0x400 + offset;
        assert(a % 0x4000 == a);
        let v = (a - 0x2000) % 0x1000;
        assert(v == table * 0x400 + offset);
        vstd::arithmetic::div_mod::lemma_fundamental_div_mod_converse(v, 0x400, table, offset);
    }
}

} // verus!
