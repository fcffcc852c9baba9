use vstd::prelude::*;

use vstd::array::spec_array_update;

use crate::bits::{lemma_and_le, lemma_usize_bits, lemma_word_of_bytes};
use crate::fceu::{
    bcd_bound, bcd_value, decode_ln_bcd_be, field_value, le_u16_of, lemma_bcd_bounded,
    optional_field, read_u16_le, required_field, sign_extend_u8, StateLoadError,
};
use crate::ppu::{copy_into, next_event_dot, wrap16, wrap8, Ppu};

verus! {

pub const NES_WIDTH: usize = 256;
pub const NES_HEIGHT: usize = 240;
pub const VISIBLE_FRAME_LEFT: usize = 8;
pub const VISIBLE_FRAME_TOP: usize = 8;
pub const VISIBLE_FRAME_WIDTH: usize = 240;
pub const VISIBLE_FRAME_HEIGHT: usize = 224;
pub const RGB_CHANNELS: usize = 3;
pub const FRAME_PIXELS_RGB: usize = NES_WIDTH * NES_HEIGHT * RGB_CHANNELS;
pub const FRAME_PIXELS_GRAY: usize = NES_WIDTH * NES_HEIGHT;

pub const CPU_CYCLES_PER_FRAME_GUARD: usize = 40000;
pub const PPU_DOTS_PER_SCANLINE: usize = 341;
pub const PPU_SCANLINES_PER_FRAME: usize = 262;
pub const PPU_DOTS_PER_FRAME: usize = PPU_DOTS_PER_SCANLINE * PPU_SCANLINES_PER_FRAME;
pub const PPU_VBLANK_DOT: usize = PPU_DOTS_PER_SCANLINE;
pub const PPU_PRERENDER_DOT: usize = 21 * PPU_DOTS_PER_SCANLINE;
pub const PPU_VISIBLE_START_SCANLINE: usize = 22;
pub const PPU_SPRITE0_DOT: usize = (PPU_VISIBLE_START_SCANLINE + 30) * PPU_DOTS_PER_SCANLINE + 1;
pub const DEFAULT_GRAY_CROP_TOP: usize = 32;
pub const DEFAULT_GRAY_CROP_HEIGHT: usize = VISIBLE_FRAME_HEIGHT - DEFAULT_GRAY_CROP_TOP;
pub const DEFAULT_GRAY_RESIZE_WIDTH: usize = 84;
pub const DEFAULT_GRAY_RESIZE_HEIGHT: usize = 84;
pub const DEFAULT_GRAY_RESIZE_PIXELS: usize = DEFAULT_GRAY_RESIZE_WIDTH * DEFAULT_GRAY_RESIZE_HEIGHT;

} // verus!

verus! {

pub const FLAG_C: u8 = 0x01;
pub const FLAG_Z: u8 = 0x02;
pub const FLAG_I: u8 = 0x04;
pub const FLAG_D: u8 = 0x08;
pub const FLAG_B: u8 = 0x10;
pub const FLAG_U: u8 = 0x20;
pub const FLAG_V: u8 = 0x40;
pub const FLAG_N: u8 = 0x80;

pub const BUTTON_A: u8 = 1;
pub const BUTTON_B: u8 = 2;
pub const BUTTON_START: u8 = 8;
pub const BUTTON_LEFT: u8 = 64;
pub const BUTTON_RIGHT: u8 = 128;

/// The discrete actions of the environment.
#[derive(Clone, Copy, Debug, PartialEq, Eq, Structural)]
pub enum MarioAction {
    Noop,
    Right,
    RightB,
    RightA,
    RightAB,
    A,
    Left,
    Start,
}

/// The action with id `value`; ids outside `0..8` mean `Noop`.
pub open spec fn action_of(value: u8) -> MarioAction {
    if value == 1 {
        MarioAction::Right
    } else if value == 2 {
        MarioAction::RightB
    } else if value == 3 {
        MarioAction::RightA
    } else if value == 4 {
        MarioAction::RightAB
    } else if value == 5 {
        MarioAction::A
    } else if value == 6 {
        MarioAction::Left
    } else if value == 7 {
        MarioAction::Start
    } else {
        MarioAction::Noop
    }
}

/// The controller buttons an action holds down: bit 0 A, bit 1 B,
/// bit 3 Start, bit 6 Left, bit 7 Right.
pub open spec fn buttons_of(action: MarioAction) -> u8 {
    match action {
        MarioAction::Noop => 0,
        MarioAction::Right => 128,
        MarioAction::RightB => 130,
        MarioAction::RightA => 129,
        MarioAction::RightAB => 131,
        MarioAction::A => 1,
        MarioAction::Left => 64,
        MarioAction::Start => 8,
    }
}

/// The buttons of each action id: Right for ids 1 to 4, B for 2 and 4
/// (run), A for 3, 4 and 5 (jump), Left for 6, Start for 7, and nothing for
/// 0 and ids from 8 on; no other button is ever held.
pub proof fn lemma_action_buttons(value: u8)
    ensures
        (buttons_of(action_of(value)) & BUTTON_RIGHT != 0) <==> (1 <= value <= 4),
        (buttons_of(action_of(value)) & BUTTON_B != 0) <==> (value == 2 || value == 4),
        (buttons_of(action_of(value)) & BUTTON_A != 0) <==> (value == 3 || value == 4 || value == 5),
        (buttons_of(action_of(value)) & BUTTON_LEFT != 0) <==> value == 6,
        (buttons_of(action_of(value)) & BUTTON_START != 0) <==> value == 7,
        buttons_of(action_of(value)) & !(BUTTON_RIGHT | BUTTON_LEFT | BUTTON_START | BUTTON_A | BUTTON_B) == 0,
{
    let b = buttons_of(action_of(value));
    assert(b == 0 || b == 128 || b == 130 || b == 129 || b == 131 || b == 1 || b == 64 || b == 8);
    assert((b == 0 || b == 128 || b == 130 || b == 129 || b == 131 || b == 1 || b == 64 || b == 8) ==> (
        (b & 128u8 != 0) == (b == 128 || b == 130 || b == 129 || b == 131) && (b & 2u8 != 0) == (b == 130 || b == 131)
        && (b & 1u8 != 0) == (b == 129 || b == 131 || b == 1) && (b & 64u8 != 0) == (b == 64) && (b & 8u8 != 0) == (b
        == 8) && b & !(128u8 | 64u8 | 8u8 | 1u8 | 2u8) == 0)) by (bit_vector);
}

impl MarioAction {
    /// The action with id `value`; unknown ids mean `Noop`.
    pub fn from_u8(value: u8) -> (action: Self)
        ensures
            action == action_of(value),
            value == 0 || value >= 8 ==> action == MarioAction::Noop,
            value == 1 ==> action == MarioAction::Right,
            value == 2 ==> action == MarioAction::RightB,
            value == 3 ==> action == MarioAction::RightA,
            value == 4 ==> action == MarioAction::RightAB,
            value == 5 ==> action == MarioAction::A,
            value == 6 ==> action == MarioAction::Left,
            value == 7 ==> action == MarioAction::Start,
    {
        match value {
            1 => Self::Right,
            2 => Self::RightB,
            3 => Self::RightA,
            4 => Self::RightAB,
            5 => Self::A,
            6 => Self::Left,
            7 => Self::Start,
            _ => Self::Noop,
        }
    }

    /// The controller byte for this action.
    pub fn buttons(self) -> (buttons: u8)
        ensures
            buttons == buttons_of(self),
            self == MarioAction::Noop ==> buttons == 0,
            self == MarioAction::Right ==> buttons == BUTTON_RIGHT,
            self == MarioAction::RightB ==> buttons == BUTTON_RIGHT | BUTTON_B,
            self == MarioAction::RightA ==> buttons == BUTTON_RIGHT | BUTTON_A,
            self == MarioAction::RightAB ==> buttons == BUTTON_RIGHT | BUTTON_A | BUTTON_B,
            self == MarioAction::A ==> buttons == BUTTON_A,
            self == MarioAction::Left ==> buttons == BUTTON_LEFT,
            self == MarioAction::Start ==> buttons == BUTTON_START,
    {
        assert(BUTTON_RIGHT | BUTTON_B == 130u8 && BUTTON_RIGHT | BUTTON_A == 129u8 && BUTTON_RIGHT
            | BUTTON_A | BUTTON_B == 131u8) by (bit_vector);
        match self {
            Self::Noop => 0,
            Self::Right => BUTTON_RIGHT,
            Self::RightB => BUTTON_RIGHT | BUTTON_B,
            Self::RightA => BUTTON_RIGHT | BUTTON_A,
            Self::RightAB => BUTTON_RIGHT | BUTTON_A | BUTTON_B,
            Self::A => BUTTON_A,
            Self::Left => BUTTON_LEFT,
            Self::Start => BUTTON_START,
        }
    }
}

/// The 6502 registers.
#[derive(Clone, Copy, Debug, PartialEq, Eq, Structural)]
pub struct Cpu {
    pub a: u8,
    pub x: u8,
    pub y: u8,
    pub sp: u8,
    pub pc: u16,
    pub p: u8,
}

impl Cpu {
    /// Power-on registers: stack pointer 0xfd, interrupts disabled.
    pub fn new() -> (cpu: Self)
        ensures
            cpu == (Cpu { a: 0, x: 0, y: 0, sp: 0xfd, pc: 0, p: 0x24 }),
    {
        assert(FLAG_U | FLAG_I == 0x24u8) by (bit_vector);
        Self { a: 0, x: 0, y: 0, sp: 0xfd, pc: 0, p: FLAG_U | FLAG_I }
    }
}

/// The contents of an NROM cartridge.
#[derive(Clone)]
pub struct Cartridge {
    pub prg_rom: Vec<u8>,
    pub chr_rom: Vec<u8>,
    pub vertical_mirroring: bool,
}

/// Why a ROM image could not be read as an iNES cartridge.
#[derive(Clone, Copy, Debug, PartialEq, Eq, Structural)]
pub enum CartridgeError {
    /// The image does not start with `NES` and byte 0x1a.
    BadMagic,
    /// The image is shorter than its header says.
    Truncated,
    /// The header names a mapper other than 0 (NROM).
    UnsupportedMapper,
    /// The header gives no PRG ROM or no CHR ROM.
    EmptyRom,
}

/// The byte at which PRG ROM starts in an iNES image: after the 16-byte
/// header and the 512-byte trainer when flag 6 bit 2 says there is one.
pub open spec fn ines_prg_start(bytes: Seq<u8>) -> int {
    if bytes[6] & 4 != 0 {
        528int
    } else {
        16int
    }
}

/// The mapper number of an iNES header: the high nibbles of flags 6 and 7.
pub open spec fn ines_mapper(bytes: Seq<u8>) -> int {
    (bytes[7] / 16) as int * 16 + (bytes[6] / 16) as int
}

/// What reading `bytes` as an iNES image gives.
pub open spec fn ines_result(bytes: Seq<u8>) -> Result<(Seq<u8>, Seq<u8>, bool), CartridgeError> {
    if bytes.len() < 16 || bytes[0] != 0x4e || bytes[1] != 0x45 || bytes[2] != 0x53 || bytes[3] != 0x1a {
        Err(CartridgeError::BadMagic)
    } else if ines_mapper(bytes) != 0 {
        Err(CartridgeError::UnsupportedMapper)
    } else if bytes[4] == 0 || bytes[5] == 0 {
        Err(CartridgeError::EmptyRom)
    } else {
        let prg_start = ines_prg_start(bytes);
        let chr_start = prg_start + bytes[4] * 0x4000;
        let end = chr_start + bytes[5] * 0x2000;
        if end > bytes.len() {
            Err(CartridgeError::Truncated)
        } else {
            Ok((bytes.subrange(prg_start, chr_start), bytes.subrange(chr_start, end), bytes[6] & 1 != 0))
        }
    }
}

/// Reading an image back: a 16-byte mapper-0 header (magic "NES\x1a", no
/// trainer) followed by PRG ROM of 16 KiB per the header's byte 4 and CHR
/// ROM of 8 KiB per byte 5 (anything may follow) reads as exactly that PRG
/// and CHR data, vertically mirrored when bit 0 of byte 6 is set. With a
/// trainer (bit 2 of byte 6) its 512 bytes sit between header and PRG.
pub proof fn lemma_ines_roundtrip(header: Seq<u8>, trainer: Seq<u8>, prg: Seq<u8>, chr: Seq<u8>, rest: Seq<u8>)
    requires
        header.len() == 16,
        header[0] == 0x4e && header[1] == 0x45 && header[2] == 0x53 && header[3] == 0x1a,
        header[6] < 16 && header[7] < 16,
        header[4] >= 1 && header[5] >= 1,
        prg.len() == header[4] as int * 0x4000,
        chr.len() == header[5] as int * 0x2000,
        trainer.len() == if header[6] & 4 != 0 { 512int } else { 0 },
    ensures
        ines_result(header + trainer + prg + chr + rest) == Ok::<(Seq<u8>, Seq<u8>, bool), CartridgeError>(
            (prg, chr, header[6] & 1 != 0),
        ),
{
    let bytes = header + trainer + prg + chr + rest;
    assert(bytes.subrange(0, 16) =~= header);
    let p0: int = 16 + trainer.len() as int;
    let c0: int = p0 + prg.len();
    let c1: int = c0 + chr.len();
    assert(bytes.subrange(p0, c0) =~= prg);
    assert(bytes.subrange(c0, c1) =~= chr);
}

/// The errors of an iNES image, each on the inputs that cause it: fewer
/// than 16 bytes or a wrong magic number; then a mapper other than 0 (a
/// high nibble set in byte 6 or 7); then no PRG or no CHR banks; then fewer
/// bytes than the header announces.
pub proof fn lemma_ines_errors(bytes: Seq<u8>)
    ensures
        bytes.len() < 16 ==> ines_result(bytes) == Err::<(Seq<u8>, Seq<u8>, bool), CartridgeError>(
            CartridgeError::BadMagic,
        ),
        bytes.len() >= 16 && (bytes[0] != 0x4e || bytes[1] != 0x45 || bytes[2] != 0x53 || bytes[3] != 0x1a)
            ==> ines_result(bytes) == Err::<(Seq<u8>, Seq<u8>, bool), CartridgeError>(CartridgeError::BadMagic),
        bytes.len() >= 16 && bytes[0] == 0x4e && bytes[1] == 0x45 && bytes[2] == 0x53 && bytes[3] == 0x1a && (
        bytes[6] >= 16 || bytes[7] >= 16) ==> ines_result(bytes) == Err::<(Seq<u8>, Seq<u8>, bool), CartridgeError>(
            CartridgeError::UnsupportedMapper,
        ),
        bytes.len() >= 16 && bytes[0] == 0x4e && bytes[1] == 0x45 && bytes[2] == 0x53 && bytes[3] == 0x1a
            && bytes[6] < 16 && bytes[7] < 16 && (bytes[4] == 0 || bytes[5] == 0) ==> ines_result(bytes) == Err::<
            (Seq<u8>, Seq<u8>, bool),
            CartridgeError,
        >(CartridgeError::EmptyRom),
        bytes.len() >= 16 && bytes[0] == 0x4e && bytes[1] == 0x45 && bytes[2] == 0x53 && bytes[3] == 0x1a
            && bytes[6] < 16 && bytes[7] < 16 && bytes[4] >= 1 && bytes[5] >= 1 && bytes.len() < 16
            + bytes[4] as int * 0x4000 + bytes[5] as int * 0x2000 ==> ines_result(bytes) == Err::<
            (Seq<u8>, Seq<u8>, bool),
            CartridgeError,
        >(CartridgeError::Truncated),
{
}

/// `bytes[start..end]` as a vector.
fn copy_range(bytes: &[u8], start: usize, end: usize) -> (v: Vec<u8>)
    requires
        start <= end <= bytes@.len(),
    ensures
        v@ == bytes@.subrange(start as int, end as int),
{
    let mut v: Vec<u8> = Vec::new();
    for i in start..end
        invariant
            start <= end <= bytes@.len(),
            v@ == bytes@.subrange(start as int, i as int),
    {
        v.push(bytes[i]);
        assert(bytes@.subrange(start as int, i + 1) =~= bytes@.subrange(start as int, i as int).push(bytes@[i as int]));
    }
    v
}

impl Cartridge {
    /// Reads an iNES image of a mapper-0 (NROM) cartridge: the header's PRG
    /// and CHR sizes (16 KiB and 8 KiB units), an optional trainer, and the
    /// mirroring bit (flag 6 bit 0 set: vertical).
    pub fn from_ines_bytes(bytes: &[u8]) -> (r: Result<Cartridge, CartridgeError>)
        ensures
            match r {
                Ok(cart) => ines_result(bytes@) == Ok::<(Seq<u8>, Seq<u8>, bool), CartridgeError>(
                    (cart.prg_rom@, cart.chr_rom@, cart.vertical_mirroring),
                ),
                Err(e) => ines_result(bytes@) == Err::<(Seq<u8>, Seq<u8>, bool), CartridgeError>(e),
            },
    {
        if bytes.len() < 16 || bytes[0] != 0x4e || bytes[1] != 0x45 || bytes[2] != 0x53 || bytes[3] != 0x1a {
            return Err(CartridgeError::BadMagic);
        }
        let flags6 = bytes[6];
        let flags7 = bytes[7];
        assert(flags6 >> 4u8 == flags6 / 16 && flags7 & 0xf0 == (flags7 / 16) * 16 && flags6 & 4 < 5
            && flags6 & 1 < 2 && (((flags7 & 0xf0) | (flags6 >> 4u8) != 0) == ((flags7 / 16) * 16 + flags6 / 16
            != 0))) by (bit_vector);
        if (flags7 & 0xf0) | (flags6 >> 4) != 0 {
            return Err(CartridgeError::UnsupportedMapper);
        }
        let prg_banks = bytes[4] as usize;
        let chr_banks = bytes[5] as usize;
        if prg_banks == 0 || chr_banks == 0 {
            return Err(CartridgeError::EmptyRom);
        }
        let prg_start: usize = if flags6 & 4 != 0 {
            16 + 512
        } else {
            16
        };
        let chr_start = prg_start + prg_banks * 0x4000;
        let end = chr_start + chr_banks * 0x2000;
        if end > bytes.len() {
            return Err(CartridgeError::Truncated);
        }
        let prg_rom = copy_range(bytes, prg_start, chr_start);
        let chr_rom = copy_range(bytes, chr_start, end);
        Ok(Cartridge { prg_rom, chr_rom, vertical_mirroring: flags6 & 1 != 0 })
    }
}

/// A Super Mario Bros NES: CPU, PPU, work RAM, the PRG ROM, the controller,
/// and the game variables read back from RAM after each frame.
#[derive(Clone)]
pub struct NesEmulator {
    pub cpu: Cpu,
    pub ppu: Ppu,
    pub ram: [u8; 2048],
    pub prg_rom: Vec<u8>,
    pub prg_addr_mask: usize,
    pub controller_state: u8,
    pub controller_shift: u8,
    pub controller_strobe: bool,
    pub extra_cycles: u16,
    pub x_pos: u16,
    pub coins: u8,
    pub level_hi: i16,
    pub level_lo: i16,
    pub lives: i16,
    pub score: u32,
    pub scrolling: i16,
    pub time: u16,
    pub xscroll_hi: u8,
    pub xscroll_lo: u8,
    pub terminate_on_flag: bool,
    pub done: bool,
}

/// `value` read as a signed byte.
pub open spec fn signed_byte(value: u8) -> int {
    if value < 128 {
        value as int
    } else {
        value as int - 256
    }
}

impl NesEmulator {
    /// PRG ROM is non-empty and addressed through `len - 1`; the PPU is
    /// well formed.
    pub open spec fn wf(&self) -> bool {
        &&& self.ppu.wf()
        &&& self.prg_rom@.len() > 0
        &&& self.prg_addr_mask == self.prg_rom@.len() - 1
    }

    /// The PRG ROM byte that CPU address `addr` (0x8000 and up) reaches.
    pub open spec fn prg_at(&self, addr: u16) -> u8 {
        self.prg_rom@[(((addr - 0x8000) as usize) & self.prg_addr_mask) as int]
    }

    pub open spec fn with_cpu(self, cpu: Cpu) -> NesEmulator {
        NesEmulator { cpu: cpu, ..self }
    }

    pub open spec fn with_ppu(self, ppu: Ppu) -> NesEmulator {
        NesEmulator { ppu: ppu, ..self }
    }

    /// A read of the controller port: while strobed it shows button A;
    /// otherwise it shifts the latched buttons out one per read, then 1s.
    pub open spec fn controller_read_spec(self) -> (NesEmulator, u8) {
        if self.controller_strobe {
            (self, 0x40 | (self.controller_state & 1))
        } else {
            (
                NesEmulator { controller_shift: (self.controller_shift >> 1u8) | 0x80, ..self },
                0x40 | (self.controller_shift & 1),
            )
        }
    }

    /// A write to the controller port: bit 0 is the strobe; while it is set
    /// the buttons are latched.
    pub open spec fn controller_write_spec(self, value: u8) -> NesEmulator {
        let strobe = value & 1 != 0;
        NesEmulator {
            controller_strobe: strobe,
            controller_shift: if strobe {
                self.controller_state
            } else {
                self.controller_shift
            },
            ..self
        }
    }

    /// A CPU-bus read: RAM (mirrored every 2 KiB below 0x2000), the PPU
    /// registers (mirrored every 8 bytes up to 0x4000), the controller at
    /// 0x4016, PRG ROM from 0x8000; other addresses read 0.
    #[verifier::opaque]
    pub open spec fn bus_read(self, addr: u16) -> (NesEmulator, u8) {
        if addr < 0x2000 {
            (self, self.ram[addr as int % 0x800])
        } else if addr < 0x4000 {
            let (p, v) = self.ppu.read_register_spec(addr);
            (self.with_ppu(p), v)
        } else if addr == 0x4016 {
            self.controller_read_spec()
        } else if addr >= 0x8000 {
            (self, self.prg_at(addr))
        } else {
            (self, 0)
        }
    }

    /// OAM DMA from byte `i` of CPU page `page` on: each byte is read over
    /// the bus and stored at `oam_addr + i` (wrapping).
    pub open spec fn dma_from(self, page: u8, i: nat) -> NesEmulator
        decreases 256 - i,
    {
        if i >= 256 {
            self
        } else {
            let (s1, v) = self.bus_read((page as int * 256 + i) as u16);
            let idx = wrap8(s1.ppu.oam_addr as int + i);
            let s2 = s1.with_ppu(Ppu { oam: spec_array_update(s1.ppu.oam, idx as int, v), ..s1.ppu });
            s2.dma_from(page, i + 1)
        }
    }

    /// A CPU-bus write: RAM, the PPU registers, OAM DMA at 0x4014 (which
    /// also stalls the CPU for 513 cycles), the controller at 0x4016; ROM
    /// and other addresses ignore it.
    #[verifier::opaque]
    pub open spec fn bus_write(self, addr: u16, value: u8) -> NesEmulator {
        if addr < 0x2000 {
            NesEmulator { ram: spec_array_update(self.ram, addr as int % 0x800, value), ..self }
        } else if addr < 0x4000 {
            self.with_ppu(self.ppu.write_register_spec(addr, value))
        } else if addr == 0x4014 {
            let d = self.dma_from(value, 0);
            NesEmulator { extra_cycles: wrap16(d.extra_cycles as int + 513), ..d }
        } else if addr == 0x4016 {
            self.controller_write_spec(value)
        } else {
            self
        }
    }

    /// The game variables that Super Mario Bros keeps in RAM, decoded, with
    /// the scroll override cleared.
    pub open spec fn refreshed(self) -> NesEmulator {
        NesEmulator {
            x_pos: (self.ram[0x6d] as int * 256 + self.ram[0x86] as int) as u16,
            coins: self.ram[0x75e],
            level_hi: signed_byte(self.ram[0x75f]) as i16,
            level_lo: signed_byte(self.ram[0x75c]) as i16,
            lives: signed_byte(self.ram[0x75a]) as i16,
            score: bcd_value(self.ram@.subrange(0x7dd, 0x7e3)) as u32,
            scrolling: signed_byte(self.ram[0x778]) as i16,
            time: bcd_value(self.ram@.subrange(0x7f8, 0x7fb)) as u16,
            xscroll_hi: self.ram[0x71a],
            xscroll_lo: self.ram[0x71c],
            ppu: Ppu { scroll_override_x_px: None, ..self.ppu },
            ..self
        }
    }
}

impl NesEmulator {
    /// A CPU-bus read.
    pub fn cpu_read(&mut self, addr: u16) -> (value: u8)
        requires
            old(self).wf(),
        ensures
            final(self).wf(),
            (*final(self), value) == old(self).bus_read(addr),
    {
        reveal(NesEmulator::bus_read);
        match addr {
            0x0000..=0x1fff => {
                proof {
                    lemma_usize_bits(addr as usize);
                }
                self.ram[addr as usize & 0x07ff]
            },
            0x2000..=0x3fff => self.ppu.cpu_read_register(addr),
            0x4016 => self.controller_read(),
            0x8000..=0xffff => self.prg_read(addr),
            _ => 0,
        }
    }

    /// A CPU-bus write.
    pub fn cpu_write(&mut self, addr: u16, value: u8)
        requires
            old(self).wf(),
        ensures
            final(self).wf(),
            *final(self) == old(self).bus_write(addr, value),
    {
        reveal(NesEmulator::bus_write);
        match addr {
            0x0000..=0x1fff => {
                proof {
                    lemma_usize_bits(addr as usize);
                }
                self.ram[addr as usize & 0x07ff] = value;
            },
            0x2000..=0x3fff => self.ppu.cpu_write_register(addr, value),
            0x4014 => self.oam_dma(value),
            0x4016 => self.controller_write(value),
            _ => {},
        }
    }

    /// The PRG ROM byte at CPU address `addr`.
    pub fn prg_read(&self, addr: u16) -> (value: u8)
        requires
            self.wf(),
            addr >= 0x8000,
        ensures
            value == self.prg_at(addr),
    {
        let offset = (addr - 0x8000) as usize;
        let mask = self.prg_addr_mask;
        proof {
            lemma_and_le(offset, mask);
        }
        let idx = ((addr - 0x8000) as usize) & self.prg_addr_mask;
        self.prg_rom[idx]
    }

    /// The little-endian word at `addr` and `addr + 1` (wrapping), read
    /// over the bus.
    pub fn cpu_read_u16(&mut self, addr: u16) -> (value: u16)
        requires
            old(self).wf(),
        ensures
            final(self).wf(),
            (*final(self), value) == old(self).read_u16_spec(addr),
    {
        reveal(NesEmulator::read_u16_spec);
        let lo = self.cpu_read(addr) as u16;
        let hi = self.cpu_read(addr.wrapping_add(1)) as u16;
        proof {
            lemma_word_of_bytes(lo, hi);
        }
        lo | (hi << 8)
    }

    /// Two bus reads, low byte first.
    #[verifier::opaque]
    pub open spec fn read_u16_spec(self, addr: u16) -> (NesEmulator, u16) {
        let (s1, lo) = self.bus_read(addr);
        let (s2, hi) = s1.bus_read(wrap16(addr as int + 1));
        (s2, (lo as int + 256 * hi as int) as u16)
    }

    /// A write to the controller port.
    pub fn controller_write(&mut self, value: u8)
        ensures
            *final(self) == old(self).controller_write_spec(value),
    {
        self.controller_strobe = value & 1 != 0;
        if self.controller_strobe {
            self.controller_shift = self.controller_state;
        }
    }

    /// A read of the controller port.
    pub fn controller_read(&mut self) -> (value: u8)
        ensures
            (*final(self), value) == old(self).controller_read_spec(),
    {
        if self.controller_strobe {
            return 0x40 | (self.controller_state & 1);
        }
        let value = self.controller_shift & 1;
        self.controller_shift = (self.controller_shift >> 1) | 0x80;
        0x40 | value
    }

    /// OAM DMA of CPU page `page`.
    pub fn oam_dma(&mut self, page: u8)
        requires
            old(self).wf(),
        ensures
            final(self).wf(),
            *final(self) == ({
                let d = old(self).dma_from(page, 0);
                NesEmulator { extra_cycles: wrap16(d.extra_cycles as int + 513), ..d }
            }),
    {
        let ghost target = old(self).dma_from(page, 0);
        let base = (page as u16) << 8;
        assert(base == page as u16 * 256) by (bit_vector)
            requires
                base == (page as u16) << 8u16,
        ;
        let mut i: u16 = 0;
        while i < 256
            invariant
                self.wf(),
                i <= 256,
                base == page as int * 256,
                self.dma_from(page, i as nat) == target,
            decreases 256 - i,
        {
            assert(base | i == base + i) by (bit_vector)
                requires
                    base == page as u16 * 256,
                    i < 256,
            ;
            let value = self.cpu_read(base | i);
            let idx = self.ppu.oam_addr.wrapping_add(i as u8) as usize;
            self.ppu.oam[idx] = value;
            i += 1;
        }
        self.extra_cycles = self.extra_cycles.wrapping_add(513);
    }
}

} // verus!

verus! {

/// The x position at which the flagpole ends an episode when the emulator
/// terminates on the flag.
pub const FLAG_X_POS: u16 = 3160;

impl NesEmulator {
    /// One iteration of the frame loop and what follows it: an NMI the PPU
    /// raised is taken, one instruction runs, and its cycles (three PPU dots
    /// each) are handed to the PPU once they reach its next event or the
    /// frame's CPU-cycle guard is hit. The frame ends when the PPU completes
    /// it or at the guard.
    pub open spec fn frame_loop(self, guard: int, pending: int) -> NesEmulator
        decreases CPU_CYCLES_PER_FRAME_GUARD - guard,
    {
        let s0 = self.with_ppu(Ppu { nmi_pending: false, ..self.ppu });
        let s1 = if self.ppu.nmi_pending {
            s0.interrupt_spec(0xfffa, false)
        } else {
            s0
        };
        let (s2, cycles) = s1.step_spec();
        let g = guard + cycles;
        let pend = pending + cycles * 3;
        if pend >= next_event_dot(s2.ppu.frame_dot as int) - s2.ppu.frame_dot
            || g >= CPU_CYCLES_PER_FRAME_GUARD {
            let (p, completed) = s2.ppu.tick_spec(pend as nat);
            let s3 = s2.with_ppu(p);
            if completed || g >= CPU_CYCLES_PER_FRAME_GUARD || g <= guard {
                s3
            } else {
                s3.frame_loop(g, 0)
            }
        } else if g <= guard {
            s2
        } else {
            s2.frame_loop(g, pend)
        }
    }

    /// A frame run with the controller holding `buttons`.
    pub open spec fn run_frame_spec(self, buttons: u8) -> NesEmulator {
        NesEmulator { controller_state: buttons, ..self }.frame_loop(0, 0)
    }

    /// One environment frame: nothing once the episode is done; otherwise the
    /// frame runs with the action's buttons, the game variables are read
    /// back, the episode ends at the flagpole when configured so, and the
    /// reward is how far the low byte of the horizontal scroll advanced
    /// (0 when it did not).
    pub open spec fn step_frame_spec(self, action: MarioAction) -> (NesEmulator, u8) {
        if self.done {
            (self, 0)
        } else {
            let s1 = self.run_frame_spec(buttons_of(action)).refreshed();
            let s2 = if s1.terminate_on_flag && s1.x_pos >= FLAG_X_POS {
                NesEmulator { done: true, ..s1 }
            } else {
                s1
            };
            let delta = s2.xscroll_lo as int - self.xscroll_lo as int;
            (s2, if delta > 0 {
                delta as u8
            } else {
                0
            })
        }
    }

    /// The reward of a frame step is how far the low byte of the horizontal
    /// scroll moved right, never negative: 0 once the episode is done (the
    /// state then stays), otherwise `max(0, after - before)` of the scroll
    /// byte the game keeps at RAM 0x71C, which the step reads back.
    pub proof fn lemma_step_reward(self, action: MarioAction)
        ensures
            ({
                let (after, reward) = self.step_frame_spec(action);
                &&& self.done ==> reward == 0 && after == self
                &&& !self.done ==> after.xscroll_lo == after.ram[0x71c]
                &&& !self.done ==> reward as int == if after.xscroll_lo > self.xscroll_lo {
                    after.xscroll_lo - self.xscroll_lo
                } else {
                    0
                }
                &&& reward <= after.xscroll_lo
                &&& !self.done ==> (after.done <==> (self.terminate_on_flag && after.x_pos >= 3160))
                &&& after.terminate_on_flag == self.terminate_on_flag
            }),
    {
        crate::step_laws::lemma_run_frame_kept(self, buttons_of(action));
    }

    /// The game variables hold what RAM says.
    pub open spec fn info_synced(&self) -> bool {
        let r = self.refreshed();
        &&& self.x_pos == r.x_pos
        &&& self.coins == r.coins
        &&& self.level_hi == r.level_hi
        &&& self.level_lo == r.level_lo
        &&& self.lives == r.lives
        &&& self.score == r.score
        &&& self.scrolling == r.scrolling
        &&& self.time == r.time
        &&& self.xscroll_hi == r.xscroll_hi
        &&& self.xscroll_lo == r.xscroll_lo
    }

    /// `self` is `before` after a reset: registers at power-on with PC from
    /// the reset vector, PPU cleared, RAM zeroed, controller released, no
    /// DMA stall, episode not done, game variables read from the zeroed RAM;
    /// the cartridge and the flagpole setting stay.
    pub open spec fn reset_from(self, before: NesEmulator) -> bool {
        &&& self.wf()
        &&& self.cpu == (Cpu {
            a: 0,
            x: 0,
            y: 0,
            sp: 0xfd,
            pc: (before.prg_at(0xfffc) as int + 256 * before.prg_at(0xfffd) as int) as u16,
            p: 0x24,
        })
        &&& self.ppu.is_cleared()
        &&& self.ppu.chr_rom == before.ppu.chr_rom
        &&& self.ppu.chr_addr_mask == before.ppu.chr_addr_mask
        &&& self.ppu.vertical_mirroring == before.ppu.vertical_mirroring
        &&& (forall|i: int| 0 <= i < 2048 ==> #[trigger] self.ram[i] == 0)
        &&& self.prg_rom == before.prg_rom
        &&& self.prg_addr_mask == before.prg_addr_mask
        &&& self.controller_state == 0
        &&& self.controller_shift == 0
        &&& !self.controller_strobe
        &&& self.extra_cycles == 0
        &&& self.info_synced()
        &&& self.terminate_on_flag == before.terminate_on_flag
        &&& !self.done
    }
}

impl NesEmulator {
    /// An emulator over the cartridge, reset.
    pub fn new_with_options(cart: Cartridge, terminate_on_flag: bool) -> (emu: Self)
        requires
            cart.prg_rom@.len() > 0,
            cart.chr_rom@.len() > 0,
        ensures
            emu.prg_rom == cart.prg_rom,
            emu.ppu.chr_rom == cart.chr_rom,
            emu.ppu.vertical_mirroring == cart.vertical_mirroring,
            emu.terminate_on_flag == terminate_on_flag,
            emu.reset_from(emu),
    {
        let prg_addr_mask = cart.prg_rom.len() - 1;
        let ppu = Ppu::new(cart.chr_rom, cart.vertical_mirroring);
        let mut emu = Self {
            cpu: Cpu::new(),
            ppu,
            ram: [0; 2048],
            prg_rom: cart.prg_rom,
            prg_addr_mask,
            controller_state: 0,
            controller_shift: 0,
            controller_strobe: false,
            extra_cycles: 0,
            x_pos: 0,
            coins: 0,
            level_hi: 0,
            level_lo: 0,
            lives: 0,
            score: 0,
            scrolling: 0,
            time: 0,
            xscroll_hi: 0,
            xscroll_lo: 0,
            terminate_on_flag,
            done: false,
        };
        emu.reset();
        emu
    }

    /// Two emulators agree in everything, their ROM vectors by content.
    pub open spec fn same_state(self, other: NesEmulator) -> bool {
        &&& self.prg_rom@ == other.prg_rom@
        &&& self.ppu.chr_rom@ == other.ppu.chr_rom@
        &&& self == (NesEmulator {
            prg_rom: self.prg_rom,
            ppu: Ppu { chr_rom: self.ppu.chr_rom, ..other.ppu },
            ..other
        })
    }

    /// A reset forgets all history: an emulator reset from any state equals
    /// a freshly built one over the same cartridge contents and flagpole
    /// setting (a fresh emulator is one that is its own reset).
    pub proof fn lemma_reset_matches_fresh(self, before: NesEmulator, fresh: NesEmulator)
        requires
            before.wf(),
            self.reset_from(before),
            fresh.reset_from(fresh),
            before.prg_rom@ == fresh.prg_rom@,
            before.ppu.chr_rom@ == fresh.ppu.chr_rom@,
            before.ppu.vertical_mirroring == fresh.ppu.vertical_mirroring,
            before.terminate_on_flag == fresh.terminate_on_flag,
        ensures
            self.same_state(fresh),
    {
        assert(self.ram =~= fresh.ram);
        assert(self.ppu.oam =~= fresh.ppu.oam);
        assert(self.ppu.vram =~= fresh.ppu.vram);
        assert(self.ppu.palette =~= fresh.ppu.palette);
        assert(self.refreshed() == NesEmulator { prg_rom: self.prg_rom, ppu: self.ppu, ..fresh }.refreshed());
    }

    /// While the game variables are in step with RAM, each getter's value is
    /// its RAM formula: the player's page and x byte, the coin count, the
    /// signed world/level/lives/scroll bytes, the six-digit decimal score,
    /// the three-digit timer and the scroll bytes.
    pub proof fn lemma_info_matches_ram(self)
        requires
            self.info_synced(),
        ensures
            self.x_pos == self.ram[0x6d] as int * 256 + self.ram[0x86] as int,
            self.coins == self.ram[0x75e],
            self.level_hi == signed_byte(self.ram[0x75f]),
            self.level_lo == signed_byte(self.ram[0x75c]),
            self.lives == signed_byte(self.ram[0x75a]),
            self.score == bcd_value(self.ram@.subrange(0x7dd, 0x7e3)),
            self.scrolling == signed_byte(self.ram[0x778]),
            self.time == bcd_value(self.ram@.subrange(0x7f8, 0x7fb)),
            self.xscroll_hi == self.ram[0x71a],
            self.xscroll_lo == self.ram[0x71c],
    {
        let r = self.ram;
        assert(r[0x6d] as int * 256 + r[0x86] as int <= 0xffff);
        crate::fceu::lemma_bcd_bounded(r@.subrange(0x7dd, 0x7e3));
        crate::fceu::lemma_bcd_bounded(r@.subrange(0x7f8, 0x7fb));
        reveal_with_fuel(crate::fceu::bcd_bound, 7);
        assert(r@.subrange(0x7dd, 0x7e3).len() == 6);
        assert(r@.subrange(0x7f8, 0x7fb).len() == 3);
        assert(crate::fceu::bcd_bound(6) <= 0xffff_ffff);
        assert(crate::fceu::bcd_bound(3) <= 0xffff);
    }

    /// Power-cycles the console: registers, PPU, RAM and controller back to
    /// their start, PC from the reset vector.
    pub fn reset(&mut self)
        requires
            old(self).wf(),
        ensures
            final(self).reset_from(*old(self)),
    {
        self.cpu = Cpu::new();
        self.ppu.reset();
        self.ram = [0; 2048];
        self.controller_state = 0;
        self.controller_shift = 0;
        self.controller_strobe = false;
        self.extra_cycles = 0;
        self.done = false;
        proof {
            reveal(NesEmulator::read_u16_spec);
            reveal(NesEmulator::bus_read);
        }
        self.cpu.pc = self.cpu_read_u16(0xfffc);
        self.refresh_smb_state();
    }

    /// Reads the game variables back from RAM.
    pub fn refresh_smb_state(&mut self)
        requires
            old(self).wf(),
        ensures
            final(self).wf(),
            *final(self) == old(self).refreshed(),
            final(self).info_synced(),
    {
        let hi = self.ram[0x006d] as u16;
        let lo = self.ram[0x0086] as u16;
        proof {
            lemma_word_of_bytes(lo, hi);
        }
        self.x_pos = ((self.ram[0x006d] as u16) << 8) | self.ram[0x0086] as u16;
        self.coins = self.ram[0x075e];
        self.level_hi = sign_extend_u8(self.ram[0x075f]);
        self.level_lo = sign_extend_u8(self.ram[0x075c]);
        self.lives = sign_extend_u8(self.ram[0x075a]);
        proof {
            reveal_with_fuel(bcd_bound, 7);
        }
        let ram: &[u8] = self.ram.as_slice();
        let score_digits = &ram[0x07dd..0x07e3];
        let time_digits = &ram[0x07f8..0x07fb];
        proof {
            lemma_bcd_bounded(score_digits@);
            lemma_bcd_bounded(time_digits@);
        }
        self.score = decode_ln_bcd_be(score_digits) as u32;
        self.scrolling = sign_extend_u8(self.ram[0x0778]);
        self.time = decode_ln_bcd_be(time_digits) as u16;
        self.xscroll_hi = self.ram[0x071a];
        self.xscroll_lo = self.ram[0x071c];
        self.ppu.set_scroll_override_x(None);
    }

    /// Runs the CPU with the controller holding `buttons` until the PPU
    /// completes a frame (or the CPU-cycle guard is hit).
    pub fn run_frame(&mut self, buttons: u8)
        requires
            old(self).wf(),
        ensures
            final(self).wf(),
            *final(self) == old(self).run_frame_spec(buttons),
    {
        self.controller_state = buttons;
        let ghost target = self.frame_loop(0, 0);
        let mut cpu_cycle_guard: usize = 0;
        let mut pending_ppu_cycles: usize = 0;
        loop
            invariant_except_break
                self.wf(),
                cpu_cycle_guard < CPU_CYCLES_PER_FRAME_GUARD,
                pending_ppu_cycles < PPU_DOTS_PER_FRAME,
                self.frame_loop(cpu_cycle_guard as int, pending_ppu_cycles as int) == target,
            ensures
                self.wf(),
                *self == target,
                pending_ppu_cycles == 0,
            decreases CPU_CYCLES_PER_FRAME_GUARD - cpu_cycle_guard,
        {
            let ghost start = *self;
            let ghost guard0 = cpu_cycle_guard as int;
            let ghost pending0 = pending_ppu_cycles as int;
            if self.ppu.take_nmi() {
                self.interrupt(0xfffa, false);
            }
            let cycles = self.cpu_step() as usize;
            cpu_cycle_guard += cycles;
            pending_ppu_cycles += cycles * 3;
            let must_flush = pending_ppu_cycles >= self.ppu.cycles_until_next_event()
                || cpu_cycle_guard >= CPU_CYCLES_PER_FRAME_GUARD;
            if must_flush {
                if self.ppu.tick(pending_ppu_cycles) || cpu_cycle_guard >= CPU_CYCLES_PER_FRAME_GUARD {
                    pending_ppu_cycles = 0;
                    break;
                }
                pending_ppu_cycles = 0;
            }
        }
        if pending_ppu_cycles > 0 {
            self.ppu.tick(pending_ppu_cycles);
        }
    }

    /// Runs one frame with `action` held; returns the reward, the advance of
    /// the horizontal scroll's low byte (as an integer).
    pub fn step_frame(&mut self, action: MarioAction) -> (reward: u8)
        requires
            old(self).wf(),
        ensures
            final(self).wf(),
            (*final(self), reward) == old(self).step_frame_spec(action),
            old(self).done ==> reward == 0 && *final(self) == *old(self),
            !old(self).done ==> reward as int == if final(self).xscroll_lo > old(self).xscroll_lo {
                final(self).xscroll_lo - old(self).xscroll_lo
            } else {
                0
            },
    {
        if self.done {
            return 0;
        }
        let before = self.xscroll_lo;
        self.run_frame(action.buttons());
        self.refresh_smb_state();
        if self.terminate_on_flag && self.x_pos >= FLAG_X_POS {
            self.done = true;
        }
        let delta = self.xscroll_lo as i16 - before as i16;
        if delta > 0 {
            delta as u8
        } else {
            0
        }
    }

    pub fn x_pos(&self) -> (v: u16)
        ensures
            v == self.x_pos,
    {
        self.x_pos
    }

    pub fn coins(&self) -> (v: u8)
        ensures
            v == self.coins,
    {
        self.coins
    }

    pub fn level_hi(&self) -> (v: i16)
        ensures
            v == self.level_hi,
    {
        self.level_hi
    }

    pub fn level_lo(&self) -> (v: i16)
        ensures
            v == self.level_lo,
    {
        self.level_lo
    }

    pub fn lives(&self) -> (v: i16)
        ensures
            v == self.lives,
    {
        self.lives
    }

    pub fn score(&self) -> (v: u32)
        ensures
            v == self.score,
    {
        self.score
    }

    pub fn scrolling(&self) -> (v: i16)
        ensures
            v == self.scrolling,
    {
        self.scrolling
    }

    pub fn time(&self) -> (v: u16)
        ensures
            v == self.time,
    {
        self.time
    }

    pub fn xscroll_hi(&self) -> (v: u8)
        ensures
            v == self.xscroll_hi,
    {
        self.xscroll_hi
    }

    pub fn xscroll_lo(&self) -> (v: u8)
        ensures
            v == self.xscroll_lo,
    {
        self.xscroll_lo
    }

    pub fn ram(&self) -> (ram: &[u8; 2048])
        ensures
            *ram == self.ram,
    {
        &self.ram
    }

    pub fn oam(&self) -> (oam: &[u8; 256])
        ensures
            *oam == self.ppu.oam,
    {
        self.ppu.oam()
    }

    pub fn is_done(&self) -> (done: bool)
        ensures
            done == self.done,
    {
        self.done
    }
}

} // verus!

verus! {

/// A four-byte field name.
pub open spec fn tag(a: u8, b: u8, c: u8, d: u8) -> Seq<u8> {
    seq![a, b, c, d]
}

/// The data of a field that is present (an arbitrary sequence otherwise).
pub open spec fn field_data(state: Seq<u8>, name: Seq<u8>, size: int) -> Seq<u8> {
    field_value(state, name, size).unwrap()
}

/// The first of the fields a saved state must hold that it lacks, by display
/// name and size, in the order PC, A, X, Y, S, P, RAM, NTAR, PRAM, SPRA, PPUR.
pub open spec fn first_missing_field(state: Seq<u8>) -> Option<(Seq<char>, usize)> {
    if field_value(state, tag(0x50, 0x43, 0, 0), 2) is None {
        Some(("PC"@, 2usize))
    } else if field_value(state, tag(0x41, 0, 0, 0), 1) is None {
        Some(("A"@, 1usize))
    } else if field_value(state, tag(0x58, 0, 0, 0), 1) is None {
        Some(("X"@, 1usize))
    } else if field_value(state, tag(0x59, 0, 0, 0), 1) is None {
        Some(("Y"@, 1usize))
    } else if field_value(state, tag(0x53, 0, 0, 0), 1) is None {
        Some(("S"@, 1usize))
    } else if field_value(state, tag(0x50, 0, 0, 0), 1) is None {
        Some(("P"@, 1usize))
    } else if field_value(state, tag(0x52, 0x41, 0x4d, 0), 2048) is None {
        Some(("RAM"@, 2048usize))
    } else if field_value(state, tag(0x4e, 0x54, 0x41, 0x52), 2048) is None {
        Some(("NTAR"@, 2048usize))
    } else if field_value(state, tag(0x50, 0x52, 0x41, 0x4d), 32) is None {
        Some(("PRAM"@, 32usize))
    } else if field_value(state, tag(0x53, 0x50, 0x52, 0x41), 256) is None {
        Some(("SPRA"@, 256usize))
    } else if field_value(state, tag(0x50, 0x50, 0x55, 0x52), 4) is None {
        Some(("PPUR"@, 4usize))
    } else {
        None
    }
}

impl NesEmulator {
    /// `self` is `before` with the saved state `state` (which holds every
    /// required field) copied in: registers, RAM, and the PPU part; the
    /// controller released, no DMA stall, episode not done; cartridge,
    /// flagpole setting and game variables untouched.
    pub open spec fn fceu_loaded(self, before: NesEmulator, state: Seq<u8>) -> bool {
        &&& self.cpu == (Cpu {
            a: field_data(state, tag(0x41, 0, 0, 0), 1)[0],
            x: field_data(state, tag(0x58, 0, 0, 0), 1)[0],
            y: field_data(state, tag(0x59, 0, 0, 0), 1)[0],
            sp: field_data(state, tag(0x53, 0, 0, 0), 1)[0],
            pc: le_u16_of(field_data(state, tag(0x50, 0x43, 0, 0), 2)).unwrap(),
            p: field_data(state, tag(0x50, 0, 0, 0), 1)[0],
        })
        &&& self.ppu.loaded_from(
            before.ppu,
            field_data(state, tag(0x4e, 0x54, 0x41, 0x52), 2048),
            field_data(state, tag(0x50, 0x52, 0x41, 0x4d), 32),
            field_data(state, tag(0x53, 0x50, 0x52, 0x41), 256),
            field_data(state, tag(0x50, 0x50, 0x55, 0x52), 4),
            field_value(state, tag(0x52, 0x41, 0x44, 0x44), 2),
            field_value(state, tag(0x54, 0x41, 0x44, 0x44), 2),
            field_value(state, tag(0x58, 0x4f, 0x46, 0x46), 1),
        )
        &&& self.ram@ == field_data(state, tag(0x52, 0x41, 0x4d, 0), 2048)
        &&& self.prg_rom == before.prg_rom
        &&& self.prg_addr_mask == before.prg_addr_mask
        &&& self.controller_state == 0
        &&& self.controller_shift == 0
        &&& !self.controller_strobe
        &&& self.extra_cycles == 0
        &&& !self.done
        &&& self.terminate_on_flag == before.terminate_on_flag
        &&& self.x_pos == before.x_pos
        &&& self.coins == before.coins
        &&& self.level_hi == before.level_hi
        &&& self.level_lo == before.level_lo
        &&& self.lives == before.lives
        &&& self.score == before.score
        &&& self.scrolling == before.scrolling
        &&& self.time == before.time
        &&& self.xscroll_hi == before.xscroll_hi
        &&& self.xscroll_lo == before.xscroll_lo
    }
}

impl NesEmulator {
    /// Loads an FCEU save state, then runs one frame with no buttons held,
    /// which lands on the first visible gameplay frame. When a required
    /// field is missing nothing changes and the first missing field is
    /// reported.
    pub fn load_fceu_state(&mut self, state: &[u8]) -> (r: Result<(), StateLoadError>)
        requires
            old(self).wf(),
        ensures
            final(self).wf(),
            match r {
                Err(StateLoadError::MissingField { name, size }) => {
                    &&& first_missing_field(state@) == Some((name@, size))
                    &&& *final(self) == *old(self)
                },
                Ok(()) => {
                    &&& first_missing_field(state@) is None
                    &&& exists|mid: NesEmulator|
                        {
                            &&& #[trigger] mid.fceu_loaded(*old(self), state@)
                            &&& mid.wf()
                            &&& *final(self) == mid.refreshed().run_frame_spec(0).refreshed()
                        }
                },
            },
    {
        let pc = match required_field(state, &[0x50, 0x43, 0, 0], "PC", 2) {
            Ok(f) => f,
            Err(e) => return Err(e),
        };
        let a = match required_field(state, &[0x41, 0, 0, 0], "A", 1) {
            Ok(f) => f[0],
            Err(e) => return Err(e),
        };
        let x = match required_field(state, &[0x58, 0, 0, 0], "X", 1) {
            Ok(f) => f[0],
            Err(e) => return Err(e),
        };
        let y = match required_field(state, &[0x59, 0, 0, 0], "Y", 1) {
            Ok(f) => f[0],
            Err(e) => return Err(e),
        };
        let sp = match required_field(state, &[0x53, 0, 0, 0], "S", 1) {
            Ok(f) => f[0],
            Err(e) => return Err(e),
        };
        let p = match required_field(state, &[0x50, 0, 0, 0], "P", 1) {
            Ok(f) => f[0],
            Err(e) => return Err(e),
        };
        let ram = match required_field(state, &[0x52, 0x41, 0x4d, 0], "RAM", 2048) {
            Ok(f) => f,
            Err(e) => return Err(e),
        };
        let ntar = match required_field(state, &[0x4e, 0x54, 0x41, 0x52], "NTAR", 2048) {
            Ok(f) => f,
            Err(e) => return Err(e),
        };
        let pram = match required_field(state, &[0x50, 0x52, 0x41, 0x4d], "PRAM", 32) {
            Ok(f) => f,
            Err(e) => return Err(e),
        };
        let spra = match required_field(state, &[0x53, 0x50, 0x52, 0x41], "SPRA", 256) {
            Ok(f) => f,
            Err(e) => return Err(e),
        };
        let ppur = match required_field(state, &[0x50, 0x50, 0x55, 0x52], "PPUR", 4) {
            Ok(f) => f,
            Err(e) => return Err(e),
        };
        let ghost before = *self;
        self.cpu = Cpu {
            a,
            x,
            y,
            sp,
            pc: match read_u16_le(pc) {
                Some(v) => v,
                None => 0,
            },
            p,
        };
        self.ppu.load_fceu_state(
            ntar,
            pram,
            spra,
            ppur,
            optional_field(state, &[0x52, 0x41, 0x44, 0x44], 2),
            optional_field(state, &[0x54, 0x41, 0x44, 0x44], 2),
            optional_field(state, &[0x58, 0x4f, 0x46, 0x46], 1),
        );
        copy_into(&mut self.ram, ram);
        self.controller_state = 0;
        self.controller_shift = 0;
        self.controller_strobe = false;
        self.extra_cycles = 0;
        self.done = false;
        let ghost mid = *self;
        assert(mid.fceu_loaded(before, state@));
        self.refresh_smb_state();
        // FCEU state files resume close to, but not exactly at, this
        // simplified PPU frame boundary. One no-op frame matches the first
        // visible gameplay frame without changing the reset observation.
        self.run_frame(0);
        self.refresh_smb_state();
        Ok(())
    }
}


/// The bytes of `n` successive controller-port reads.
pub open spec fn controller_reads(e: NesEmulator, n: nat) -> Seq<u8>
    decreases n,
{
    if n == 0 {
        seq![]
    } else {
        let (e1, v) = e.controller_read_spec();
        seq![v] + controller_reads(e1, (n - 1) as nat)
    }
}

impl NesEmulator {
    /// The controller protocol: after the strobe is set and cleared, the
    /// first eight reads give the latched buttons one bit each, A (bit 0)
    /// first, with bit 6 of the bus set; every later read gives 0x41.
    pub proof fn lemma_controller_reads(self, n: nat)
        ensures
            ({
                let e = self.controller_write_spec(1).controller_write_spec(0);
                let reads = controller_reads(e, n);
                &&& reads.len() == n
                &&& forall|k: int|
                    0 <= k < n ==> #[trigger] reads[k] == if k < 8 {
                        0x40 | ((self.controller_state >> (k as u8)) & 1)
                    } else {
                        0x41u8
                    }
            }),
    {
        let e = self.controller_write_spec(1).controller_write_spec(0);
        let x = self.controller_state;
        assert(1u8 & 1 != 0 && 0u8 & 1 == 0 && shifted_in(x, 0) == x) by (bit_vector);
        assert(e.controller_shift == self.controller_state && !e.controller_strobe);
        lemma_shift_reads(e, x, 0, n);
        lemma_controller_reads_len(e, n);
        assert forall|k: int| 0 <= k < n implies #[trigger] controller_reads(e, n)[k] == if k < 8 {
            0x40 | ((x >> (k as u8)) & 1)
        } else {
            0x41u8
        } by {
            assert(0 + k == k);
        }
    }

    /// While the strobe bit is held set, every read gives button A with bit
    /// 6 of the bus set.
    pub proof fn lemma_strobe_held_reads(self, value: u8, n: nat)
        requires
            value & 1 == 1,
        ensures
            ({
                let reads = controller_reads(self.controller_write_spec(value), n);
                &&& reads.len() == n
                &&& forall|k: int| 0 <= k < n ==> #[trigger] reads[k] == 0x40 | (self.controller_state & 1)
            }),
        decreases n,
    {
        let e = self.controller_write_spec(value);
        assert(e.controller_strobe);
        lemma_controller_reads_len(e, n);
        if n > 0 {
            let (e1, v) = e.controller_read_spec();
            assert(e1 == e);
            assert(self.controller_write_spec(value) == e);
            self.lemma_strobe_held_reads(value, (n - 1) as nat);
            let rest = controller_reads(e1, (n - 1) as nat);
            assert(controller_reads(e, n) == seq![v] + rest);
            assert forall|k: int| 0 <= k < n implies #[trigger] controller_reads(e, n)[k] == 0x40 | (
            self.controller_state & 1) by {
                if k > 0 {
                    assert(controller_reads(e, n)[k] == rest[k - 1]);
                }
            }
        }
    }
}

/// `n` reads give `n` bytes.
proof fn lemma_controller_reads_len(e: NesEmulator, n: nat)
    ensures
        controller_reads(e, n).len() == n,
    decreases n,
{
    if n > 0 {
        lemma_controller_reads_len(e.controller_read_spec().0, (n - 1) as nat);
    }
}

/// The shift register after `j` reads of latched byte `x`: `x >> j` with
/// the vacated high bits filled with ones.
pub open spec fn shifted_in(x: u8, j: u8) -> u8 {
    (x >> j) | !(0xffu8 >> j)
}

/// Reads from a shift register that holds `x` after `j` reads give bit
/// `j`, `j + 1`, ... of `x`, and 0x41 once the eight bits are out.
proof fn lemma_shift_reads(e: NesEmulator, x: u8, j: u8, n: nat)
    requires
        j <= 8,
        !e.controller_strobe,
        e.controller_shift == shifted_in(x, j),
    ensures
        forall|k: int|
            0 <= k < n ==> #[trigger] controller_reads(e, n)[k] == if j + k < 8 {
                0x40 | ((x >> ((j + k) as u8)) & 1)
            } else {
                0x41u8
            },
    decreases n,
{
    if n > 0 {
        let (e1, v) = e.controller_read_spec();
        let j1: u8 = if j < 8 { (j + 1) as u8 } else { 8 };
        assert(((shifted_in(x, j) >> 1u8) | 0x80) == shifted_in(x, j1) && (j < 8 ==> shifted_in(x, j) & 1
            == (x >> j) & 1) && (j == 8 ==> 0x40 | (shifted_in(x, j) & 1) == 0x41u8)) by (bit_vector)
            requires
                j <= 8,
                j1 == if j < 8 { (j + 1) as u8 } else { 8u8 },
        ;
        lemma_shift_reads(e1, x, j1, (n - 1) as nat);
        let rest = controller_reads(e1, (n - 1) as nat);
        lemma_controller_reads_len(e1, (n - 1) as nat);
        assert(controller_reads(e, n) == seq![v] + rest);
        assert forall|k: int| 0 <= k < n implies #[trigger] controller_reads(e, n)[k] == if j + k < 8 {
            0x40 | ((x >> ((j + k) as u8)) & 1)
        } else {
            0x41u8
        } by {
            if k > 0 {
                assert(controller_reads(e, n)[k] == rest[k - 1]);
                if j < 8 {
                    assert((j1 + (k - 1)) as u8 == (j + k) as u8);
                }
            }
        }
    }
}

} // verus!
