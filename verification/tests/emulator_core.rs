use supermarioemu::emulator::{
    Cartridge, CartridgeError, MarioAction, NesEmulator, BUTTON_A, BUTTON_B, BUTTON_LEFT, BUTTON_RIGHT,
    BUTTON_START, FLAG_C, FLAG_N, FLAG_V, FLAG_Z,
};
use supermarioemu::fceu::{
    decode_ln_bcd_be, optional_field, read_u16_le, required_field, sign_extend_u8,
    StateLoadError,
};
use supermarioemu::ppu::Ppu;
use supermarioemu::{build_nes_gray_palette, nes_gray, nes_rgb};

fn make_emulator() -> NesEmulator {
    let mut prg_rom = vec![0xea; 0x8000];
    // Reset vector at 0xfffc points to 0x8000.
    prg_rom[0x7ffc] = 0x00;
    prg_rom[0x7ffd] = 0x80;
    let cart = Cartridge {
        prg_rom,
        chr_rom: vec![0; 0x2000],
        vertical_mirroring: true,
    };
    NesEmulator::new_with_options(cart, true)
}

fn field(name: &[u8; 4], data: &[u8]) -> Vec<u8> {
    let mut out = name.to_vec();
    out.extend_from_slice(&(data.len() as u32).to_le_bytes());
    out.extend_from_slice(data);
    out
}

#[test]
fn action_ids_map_to_buttons() {
    assert!(matches!(MarioAction::from_u8(0), MarioAction::Noop));
    assert!(matches!(MarioAction::from_u8(4), MarioAction::RightAB));
    assert!(matches!(MarioAction::from_u8(7), MarioAction::Start));
    assert!(matches!(MarioAction::from_u8(8), MarioAction::Noop));
    assert!(matches!(MarioAction::from_u8(255), MarioAction::Noop));
    assert_eq!(MarioAction::Noop.buttons(), 0);
    assert_eq!(MarioAction::Right.buttons(), BUTTON_RIGHT);
    assert_eq!(MarioAction::RightB.buttons(), BUTTON_RIGHT | BUTTON_B);
    assert_eq!(MarioAction::RightA.buttons(), BUTTON_RIGHT | BUTTON_A);
    assert_eq!(MarioAction::RightAB.buttons(), 131);
    assert_eq!(MarioAction::A.buttons(), BUTTON_A);
    assert_eq!(MarioAction::Left.buttons(), BUTTON_LEFT);
    assert_eq!(MarioAction::Start.buttons(), BUTTON_START);
}

#[test]
fn gray_palette_uses_luminance_weights() {
    // Master color 0 is (112, 116, 112): (112*77 + 116*150 + 112*29 + 128) >> 8 = 114.
    assert_eq!(nes_rgb(0), [112, 116, 112]);
    assert_eq!(nes_gray(0), 114);
    let table = build_nes_gray_palette();
    for color in 0..64u8 {
        assert_eq!(table[color as usize], nes_gray(color));
    }
    // The upper two bits of a palette byte are ignored by the RGB table.
    assert_eq!(nes_rgb(0x40), nes_rgb(0x00));
    assert_eq!(nes_rgb(0xff), nes_rgb(0x3f));
}

#[test]
fn fceu_field_helpers_decode_values() {
    assert_eq!(read_u16_le(&[0x34, 0x12, 0xff]), Some(0x1234));
    assert_eq!(read_u16_le(&[0x34]), None);
    assert_eq!(sign_extend_u8(0x7f), 127);
    assert_eq!(sign_extend_u8(0x80), -128);
    assert_eq!(sign_extend_u8(0xff), -1);
    assert_eq!(decode_ln_bcd_be(&[0, 1, 2, 3, 4, 5]), 12345);
    assert_eq!(decode_ln_bcd_be(&[0xf9, 0x38]), 98);
    assert_eq!(decode_ln_bcd_be(&[]), 0);

    let mut state = field(b"AB\0\0", &[1, 2, 3]);
    state.extend(field(b"XY\0\0", &[9]));
    assert_eq!(optional_field(&state, b"AB\0\0", 3), Some(&[1u8, 2, 3][..]));
    assert_eq!(optional_field(&state, b"AB\0\0", 2), None);
    assert_eq!(optional_field(&state, b"XY\0\0", 1), Some(&[9u8][..]));
    assert_eq!(optional_field(&state, b"ZZ\0\0", 1), None);
    match required_field(&state, b"QQ\0\0", "QQ", 4) {
        Err(StateLoadError::MissingField { name, size }) => {
            assert_eq!(name, "QQ");
            assert_eq!(size, 4);
        }
        Ok(_) => panic!("a missing field was found"),
    }
}

#[test]
fn load_fceu_state_reports_first_missing_field_and_keeps_state() {
    let mut emu = make_emulator();
    let pc_before = emu.cpu.pc;
    let ram_before = emu.ram;
    let mut state = field(b"PC\0\0", &[0x00, 0x80]);
    state.extend(field(b"A\0\0\0", &[1]));
    match emu.load_fceu_state(&state) {
        Err(StateLoadError::MissingField { name, size }) => {
            assert_eq!(name, "X");
            assert_eq!(size, 1);
        }
        Ok(()) => panic!("an incomplete state loaded"),
    }
    assert_eq!(emu.cpu.pc, pc_before);
    assert_eq!(emu.ram, ram_before);
    match emu.load_fceu_state(&[]) {
        Err(StateLoadError::MissingField { name, size }) => {
            assert_eq!(name, "PC");
            assert_eq!(size, 2);
        }
        Ok(()) => panic!("an empty state loaded"),
    }
}

#[test]
fn load_fceu_state_accepts_complete_state() {
    let mut emu = make_emulator();
    let mut ram = vec![0u8; 2048];
    ram[0x6d] = 1;
    ram[0x86] = 0x20;
    ram[0x75a] = 0xff;
    ram[0x7dd] = 1;
    ram[0x7e2] = 5;
    let mut state = field(b"PC\0\0", &[0x00, 0x80]);
    for (name, value) in [(b"A\0\0\0", 1u8), (b"X\0\0\0", 2), (b"Y\0\0\0", 3), (b"S\0\0\0", 0xfd), (b"P\0\0\0", 0x24)] {
        state.extend(field(name, &[value]));
    }
    state.extend(field(b"RAM\0", &ram));
    state.extend(field(b"NTAR", &[0u8; 2048]));
    state.extend(field(b"PRAM", &[0x0fu8; 32]));
    state.extend(field(b"SPRA", &[0xffu8; 256]));
    state.extend(field(b"PPUR", &[0, 0, 0, 0]));
    assert!(emu.load_fceu_state(&state).is_ok());
    assert!(!emu.is_done());
    assert_eq!(emu.ppu.palette, [0x0f; 32]);
}

#[test]
fn stack_push_then_pop_round_trips() {
    let mut emu = make_emulator();
    let sp = emu.cpu.sp;
    emu.push(0x5a);
    assert_eq!(emu.cpu.sp, sp.wrapping_sub(1));
    assert_eq!(emu.pop(), 0x5a);
    assert_eq!(emu.cpu.sp, sp);
    emu.push_u16(0xbeef);
    assert_eq!(emu.pop_u16(), 0xbeef);
    assert_eq!(emu.cpu.sp, sp);
    // The stack lives on page 1 of RAM.
    emu.push(0x77);
    assert_eq!(emu.ram[0x100 + sp as usize], 0x77);
}

#[test]
fn controller_shifts_out_latched_buttons() {
    let mut emu = make_emulator();
    emu.controller_state = BUTTON_A | BUTTON_START | BUTTON_RIGHT;
    emu.controller_write(1);
    emu.controller_write(0);
    let reads: Vec<u8> = (0..10).map(|_| emu.controller_read()).collect();
    assert_eq!(reads, vec![0x41, 0x40, 0x40, 0x41, 0x40, 0x40, 0x40, 0x41, 0x41, 0x41]);
    // While strobed, every read shows button A.
    emu.controller_write(1);
    assert_eq!(emu.controller_read(), 0x41);
    assert_eq!(emu.controller_read(), 0x41);
}

#[test]
fn adc_and_sbc_set_flags() {
    let mut emu = make_emulator();
    emu.cpu.a = 0x50;
    emu.cpu.p &= !FLAG_C;
    emu.adc(0x50);
    assert_eq!(emu.cpu.a, 0xa0);
    assert!(emu.flag(FLAG_V));
    assert!(emu.flag(FLAG_N));
    assert!(!emu.flag(FLAG_C));
    assert!(!emu.flag(FLAG_Z));

    emu.cpu.a = 0x05;
    emu.cpu.p |= FLAG_C;
    emu.sbc(0x05);
    assert_eq!(emu.cpu.a, 0x00);
    assert!(emu.flag(FLAG_Z));
    assert!(emu.flag(FLAG_C));

    emu.cpu.a = 0x00;
    emu.cpu.p |= FLAG_C;
    emu.sbc(0x01);
    assert_eq!(emu.cpu.a, 0xff);
    assert!(!emu.flag(FLAG_C));
    assert!(emu.flag(FLAG_N));
}

#[test]
fn ram_is_mirrored_every_two_kib() {
    let mut emu = make_emulator();
    emu.cpu_write(0x0123, 0x42);
    assert_eq!(emu.cpu_read(0x0923), 0x42);
    assert_eq!(emu.cpu_read(0x1923), 0x42);
    emu.cpu_write(0x1fff, 7);
    assert_eq!(emu.ram[0x7ff], 7);
    // PRG ROM reads ignore writes.
    emu.cpu_write(0x8000, 0);
    assert_eq!(emu.cpu_read(0x8000), 0xea);
}

#[test]
fn step_frame_after_done_changes_nothing() {
    let mut emu = make_emulator();
    emu.done = true;
    let x_before = emu.x_pos();
    let pc_before = emu.cpu.pc;
    assert_eq!(emu.step_frame(MarioAction::Right), 0);
    assert_eq!(emu.cpu.pc, pc_before);
    assert_eq!(emu.x_pos(), x_before);
    assert!(emu.is_done());
}

#[test]
fn reset_reads_reset_vector_and_decodes_ram() {
    let mut emu = make_emulator();
    emu.ram[0x6d] = 3;
    emu.reset();
    assert_eq!(emu.cpu.pc, 0x8000);
    assert_eq!(emu.cpu.sp, 0xfd);
    assert_eq!(emu.x_pos(), 0);
    assert!(!emu.is_done());
}

#[test]
fn ppu_write_then_read_follows_mirroring() {
    let mut ppu = Ppu::new(vec![0; 8192], true);
    ppu.ppu_write(0x2005, 0x11);
    // Vertical mirroring: table 2 mirrors table 0.
    assert_eq!(ppu.ppu_read(0x2805), 0x11);
    assert_eq!(ppu.ppu_read(0x2405), 0);
    // The nametable range repeats at 0x3000.
    assert_eq!(ppu.ppu_read(0x3005), 0x11);

    let mut ppu = Ppu::new(vec![0; 8192], false);
    ppu.ppu_write(0x2005, 0x22);
    // Horizontal mirroring: table 1 mirrors table 0.
    assert_eq!(ppu.ppu_read(0x2405), 0x22);
    assert_eq!(ppu.ppu_read(0x2805), 0);

    // Sprite backdrop entries alias the background ones.
    ppu.ppu_write(0x3f10, 0x0d);
    assert_eq!(ppu.ppu_read(0x3f00), 0x0d);
    ppu.ppu_write(0x3f04, 0x21);
    assert_eq!(ppu.ppu_read(0x3f14), 0x21);
    // The palette repeats every 32 bytes; 0x3f11 is its own entry.
    ppu.ppu_write(0x3f31, 0x16);
    assert_eq!(ppu.ppu_read(0x3f11), 0x16);
    assert_eq!(ppu.ppu_read(0x3f01), 0);
    // Pattern memory is ROM.
    ppu.ppu_write(0x0010, 0x99);
    assert_eq!(ppu.ppu_read(0x0010), 0);
}

#[test]
fn palette_in_range_checks_every_entry() {
    let mut ppu = Ppu::new(vec![0; 8192], true);
    assert!(ppu.palette_in_range());
    ppu.palette[31] = 64;
    assert!(!ppu.palette_in_range());
}

#[test]
fn disabled_background_shows_backdrop_everywhere() {
    let mut ppu = Ppu::new(vec![0xff; 8192], true);
    ppu.palette[0] = 0x21;
    ppu.palette[3] = 0x30;
    ppu.mask = 0;
    let mut rgb = vec![0u8; 3 * 16 * 4];
    ppu.write_rgb_frame_region(&mut rgb, 10, 20, 16, 4);
    let backdrop = nes_rgb(0x21);
    for idx in 0..64 {
        assert_eq!(rgb[idx], backdrop[0]);
        assert_eq!(rgb[64 + idx], backdrop[1]);
        assert_eq!(rgb[128 + idx], backdrop[2]);
    }
    let mut gray = vec![0u8; 256 * 240];
    ppu.write_gray_frame(&mut gray);
    assert!(gray.iter().all(|&g| g == nes_gray(0x21)));
    // With the background on, every pattern bit is set: entry 3 shows.
    ppu.mask = 0x08;
    assert_eq!(ppu.bg_color_index(5, 5), 0x30);
    assert_eq!(ppu.debug_bg_pixel(5, 5), (0x30, true));
}

#[test]
fn gray_writers_agree_on_a_window() {
    let chr_rom = (0..8192).map(|idx| ((idx * 7 + 3) & 0xff) as u8).collect::<Vec<_>>();
    let mut ppu = Ppu::new(chr_rom, false);
    ppu.mask = 0x18;
    ppu.scroll_x_px = 13;
    ppu.scroll_y_px = 5;
    for (idx, value) in ppu.vram.iter_mut().enumerate() {
        *value = ((idx * 11 + 1) & 0xff) as u8;
    }
    for (idx, value) in ppu.palette.iter_mut().enumerate() {
        *value = ((idx * 5 + 2) & 0x3f) as u8;
    }
    let mut full = vec![0u8; 256 * 240];
    ppu.write_gray_frame(&mut full);
    let mut cropped = vec![0u8; 256 * 100];
    ppu.write_gray_frame_cropped(&mut cropped, 40, 100);
    let mut region = vec![0u8; 240 * 100];
    ppu.write_gray_frame_region(&mut region, 40, 8, 240, 100);
    for y in 0..100 {
        for x in 0..256 {
            assert_eq!(cropped[y * 256 + x], full[(y + 40) * 256 + x]);
        }
        for x in 0..240 {
            assert_eq!(region[y * 240 + x], full[(y + 40) * 256 + x + 8]);
        }
    }
    let mut rgb = vec![0u8; 3 * 256 * 240];
    ppu.write_rgb_frame(&mut rgb);
    let plane = 256 * 240;
    for idx in (0..plane).step_by(97) {
        let (x, y) = (idx % 256, idx / 256);
        let color = ppu.bg_color_index(x, y);
        if ppu.sprite_scanline_mask()[y] == 0 {
            let expected = nes_rgb(color);
            assert_eq!([rgb[idx], rgb[plane + idx], rgb[2 * plane + idx]], expected);
        }
    }
}

#[test]
fn sprite_in_front_of_background_uses_sprite_palette() {
    let mut chr_rom = vec![0u8; 8192];
    for row in 0..8 {
        chr_rom[16 + row] = 0xff;
    }
    let mut ppu = Ppu::new(chr_rom, true);
    ppu.mask = 0x10;
    ppu.palette[0] = 0x0f;
    ppu.palette[0x11] = 0x16;
    ppu.oam.fill(0xff);
    ppu.oam[0] = 29;
    ppu.oam[1] = 1;
    ppu.oam[2] = 0;
    ppu.oam[3] = 100;
    let mut dst = vec![0u8; 256 * 240];
    ppu.write_gray_frame(&mut dst);
    assert_eq!(dst[30 * 256 + 100], nes_gray(0x16));
    assert_eq!(dst[37 * 256 + 107], nes_gray(0x16));
    assert_eq!(dst[38 * 256 + 100], nes_gray(0x0f));
    assert_eq!(dst[30 * 256 + 108], nes_gray(0x0f));
}

#[test]
fn ines_images_are_read_by_header() {
    let mut image = vec![0x4e, 0x45, 0x53, 0x1a, 2, 1, 0x01, 0, 0, 0, 0, 0, 0, 0, 0, 0];
    image.extend((0..0x8000).map(|i| (i & 0xff) as u8));
    image.extend(vec![0xcc; 0x2000]);
    let cart = Cartridge::from_ines_bytes(&image).expect("valid image");
    assert_eq!(cart.prg_rom.len(), 0x8000);
    assert_eq!(cart.prg_rom[0x123], 0x23);
    assert_eq!(cart.chr_rom, vec![0xcc; 0x2000]);
    assert!(cart.vertical_mirroring);

    let mut with_trainer = image.clone();
    with_trainer[6] = 0x04;
    with_trainer.splice(16..16, vec![0xee; 512]);
    let cart = Cartridge::from_ines_bytes(&with_trainer).expect("valid image");
    assert_eq!(cart.prg_rom[0x123], 0x23);
    assert!(!cart.vertical_mirroring);

    assert!(matches!(Cartridge::from_ines_bytes(&image[..100]), Err(CartridgeError::Truncated)));
    assert!(matches!(Cartridge::from_ines_bytes(b"NES"), Err(CartridgeError::BadMagic)));
    let mut mapper1 = image.clone();
    mapper1[6] = 0x10;
    assert!(matches!(Cartridge::from_ines_bytes(&mapper1), Err(CartridgeError::UnsupportedMapper)));
    let mut no_chr = image.clone();
    no_chr[5] = 0;
    assert!(matches!(Cartridge::from_ines_bytes(&no_chr), Err(CartridgeError::EmptyRom)));
}

#[test]
fn fresh_emulator_is_at_power_on() {
    let emu = make_emulator();
    assert_eq!((emu.cpu.a, emu.cpu.x, emu.cpu.y, emu.cpu.sp, emu.cpu.p, emu.cpu.pc), (0, 0, 0, 0xfd, 0x24, 0x8000));
    assert_eq!(emu.extra_cycles, 0);
    assert_eq!((emu.controller_state, emu.controller_shift, emu.controller_strobe), (0, 0, false));
    assert!(!emu.is_done());
}

#[test]
fn reset_matches_a_fresh_emulator() {
    let mut emu = make_emulator();
    for _ in 0..3 {
        emu.step_frame(MarioAction::RightAB);
    }
    emu.ram[0x75a] = 0xff;
    emu.cpu.a = 9;
    emu.reset();
    let fresh = make_emulator();
    assert_eq!(emu.cpu, fresh.cpu);
    assert_eq!(emu.ram, fresh.ram);
    assert_eq!(emu.extra_cycles, fresh.extra_cycles);
    assert_eq!(emu.ppu.frame, fresh.ppu.frame);
    assert_eq!(emu.ppu.vram, fresh.ppu.vram);
    assert_eq!((emu.x_pos(), emu.lives(), emu.score()), (fresh.x_pos(), fresh.lives(), fresh.score()));
}

#[test]
fn jsr_then_rts_returns_after_the_call() {
    let mut prg_rom = vec![0xea; 0x8000];
    // 0x8000: JSR 0x9000; 0x9000: RTS.
    prg_rom[0x0000] = 0x20;
    prg_rom[0x0001] = 0x00;
    prg_rom[0x0002] = 0x90;
    prg_rom[0x1000] = 0x60;
    prg_rom[0x7ffc] = 0x00;
    prg_rom[0x7ffd] = 0x80;
    let cart = Cartridge { prg_rom, chr_rom: vec![0; 0x2000], vertical_mirroring: true };
    let mut emu = NesEmulator::new_with_options(cart, false);
    let before = emu.cpu;
    assert_eq!(emu.cpu_step(), 6);
    assert_eq!((emu.cpu.pc, emu.cpu.sp), (0x9000, 0xfb));
    assert_eq!((emu.ram[0x1fd], emu.ram[0x1fc]), (0x80, 0x02));
    assert_eq!(emu.cpu_step(), 6);
    assert_eq!(emu.cpu.pc, 0x8003);
    assert_eq!((emu.cpu.sp, emu.cpu.a, emu.cpu.x, emu.cpu.y, emu.cpu.p), (before.sp, before.a, before.x, before.y, before.p));
}

#[test]
fn controller_reads_after_the_eighth_and_while_strobed() {
    let mut emu = make_emulator();
    emu.controller_state = 0b1000_0001;
    emu.controller_write(1);
    assert_eq!(emu.controller_read(), 0x41);
    assert_eq!(emu.controller_read(), 0x41);
    emu.controller_write(0);
    let reads: Vec<u8> = (0..10).map(|_| emu.controller_read()).collect();
    assert_eq!(reads, vec![0x41, 0x40, 0x40, 0x40, 0x40, 0x40, 0x40, 0x41, 0x41, 0x41]);
}
