use supermarioemu::build_nes_gray_palette;
use supermarioemu::emulator::{
    DEFAULT_GRAY_CROP_HEIGHT, DEFAULT_GRAY_CROP_TOP, DEFAULT_GRAY_RESIZE_HEIGHT,
    DEFAULT_GRAY_RESIZE_PIXELS, DEFAULT_GRAY_RESIZE_WIDTH, NES_HEIGHT, NES_WIDTH,
    VISIBLE_FRAME_LEFT, VISIBLE_FRAME_TOP, VISIBLE_FRAME_WIDTH,
};
use supermarioemu::ppu::Ppu;

fn resize_default_area_reference(src: &[u8], dst: &mut [u8]) {
    for dst_y in 0..DEFAULT_GRAY_RESIZE_HEIGHT {
        let y0 = (dst_y * DEFAULT_GRAY_CROP_HEIGHT) / DEFAULT_GRAY_RESIZE_HEIGHT;
        let y1 = (((dst_y + 1) * DEFAULT_GRAY_CROP_HEIGHT) / DEFAULT_GRAY_RESIZE_HEIGHT)
            .max(y0 + 1)
            .min(DEFAULT_GRAY_CROP_HEIGHT);
        for dst_x in 0..DEFAULT_GRAY_RESIZE_WIDTH {
            let x0 = (dst_x * VISIBLE_FRAME_WIDTH) / DEFAULT_GRAY_RESIZE_WIDTH;
            let x1 = (((dst_x + 1) * VISIBLE_FRAME_WIDTH) / DEFAULT_GRAY_RESIZE_WIDTH)
                .max(x0 + 1)
                .min(VISIBLE_FRAME_WIDTH);
            let mut sum = 0u32;
            for sy in y0..y1 {
                let row = sy * VISIBLE_FRAME_WIDTH;
                for sx in x0..x1 {
                    sum += src[row + sx] as u32;
                }
            }
            dst[dst_y * DEFAULT_GRAY_RESIZE_WIDTH + dst_x] =
                (sum / ((x1 - x0) * (y1 - y0)) as u32) as u8;
        }
    }
}

fn set_sprite(ppu: &mut Ppu, sprite: usize, y: u8, tile: u8, attr: u8, x: u8) {
    let base = sprite * 4;
    ppu.oam[base] = y.wrapping_sub(1);
    ppu.oam[base + 1] = tile;
    ppu.oam[base + 2] = attr;
    ppu.oam[base + 3] = x;
}

fn make_test_ppu() -> Ppu {
    let chr_rom = (0..8192)
        .map(|idx| ((idx * 37 + idx / 11 + 23) & 0xff) as u8)
        .collect::<Vec<_>>();
    let mut ppu = Ppu::new(chr_rom, true);
    ppu.ctrl = 0x18;
    ppu.mask = 0x18;
    ppu.scroll_x_px = 37;
    ppu.scroll_x_low = 37;
    ppu.scroll_y_px = 11;
    for (idx, value) in ppu.vram.iter_mut().enumerate() {
        *value = ((idx * 13 + idx / 7 + 5) & 0xff) as u8;
    }
    for (idx, value) in ppu.palette.iter_mut().enumerate() {
        *value = ((idx * 3 + 7) & 0x3f) as u8;
    }
    ppu.oam.fill(0xff);
    set_sprite(&mut ppu, 63, 70, 3, 0x00, 40);
    set_sprite(&mut ppu, 0, 72, 5, 0x01, 42);
    set_sprite(&mut ppu, 1, 74, 7, 0x22, 44);
    set_sprite(&mut ppu, 2, 190, 9, 0xc3, 250);
    ppu
}

#[test]
fn sprite_scanline_mask_limits_to_first_eight_oam_sprites() {
    let mut ppu = Ppu::new(vec![0; 8192], true);
    ppu.oam.fill(0xff);
    for sprite in 0..9usize {
        set_sprite(&mut ppu, sprite, 50, 1, 0x00, (sprite * 8) as u8);
    }

    let mask = ppu.sprite_scanline_mask();

    assert_eq!(mask[50].count_ones(), 8);
    for sprite in 0..8usize {
        assert_ne!(mask[50] & (1u64 << sprite), 0);
    }
    assert_eq!(mask[50] & (1u64 << 8), 0);
}

#[test]
fn behind_background_sprite_blocks_lower_priority_sprites() {
    let gray_palette = build_nes_gray_palette();
    let mut chr_rom = vec![0; 8192];
    for tile in [1usize, 2usize] {
        for row in 0..8usize {
            chr_rom[tile * 16 + row] = 0xff;
        }
    }
    let mut ppu = Ppu::new(chr_rom, true);
    ppu.mask = 0x18;
    ppu.vram[(40 / 8) * 32 + (40 / 8)] = 2;
    ppu.palette[1] = 0x0f;
    ppu.palette[0x11] = 0x30;
    ppu.oam.fill(0xff);
    set_sprite(&mut ppu, 1, 40, 1, 0x00, 40);
    set_sprite(&mut ppu, 0, 40, 1, 0x20, 40);

    let mut dst = vec![gray_palette[ppu.bg_color_index(40, 40) as usize]; NES_WIDTH * NES_HEIGHT];
    ppu.draw_sprites_gray(&mut dst);

    assert_eq!(
        dst[40 * NES_WIDTH + 40],
        gray_palette[ppu.bg_color_index(40, 40) as usize],
    );
}

fn assert_default_area_writer_matches_scratch(ppu: &Ppu) {
    let mut native = vec![0; VISIBLE_FRAME_WIDTH * DEFAULT_GRAY_CROP_HEIGHT];
    let mut expected = vec![0; DEFAULT_GRAY_RESIZE_PIXELS];
    let mut actual = vec![0; DEFAULT_GRAY_RESIZE_PIXELS];
    let mut sprite_shadow = vec![0; VISIBLE_FRAME_WIDTH * DEFAULT_GRAY_CROP_HEIGHT];

    ppu.write_gray_frame_region(
        &mut native,
        VISIBLE_FRAME_TOP + DEFAULT_GRAY_CROP_TOP,
        VISIBLE_FRAME_LEFT,
        VISIBLE_FRAME_WIDTH,
        DEFAULT_GRAY_CROP_HEIGHT,
    );
    resize_default_area_reference(&native, &mut expected);
    ppu.write_gray_frame_cropped_area_84x84(&mut actual, &mut sprite_shadow);

    assert_eq!(actual, expected);
}

#[test]
fn direct_nametable_read_matches_ppu_read_mirroring() {
    for vertical_mirroring in [true, false] {
        let chr_rom = vec![0; 8192];
        let mut ppu = Ppu::new(chr_rom, vertical_mirroring);
        for (idx, value) in ppu.vram.iter_mut().enumerate() {
            *value = ((idx * 29 + idx / 5 + 17) & 0xff) as u8;
        }

        for table in 0..4usize {
            for offset in 0..0x400usize {
                let addr = 0x2000 + (table * 0x400 + offset) as u16;
                assert_eq!(ppu.nametable_read(table, offset), ppu.ppu_read(addr));
            }
        }
    }
}

#[test]
fn default_cropped_gray_area_writer_matches_scratch_resize() {
    let mut ppu = make_test_ppu();
    assert_default_area_writer_matches_scratch(&ppu);

    ppu.mask = 0x10;
    assert_default_area_writer_matches_scratch(&ppu);

    ppu.mask = 0x00;
    assert_default_area_writer_matches_scratch(&ppu);
}
