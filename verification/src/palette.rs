use vstd::prelude::*;

use crate::bits::lemma_byte_bits;

verus! {

/// The NES master palette: the RGB triple shown for palette entry
/// `color & 0x3f` (the upper two bits of a palette byte are ignored).
pub open spec fn rgb_of(color: u8) -> (u8, u8, u8) {
    match color % 64 {
        0u8 => (112, 116, 112),
        1u8 => (32, 24, 136),
        2u8 => (0, 0, 168),
        3u8 => (64, 0, 152),
        4u8 => (136, 0, 112),
        5u8 => (168, 0, 16),
        6u8 => (160, 0, 0),
        7u8 => (120, 8, 0),
        8u8 => (64, 44, 0),
        9u8 => (0, 68, 0),
        10u8 => (0, 80, 0),
        11u8 => (0, 60, 16),
        12u8 => (24, 60, 88),
        13u8 => (0, 0, 0),
        14u8 => (0, 0, 0),
        15u8 => (0, 0, 0),
        16u8 => (184, 188, 184),
        17u8 => (0, 112, 232),
        18u8 => (32, 56, 232),
        19u8 => (128, 0, 240),
        20u8 => (184, 0, 184),
        21u8 => (224, 0, 88),
        22u8 => (216, 40, 0),
        23u8 => (200, 76, 8),
        24u8 => (136, 112, 0),
        25u8 => (0, 148, 0),
        26u8 => (0, 168, 0),
        27u8 => (0, 144, 56),
        28u8 => (0, 128, 136),
        29u8 => (0, 0, 0),
        30u8 => (0, 0, 0),
        31u8 => (0, 0, 0),
        32u8 => (248, 252, 248),
        33u8 => (56, 188, 248),
        34u8 => (88, 148, 248),
        35u8 => (64, 136, 248),
        36u8 => (240, 120, 248),
        37u8 => (248, 116, 176),
        38u8 => (248, 116, 96),
        39u8 => (248, 152, 56),
        40u8 => (240, 188, 56),
        41u8 => (128, 208, 16),
        42u8 => (72, 220, 72),
        43u8 => (88, 248, 152),
        44u8 => (0, 232, 216),
        45u8 => (120, 120, 120),
        46u8 => (0, 0, 0),
        47u8 => (0, 0, 0),
        48u8 => (248, 252, 248),
        49u8 => (168, 228, 248),
        50u8 => (192, 212, 248),
        51u8 => (208, 200, 248),
        52u8 => (248, 196, 248),
        53u8 => (248, 196, 216),
        54u8 => (248, 188, 176),
        55u8 => (248, 216, 168),
        56u8 => (248, 228, 160),
        57u8 => (224, 252, 160),
        58u8 => (168, 240, 184),
        59u8 => (176, 252, 200),
        60u8 => (152, 252, 240),
        61u8 => (192, 196, 192),
        62u8 => (0, 0, 0),
        _ => (0, 0, 0),
    }
}

/// The luma of a master-palette entry: `(77 r + 150 g + 29 b + 128) / 256`.
pub open spec fn gray_of(color: u8) -> u8 {
    let (r, g, b) = rgb_of(color);
    ((r as int * 77 + g as int * 150 + b as int * 29 + 128) / 256) as u8
}

/// RGB triple of the master-palette entry `color & 0x3f`.
pub fn nes_rgb(color: u8) -> (rgb: [u8; 3])
    ensures
        rgb[0] == rgb_of(color).0,
        rgb[1] == rgb_of(color).1,
        rgb[2] == rgb_of(color).2,
{
    proof {
        lemma_byte_bits(color);
    }
    match color & 0x3f {
        0u8 => [112, 116, 112],
        1u8 => [32, 24, 136],
        2u8 => [0, 0, 168],
        3u8 => [64, 0, 152],
        4u8 => [136, 0, 112],
        5u8 => [168, 0, 16],
        6u8 => [160, 0, 0],
        7u8 => [120, 8, 0],
        8u8 => [64, 44, 0],
        9u8 => [0, 68, 0],
        10u8 => [0, 80, 0],
        11u8 => [0, 60, 16],
        12u8 => [24, 60, 88],
        13u8 => [0, 0, 0],
        14u8 => [0, 0, 0],
        15u8 => [0, 0, 0],
        16u8 => [184, 188, 184],
        17u8 => [0, 112, 232],
        18u8 => [32, 56, 232],
        19u8 => [128, 0, 240],
        20u8 => [184, 0, 184],
        21u8 => [224, 0, 88],
        22u8 => [216, 40, 0],
        23u8 => [200, 76, 8],
        24u8 => [136, 112, 0],
        25u8 => [0, 148, 0],
        26u8 => [0, 168, 0],
        27u8 => [0, 144, 56],
        28u8 => [0, 128, 136],
        29u8 => [0, 0, 0],
        30u8 => [0, 0, 0],
        31u8 => [0, 0, 0],
        32u8 => [248, 252, 248],
        33u8 => [56, 188, 248],
        34u8 => [88, 148, 248],
        35u8 => [64, 136, 248],
        36u8 => [240, 120, 248],
        37u8 => [248, 116, 176],
        38u8 => [248, 116, 96],
        39u8 => [248, 152, 56],
        40u8 => [240, 188, 56],
        41u8 => [128, 208, 16],
        42u8 => [72, 220, 72],
        43u8 => [88, 248, 152],
        44u8 => [0, 232, 216],
        45u8 => [120, 120, 120],
        46u8 => [0, 0, 0],
        47u8 => [0, 0, 0],
        48u8 => [248, 252, 248],
        49u8 => [168, 228, 248],
        50u8 => [192, 212, 248],
        51u8 => [208, 200, 248],
        52u8 => [248, 196, 248],
        53u8 => [248, 196, 216],
        54u8 => [248, 188, 176],
        55u8 => [248, 216, 168],
        56u8 => [248, 228, 160],
        57u8 => [224, 252, 160],
        58u8 => [168, 240, 184],
        59u8 => [176, 252, 200],
        60u8 => [152, 252, 240],
        61u8 => [192, 196, 192],
        62u8 => [0, 0, 0],
        _ => [0, 0, 0],
    }
}

/// Grayscale value of master-palette entry `color` (which must be one of the
/// 64 entries of the table).
pub fn nes_gray(color: u8) -> (gray: u8)
    requires
        color < 64,
    ensures
        gray == gray_of(color),
{
    let rgb = nes_rgb(color);
    let sum: u32 = (rgb[0] as u32) * 77 + (rgb[1] as u32) * 150 + (rgb[2] as u32) * 29 + 128;
    assert(sum >> 8u32 == sum / 256) by (bit_vector);
    (sum >> 8u32) as u8
}

/// The 64-entry grayscale table of the master palette.
pub fn build_nes_gray_palette() -> (table: [u8; 64])
    ensures
        forall|c: int| 0 <= c < 64 ==> #[trigger] table[c] == gray_of(c as u8),
{
    let mut table = [0u8; 64];
    let mut color: usize = 0;
    while color < 64
        invariant
            color <= 64,
            forall|c: int| 0 <= c < color ==> #[trigger] table[c] == gray_of(c as u8),
        decreases 64 - color,
    {
        table[color] = nes_gray(color as u8);
        color += 1;
    }
    table
}


/// The gray of a master-palette color is its luminance: the red, green and
/// blue levels weighted 77, 150 and 29 (out of 256), rounded to nearest; a
/// color with three equal levels keeps that level; the upper two bits of
/// the palette byte are ignored.
pub proof fn lemma_gray_luminance(color: u8)
    ensures
        ({
            let (r, g, b) = rgb_of(color);
            &&& gray_of(color) as int == (77 * r as int + 150 * g as int + 29 * b as int + 128) / 256
            &&& r == g && g == b ==> gray_of(color) == r
            &&& gray_of(color) == gray_of(color % 64)
        }),
{
    let (r, g, b) = rgb_of(color);
    assert(0 <= (77 * r as int + 150 * g as int + 29 * b as int + 128) / 256 <= 255) by (nonlinear_arith)
        requires
            r <= 255,
            g <= 255,
            b <= 255,
    ;
    if r == g && g == b {
        assert((77 * r as int + 150 * r as int + 29 * r as int + 128) / 256 == r) by (nonlinear_arith);
    }
    assert((color % 64) % 64 == color % 64);
}

} // verus!
