use vstd::prelude::*;

use crate::area::{area_bin, area_mean, area_sum, bin_end, bin_start, lemma_block_mean_fits};
use crate::bits::{lemma_byte_bits, lemma_fine_x, lemma_usize_bits};
use crate::emulator::{NesEmulator, NES_HEIGHT};
use crate::palette::{gray_of, nes_gray, nes_rgb, rgb_of};
use crate::ppu::Ppu;

verus! {

/// The 2-bit pattern value at bit `bit` of a tile row whose two bit planes
/// are `lo` and `hi`.
pub open spec fn pattern_pixel(lo: u8, hi: u8, bit: usize) -> u8 {
    ((lo >> bit) & 1) | (((hi >> bit) & 1) << 1u8)
}

/// What the background shows at one screen position: which of the four
/// background palettes the tile uses and the 2-bit pattern value there.
pub struct BgSample {
    pub palette_id: u8,
    pub pixel: u8,
}

impl Ppu {
    /// The all-palette-entries-are-colors condition: each of the 32 palette
    /// bytes names one of the 64 master-palette colors.
    pub open spec fn palette_valid(&self) -> bool {
        forall|i: int| 0 <= i < 32 ==> #[trigger] self.palette[i] < 64
    }

    /// The position in the 512x480 background plane that screen pixel
    /// `(x, y)` shows: the 32-line status bar at the top does not scroll,
    /// the rest scrolls by the render scroll.
    pub open spec fn bg_world(&self, x: int, y: int) -> (int, int) {
        if y < 32 {
            (x, y)
        } else {
            (x + self.render_scroll_x() as int, y + self.scroll_y_px as int)
        }
    }

    /// Screen positions whose background-plane position the renderer can
    /// compute without overflow.
    pub open spec fn bg_in_range(&self, x: int, y: int) -> bool {
        &&& 0 <= x
        &&& 0 <= y
        &&& x + 0x1_0000 <= usize::MAX
        &&& y + 0x1_0000 <= usize::MAX
    }

    /// The CHR address of the background pattern base: 0x1000 when PPUCTRL
    /// bit 4 is set.
    pub open spec fn bg_pattern_base(&self) -> int {
        if self.ctrl & 0x10 != 0 {
            0x1000
        } else {
            0
        }
    }

    /// The background sample at plane position `(wx, wy)`: the nametable
    /// (of four, two by two) and tile the position falls in, the attribute
    /// byte's 2-bit palette for its 16x16 quadrant, and the pattern bits of
    /// the tile at the pixel.
    pub open spec fn bg_sample_world(&self, wx: int, wy: int) -> BgSample {
        let table = ((wy / 240) % 2) * 2 + (wx / 256) % 2;
        let lx = wx % 256;
        let ly = wy % 240;
        let tile_x = lx / 8;
        let tile_y = ly / 8;
        let nt_base = 0x2000 + table * 0x400;
        let tile_id = self.ppu_read_spec((nt_base + tile_y * 32 + tile_x) as u16);
        let attr = self.ppu_read_spec((nt_base + 0x3c0 + (tile_y / 4) * 8 + tile_x / 4) as u16);
        let shift = (tile_y / 2 % 2) * 4 + (tile_x / 2 % 2) * 2;
        let pattern_addr = self.bg_pattern_base() + tile_id as int * 16 + ly % 8;
        BgSample {
            palette_id: ((attr >> (shift as usize)) & 3) as u8,
            pixel: pattern_pixel(
                self.chr_at(pattern_addr),
                self.chr_at(pattern_addr + 8),
                (7 - lx % 8) as usize,
            ),
        }
    }

    /// The background sample at screen pixel `(x, y)`.
    pub open spec fn bg_sample(&self, x: int, y: int) -> BgSample {
        let (wx, wy) = self.bg_world(x, y);
        self.bg_sample_world(wx, wy)
    }

    /// The palette byte the background shows at `(x, y)`: the backdrop
    /// (entry 0) when the background is disabled (PPUMASK bit 3 clear) or
    /// the pattern value is 0, otherwise entry `4 * palette + value`.
    pub open spec fn bg_color(&self, x: int, y: int) -> u8 {
        let s = self.bg_sample(x, y);
        if self.mask & 0x08 == 0 || s.pixel == 0 {
            self.palette[0]
        } else {
            self.palette[s.palette_id as int * 4 + s.pixel as int]
        }
    }

    /// The background is enabled and not transparent at `(x, y)`.
    pub open spec fn bg_opaque(&self, x: int, y: int) -> bool {
        self.mask & 0x08 != 0 && self.bg_sample(x, y).pixel != 0
    }
}

/// The background tile coordinates of a plane position stay the same across
/// the pixels of one tile row.
pub proof fn lemma_same_tile(wx: int, col: int)
    requires
        0 <= wx,
        0 <= col,
        wx % 8 + col < 8,
    ensures
        (wx + col) / 256 == wx / 256,
        (wx + col) % 256 == wx % 256 + col,
        ((wx + col) % 256) / 8 == (wx % 256) / 8,
        ((wx + col) % 256) % 8 == (wx % 256) % 8 + col,
{
    let a = wx / 256;
    let b = wx % 256;
    let q = b / 8;
    let r = b % 8;
    assert(wx == 256 * a + b);
    assert(b == 8 * q + r);
    assert(wx == 8 * (32 * a + q) + r);
    assert(wx % 8 == r) by {
        vstd::arithmetic::div_mod::lemma_fundamental_div_mod_converse(wx, 8, 32 * a + q, r);
    }
    assert(b + col < 256);
    vstd::arithmetic::div_mod::lemma_fundamental_div_mod_converse(wx + col, 256, a, b + col);
    vstd::arithmetic::div_mod::lemma_fundamental_div_mod_converse(b + col, 8, q, r + col);
    vstd::arithmetic::div_mod::lemma_fundamental_div_mod_converse(b, 8, q, r);
}

impl Ppu {
    /// The background-plane position of screen pixel `(x, y)`.
    pub fn bg_world_pos(&self, x: usize, y: usize) -> (pos: (usize, usize))
        requires
            self.bg_in_range(x as int, y as int),
        ensures
            pos.0 as int == self.bg_world(x as int, y as int).0,
            pos.1 as int == self.bg_world(x as int, y as int).1,
    {
        if y < 32 {
            (x, y)
        } else {
            (x + self.render_scroll_x_px() as usize, y + self.scroll_y_px as usize)
        }
    }

    /// Fetches the background tile row under plane position
    /// `(world_x, world_y)`: the attribute palette of the tile and its two
    /// pattern bytes for that row. Each plane position from there to the
    /// tile's right edge is one bit of them.
    #[verifier::spinoff_prover]
    #[verifier::rlimit(40)]
    fn bg_tile_row(&self, world_x: usize, world_y: usize) -> (r: (u8, u8, u8))
        requires
            self.wf(),
        ensures
            r.0 < 4,
            forall|x: int|
                world_x <= x < world_x + 8 - (world_x % 256) % 8 ==> {
                    let s = #[trigger] self.bg_sample_world(x, world_y as int);
                    &&& s.palette_id == r.0
                    &&& s.pixel == pattern_pixel(
                        r.1,
                        r.2,
                        (7 - ((world_x % 256) % 8 + (x - world_x))) as usize,
                    )
                },
    {
        assert((world_x / 256) & 1 == (world_x / 256) % 2 && (world_y / 240) & 1 == (world_y / 240) % 2
            && world_x & 0xff == world_x % 256) by {
            lemma_usize_bits(world_x / 256);
            lemma_usize_bits(world_y / 240);
            lemma_usize_bits(world_x);
        }
        let table_x = (world_x / 256) & 1;
        let table_y = (world_y / 240) & 1;
        let table = table_y * 2 + table_x;
        let local_x = world_x & 0xff;
        let local_y = world_y % 240;
        let tile_x = local_x / 8;
        let tile_y = local_y / 8;
        let fine_y = local_y & 7;
        let nt_base = 0x2000 + (table as u16) * 0x400;
        assert(local_y & 7 == local_y % 8) by {
            lemma_usize_bits(local_y);
        }
        let tile_id = self.ppu_read(nt_base + (tile_y * 32 + tile_x) as u16) as usize;
        let attr = self.ppu_read(nt_base + 0x3c0 + ((tile_y / 4) * 8 + (tile_x / 4)) as u16);
        assert(((tile_y & 0x02) << 1usize) | (tile_x & 0x02) == (tile_y / 2 % 2) * 4 + (tile_x / 2 % 2)
            * 2) by (bit_vector);
        let shift = ((tile_y & 0x02) << 1) | (tile_x & 0x02);
        let palette_id = (attr >> shift) & 0x03;
        let pattern_base = if self.ctrl & 0x10 != 0 {
            0x1000
        } else {
            0x0000
        };
        let pattern_addr = pattern_base + tile_id * 16 + fine_y;
        let lo = self.chr_read(pattern_addr);
        let hi = self.chr_read(pattern_addr + 8);
        assert(palette_id < 4) by {
            lemma_byte_bits(attr >> shift);
        }
        proof {
            assert forall|x: int|
                world_x <= x < world_x + 8 - (world_x % 256) % 8 implies {
                    let s = #[trigger] self.bg_sample_world(x, world_y as int);
                    &&& s.palette_id == palette_id
                    &&& s.pixel == pattern_pixel(
                        lo,
                        hi,
                        (7 - ((world_x % 256) % 8 + (x - world_x))) as usize,
                    )
                } by {
                assert((world_x % 256) % 8 == world_x % 8) by {
                    vstd::arithmetic::div_mod::lemma_mod_mod(world_x as int, 32, 8);
                }
                lemma_same_tile(world_x as int, x - world_x);
            }
        }
        (palette_id, lo, hi)
    }

    /// The background sample at plane position `(world_x, world_y)`.
    fn bg_fetch(&self, world_x: usize, world_y: usize) -> (s: (u8, u8))
        requires
            self.wf(),
        ensures
            s.0 == self.bg_sample_world(world_x as int, world_y as int).palette_id,
            s.1 == self.bg_sample_world(world_x as int, world_y as int).pixel,
            s.0 < 4,
            s.1 < 4,
    {
        let (palette_id, lo, hi) = self.bg_tile_row(world_x, world_y);
        proof {
            lemma_fine_x(world_x);
        }
        let fine_x = world_x & 7;
        let bit = 7 - fine_x;
        let pixel = ((lo >> bit) & 1) | (((hi >> bit) & 1) << 1);
        assert(pixel == pattern_pixel(lo, hi, bit));
        assert(self.bg_sample_world(world_x as int, world_y as int).palette_id == palette_id);
        proof {
            lemma_pattern_pixel_small(lo, hi, bit);
        }
        (palette_id, pixel)
    }
}

/// A pattern value has two bits.
pub proof fn lemma_pattern_pixel_small(lo: u8, hi: u8, bit: usize)
    ensures
        pattern_pixel(lo, hi, bit) < 4,
{
    assert(((lo >> bit) & 1) | (((hi >> bit) & 1) << 1u8) < 4) by (bit_vector);
}

/// Bit `b` of `m` is set.
pub open spec fn bit_set(m: u64, b: int) -> bool {
    (m >> (b as u64)) & 1 == 1
}

/// Setting bit `s` of `m` sets that bit and keeps the others.
pub proof fn lemma_set_bit(m: u64, s: u64, b: u64)
    requires
        s < 64,
        b < 64,
    ensures
        bit_set(m | (1u64 << s), b as int) == (b == s || bit_set(m, b as int)),
{
    assert(((m | (1u64 << s)) >> b) & 1 == 1 <==> (b == s || (m >> b) & 1 == 1)) by (bit_vector)
        requires
            s < 64,
            b < 64,
    ;
}

/// Testing bit `s` with a mask.
pub proof fn lemma_test_bit(m: u64, s: u64)
    requires
        s < 64,
    ensures
        (m & (1u64 << s) == 0) == !bit_set(m, s as int),
{
    assert((m & (1u64 << s) == 0) == !((m >> s) & 1 == 1)) by (bit_vector)
        requires
            s < 64,
    ;
}

/// The all-zero word has no bit set.
pub proof fn lemma_zero_bits(b: u64)
    requires
        b < 64,
    ensures
        !bit_set(0, b as int),
{
    assert(!((0u64 >> b) & 1 == 1)) by (bit_vector);
}

impl Ppu {
    /// The first scanline sprite `s` covers: its OAM Y byte plus one.
    pub open spec fn sprite_top(&self, s: int) -> int {
        self.oam[4 * s] as int + 1
    }

    /// Sprite `s` (8 lines tall) covers visible scanline `y`.
    pub open spec fn sprite_covers_row(&self, s: int, y: int) -> bool {
        &&& 0 <= y < NES_HEIGHT
        &&& self.sprite_top(s) <= y < self.sprite_top(s) + 8
    }

    /// How many of the sprites before `s` cover scanline `y`.
    pub open spec fn sprites_on_row_before(&self, y: int, s: int) -> int
        decreases s,
    {
        if s <= 0 {
            0
        } else {
            self.sprites_on_row_before(y, s - 1) + if self.sprite_covers_row(s - 1, y) {
                1int
            } else {
                0int
            }
        }
    }

    /// Sprite `s` is drawn on scanline `y`: it covers the line and fewer
    /// than eight earlier sprites (in OAM order) do.
    pub open spec fn sprite_on_scanline(&self, s: int, y: int) -> bool {
        self.sprite_covers_row(s, y) && self.sprites_on_row_before(y, s) < 8
    }

    /// Scanline `y` of the mask after the sprites before `s` were counted,
    /// with the first `row` rows of sprite `s` also counted: the count
    /// (saturating at 8) and the bit set of the sprites drawn so far.
    pub open spec fn mask_progress_at(&self, counts: Seq<u8>, mask: Seq<u64>, s: int, row: int, y: int) -> bool {
        let k = if self.sprite_top(s) <= y < self.sprite_top(s) + row {
            s + 1
        } else {
            s
        };
        &&& counts[y] as int == if self.sprites_on_row_before(y, k) < 8 {
            self.sprites_on_row_before(y, k)
        } else {
            8
        }
        &&& forall|b: int| 0 <= b < 64 ==> (#[trigger] bit_set(mask[y], b) == (b < k && self.sprite_on_scanline(b, y)))
    }

    pub open spec fn mask_progress(&self, counts: Seq<u8>, mask: Seq<u64>, s: int, row: int) -> bool {
        forall|y: int| 0 <= y < NES_HEIGHT ==> #[trigger] self.mask_progress_at(counts, mask, s, row, y)
    }

    /// For each visible scanline, the sprites drawn on it as a bit set: the
    /// first eight sprites (in OAM order) that cover the line.
    pub fn sprite_scanline_mask(&self) -> (mask: [u64; 240])
        ensures
            forall|y: int, b: int|
                0 <= y < NES_HEIGHT && 0 <= b < 64 ==> (#[trigger] bit_set(mask[y], b) == self.sprite_on_scanline(b, y)),
    {
        let mut mask = [0u64; 240];
        let mut counts = [0u8; 240];
        proof {
            assert forall|b: u64| b < 64 implies !bit_set(0, b as int) by {
                lemma_zero_bits(b);
            }
            assert forall|y: int| 0 <= y < NES_HEIGHT implies #[trigger] self.mask_progress_at(
                counts@,
                mask@,
                0,
                0,
                y,
            ) by {
                assert forall|b: int| 0 <= b < 64 implies !#[trigger] bit_set(mask@[y], b) by {
                    lemma_zero_bits(b as u64);
                }
            }
        }
        for sprite in 0..64usize
            invariant
                self.mask_progress(counts@, mask@, sprite as int, 0),
        {
            let base = sprite * 4;
            let sprite_y = self.oam[base] as i16 + 1;
            for row in 0..8usize
                invariant
                    base == sprite * 4,
                    sprite < 64,
                    sprite_y == self.sprite_top(sprite as int),
                    self.mask_progress(counts@, mask@, sprite as int, row as int),
            {
                let ghost counts0 = counts@;
                let ghost mask0 = mask@;
                let screen_y = sprite_y + row as i16;
                if (0..NES_HEIGHT as i16).contains(&screen_y) {
                    let screen_y = screen_y as usize;
                    if counts[screen_y] < 8 {
                        counts[screen_y] += 1;
                        let old_word = mask[screen_y];
                        mask[screen_y] |= 1u64 << sprite;
                        proof {
                            assert forall|b: int| 0 <= b < 64 implies #[trigger] bit_set(
                                mask[screen_y as int],
                                b,
                            ) == (b == sprite || bit_set(old_word, b)) by {
                                lemma_set_bit(old_word, sprite as u64, b as u64);
                            }
                        }
                    }
                }
                proof {
                    assert forall|y: int| 0 <= y < NES_HEIGHT implies #[trigger] self.mask_progress_at(
                        counts@,
                        mask@,
                        sprite as int,
                        row as int + 1,
                        y,
                    ) by {
                        assert(self.mask_progress_at(counts0, mask0, sprite as int, row as int, y));
                        if y != sprite_y as int + row as int {
                            assert(counts@[y] == counts0[y]);
                            assert(mask@[y] == mask0[y]);
                        } else {
                            assert(self.sprite_covers_row(sprite as int, y));
                        }
                    }
                }
            }
            proof {
                assert forall|y: int| 0 <= y < NES_HEIGHT implies #[trigger] self.mask_progress_at(
                    counts@,
                    mask@,
                    sprite as int + 1,
                    0,
                    y,
                ) by {
                    assert(self.mask_progress_at(counts@, mask@, sprite as int, 8, y));
                }
            }
        }
        proof {
            assert forall|y: int, b: int| 0 <= y < NES_HEIGHT && 0 <= b < 64 implies #[trigger] bit_set(
                mask[y],
                b,
            ) == self.sprite_on_scanline(b, y) by {
                assert(self.mask_progress_at(counts@, mask@, 64, 0, y));
            }
        }
        mask
    }

    /// The palette byte the background shows at screen pixel `(x, y)`.
    pub fn bg_color_index(&self, x: usize, y: usize) -> (color: u8)
        requires
            self.wf(),
            self.bg_in_range(x as int, y as int),
        ensures
            color == self.bg_color(x as int, y as int),
            self.palette_valid() ==> color < 64,
    {
        if self.mask & 0x08 == 0 {
            return self.palette[0];
        }
        let (world_x, world_y) = self.bg_world_pos(x, y);
        let (palette_id, pixel) = self.bg_fetch(world_x, world_y);
        if pixel == 0 {
            self.palette[0]
        } else {
            self.palette[(palette_id as usize) * 4 + pixel as usize]
        }
    }

    /// Whether the background is enabled and opaque at screen pixel `(x, y)`.
    pub fn bg_pixel_opaque(&self, x: usize, y: usize) -> (opaque: bool)
        requires
            self.wf(),
            self.bg_in_range(x as int, y as int),
        ensures
            opaque == self.bg_opaque(x as int, y as int),
    {
        if self.mask & 0x08 == 0 {
            return false;
        }
        let (world_x, world_y) = self.bg_world_pos(x, y);
        let (_palette_id, pixel) = self.bg_fetch(world_x, world_y);
        pixel != 0
    }

    /// The background palette byte and opacity at screen pixel `(x, y)`.
    pub fn debug_bg_pixel(&self, x: usize, y: usize) -> (r: (u8, bool))
        requires
            self.wf(),
            self.bg_in_range(x as int, y as int),
        ensures
            r.0 == self.bg_color(x as int, y as int),
            r.1 == self.bg_opaque(x as int, y as int),
    {
        (self.bg_color_index(x, y), self.bg_pixel_opaque(x, y))
    }

    /// The gray value of each of the 32 palette entries.
    pub fn palette_gray(&self) -> (gray: [u8; 32])
        requires
            self.palette_valid(),
        ensures
            forall|i: int| 0 <= i < 32 ==> #[trigger] gray[i] == gray_of(self.palette[i]),
    {
        let mut out = [0u8; 32];
        for i in 0..32usize
            invariant
                self.palette_valid(),
                forall|j: int| 0 <= j < i ==> #[trigger] out[j] == gray_of(self.palette[j]),
        {
            out[i] = nes_gray(self.palette[i]);
        }
        out
    }
}


/// One output byte of a color: its red, green or blue component for
/// channels 0, 1, 2, its gray value for channel 3.
pub open spec fn shade(color: u8, channel: int) -> u8 {
    if channel == 0 {
        rgb_of(color).0
    } else if channel == 1 {
        rgb_of(color).1
    } else if channel == 2 {
        rgb_of(color).2
    } else {
        gray_of(color)
    }
}

/// The index of output pixel `(ox, oy)` of plane `p` in a planar buffer of
/// `w * h` pixels per plane.
pub open spec fn pix(w: int, h: int, p: int, ox: int, oy: int) -> int {
    p * (w * h) + oy * w + ox
}

/// The channel plane `p` of a gray (one plane) or RGB (three planes)
/// buffer holds.
pub open spec fn plane_channel(gray: bool, p: int) -> int {
    if gray {
        3
    } else {
        p
    }
}

/// The number of planes of a gray or RGB buffer.
pub open spec fn plane_count(gray: bool) -> int {
    if gray {
        1
    } else {
        3
    }
}

/// Distinct pixel coordinates have distinct buffer indices.
pub proof fn lemma_pix_injective(w: int, h: int, p: int, ox: int, oy: int, p2: int, ox2: int, oy2: int)
    requires
        0 <= ox < w,
        0 <= ox2 < w,
        0 <= oy < h,
        0 <= oy2 < h,
        0 <= p,
        0 <= p2,
        pix(w, h, p, ox, oy) == pix(w, h, p2, ox2, oy2),
    ensures
        p == p2 && ox == ox2 && oy == oy2,
{
    assert(p == p2 && oy == oy2 && ox == ox2) by (nonlinear_arith)
        requires
            0 <= ox < w,
            0 <= ox2 < w,
            0 <= oy < h,
            0 <= oy2 < h,
            0 <= p,
            0 <= p2,
            p * (w * h) + oy * w + ox == p2 * (w * h) + oy2 * w + ox2,
    ;
}

/// Pixel indices of a buffer lie inside it.
pub proof fn lemma_pix_bounds(w: int, h: int, p: int, ox: int, oy: int, planes: int)
    requires
        0 <= ox < w,
        0 <= oy < h,
        0 <= p < planes,
    ensures
        0 <= pix(w, h, p, ox, oy) < planes * (w * h),
        pix(w, h, p, ox, oy) == p * (w * h) + (oy * w + ox),
        oy * w + ox < w * h,
{
    assert(0 <= pix(w, h, p, ox, oy) < planes * (w * h) && oy * w + ox < w * h) by (nonlinear_arith)
        requires
            0 <= ox < w,
            0 <= oy < h,
            0 <= p < planes,
    ;
}

impl Ppu {
    /// The CHR address of the sprite pattern base: 0x1000 when PPUCTRL bit 3
    /// is set.
    pub open spec fn sprite_pattern_base(&self) -> int {
        if self.ctrl & 0x08 != 0 {
            0x1000
        } else {
            0
        }
    }

    /// The 2-bit pattern value sprite `s` shows at screen pixel `(sx, sy)`,
    /// 0 outside its 8x8 box; bit 7 of its attributes flips it vertically,
    /// bit 6 horizontally.
    pub open spec fn sprite_pixel(&self, s: int, sx: int, sy: int) -> u8 {
        let row = sy - self.sprite_top(s);
        let col = sx - self.oam[4 * s + 3] as int;
        if 0 <= row < 8 && 0 <= col < 8 {
            let attr = self.oam[4 * s + 2];
            let tile_row = if attr & 0x80 != 0 {
                7 - row
            } else {
                row
            };
            let tile_col = if attr & 0x40 != 0 {
                col
            } else {
                7 - col
            };
            let addr = self.sprite_pattern_base() + self.oam[4 * s + 1] as int * 16 + tile_row;
            pattern_pixel(self.chr_at(addr), self.chr_at(addr + 8), tile_col as usize)
        } else {
            0
        }
    }

    /// Sprite `s` puts a non-transparent pixel at `(sx, sy)` on a scanline
    /// it is drawn on.
    pub open spec fn sprite_paints(&self, s: int, sx: int, sy: int) -> bool {
        self.sprite_on_scanline(s, sy) && self.sprite_pixel(s, sx, sy) != 0
    }

    /// The lowest-numbered sprite from `s` on that paints `(sx, sy)`: the one
    /// in front.
    pub open spec fn front_sprite_from(&self, s: int, sx: int, sy: int) -> Option<int>
        decreases 64 - s,
    {
        if s >= 64 || s < 0 {
            None
        } else if self.sprite_paints(s, sx, sy) {
            Some(s)
        } else {
            self.front_sprite_from(s + 1, sx, sy)
        }
    }

    /// The palette byte sprite `s` shows at `(sx, sy)`: the background's
    /// when the sprite is behind the background (attribute bit 5) and the
    /// background is opaque there, otherwise entry `0x10 + 4 * palette +
    /// value` of the sprite palettes.
    pub open spec fn sprite_color(&self, s: int, sx: int, sy: int) -> u8 {
        let attr = self.oam[4 * s + 2];
        if attr & 0x20 != 0 && self.bg_opaque(sx, sy) {
            self.bg_color(sx, sy)
        } else {
            self.palette[0x10 + (attr & 0x03) as int * 4 + self.sprite_pixel(s, sx, sy) as int]
        }
    }

    /// The byte left at a pixel of channel `ch` that held `below` once the
    /// sprites from `k` on were drawn over it (sprites enabled).
    pub open spec fn overlaid(&self, k: int, below: u8, sx: int, sy: int, ch: int) -> u8 {
        match self.front_sprite_from(k, sx, sy) {
            Some(s) => shade(self.sprite_color(s, sx, sy), ch),
            None => below,
        }
    }

    /// The palette byte the finished frame shows at `(x, y)`: the front
    /// sprite's when sprites are enabled (PPUMASK bit 4) and one paints
    /// there, the background's otherwise.
    pub open spec fn frame_color(&self, x: int, y: int) -> u8 {
        if self.mask & 0x10 != 0 {
            match self.front_sprite_from(0, x, y) {
                Some(s) => self.sprite_color(s, x, y),
                None => self.bg_color(x, y),
            }
        } else {
            self.bg_color(x, y)
        }
    }

    /// `dst` holds the window `(left, top, w, h)` of `before` with the
    /// sprites from `k` on drawn over it, in gray or RGB planes.
    pub open spec fn sprites_drawn(
        &self,
        dst: Seq<u8>,
        before: Seq<u8>,
        k: int,
        top: int,
        left: int,
        w: int,
        h: int,
        gray: bool,
    ) -> bool {
        forall|p: int, ox: int, oy: int|
            0 <= p < plane_count(gray) && 0 <= ox < w && 0 <= oy < h ==> #[trigger] dst[pix(w, h, p, ox, oy)]
                == self.overlaid(k, before[pix(w, h, p, ox, oy)], left + ox, top + oy, plane_channel(gray, p))
    }

    /// Like `sprites_drawn` for sprite `s` part way: pixels of its rows
    /// before `row`, and of row `row` left of column `col`, already have
    /// sprite `s` drawn.
    pub open spec fn sprite_rows_drawn(
        &self,
        dst: Seq<u8>,
        before: Seq<u8>,
        s: int,
        row: int,
        col: int,
        top: int,
        left: int,
        w: int,
        h: int,
        gray: bool,
    ) -> bool {
        forall|p: int, ox: int, oy: int|
            0 <= p < plane_count(gray) && 0 <= ox < w && 0 <= oy < h ==> {
                let r = top + oy - self.sprite_top(s);
                let c = left + ox - self.oam[4 * s + 3] as int;
                let k = if r < row || (r == row && c < col) {
                    s
                } else {
                    s + 1
                };
                #[trigger] dst[pix(w, h, p, ox, oy)] == self.overlaid(
                    k,
                    before[pix(w, h, p, ox, oy)],
                    left + ox,
                    top + oy,
                    plane_channel(gray, p),
                )
            }
    }

    /// A sprite that does not paint a pixel leaves what the sprites behind
    /// it left there.
    pub proof fn lemma_overlaid_skip(&self, s: int, below: u8, sx: int, sy: int, ch: int)
        requires
            0 <= s < 64,
            !self.sprite_paints(s, sx, sy),
        ensures
            self.overlaid(s, below, sx, sy, ch) == self.overlaid(s + 1, below, sx, sy, ch),
    {
    }

    /// Before sprite `s` is drawn, none of its rows are: the pixels above it
    /// already show what the sprites from `s` on leave there.
    pub proof fn lemma_sprite_start(
        &self,
        dst: Seq<u8>,
        before: Seq<u8>,
        s: int,
        t: int,
        l: int,
        w: int,
        h: int,
        gray: bool,
    )
        requires
            0 <= s < 64,
            self.sprites_drawn(dst, before, s + 1, t, l, w, h, gray),
        ensures
            self.sprite_rows_drawn(dst, before, s, 0, 0, t, l, w, h, gray),
    {
        assert forall|p: int, ox: int, oy: int|
            0 <= p < plane_count(gray) && 0 <= ox < w && 0 <= oy < h implies {
                let r = t + oy - self.sprite_top(s);
                let c = l + ox - self.oam[4 * s + 3] as int;
                let k = if r < 0 || (r == 0 && c < 0) {
                    s
                } else {
                    s + 1
                };
                #[trigger] dst[pix(w, h, p, ox, oy)] == self.overlaid(
                    k,
                    before[pix(w, h, p, ox, oy)],
                    l + ox,
                    t + oy,
                    plane_channel(gray, p),
                )
            } by {
            let r = t + oy - self.sprite_top(s);
            let c = l + ox - self.oam[4 * s + 3] as int;
            if r < 0 || (r == 0 && c < 0) {
                self.lemma_overlaid_skip(s, before[pix(w, h, p, ox, oy)], l + ox, t + oy, plane_channel(gray, p));
            }
        }
    }

    /// Once all eight rows of sprite `s` are drawn, the window shows the
    /// sprites from `s` on.
    pub proof fn lemma_sprite_end(
        &self,
        dst: Seq<u8>,
        before: Seq<u8>,
        s: int,
        t: int,
        l: int,
        w: int,
        h: int,
        gray: bool,
    )
        requires
            0 <= s < 64,
            self.sprite_rows_drawn(dst, before, s, 8, 0, t, l, w, h, gray),
        ensures
            self.sprites_drawn(dst, before, s, t, l, w, h, gray),
    {
        assert forall|p: int, ox: int, oy: int|
            0 <= p < plane_count(gray) && 0 <= ox < w && 0 <= oy < h implies #[trigger] dst[pix(
                w,
                h,
                p,
                ox,
                oy,
            )] == self.overlaid(s, before[pix(w, h, p, ox, oy)], l + ox, t + oy, plane_channel(gray, p)) by {
            if t + oy - self.sprite_top(s) >= 8 {
                self.lemma_overlaid_skip(s, before[pix(w, h, p, ox, oy)], l + ox, t + oy, plane_channel(gray, p));
            }
        }
    }

    /// A row of sprite `s` that is outside the window, or on a scanline the
    /// sprite is not drawn on, changes nothing; and after its eighth column a
    /// row is done.
    pub proof fn lemma_row_done(
        &self,
        dst: Seq<u8>,
        before: Seq<u8>,
        s: int,
        row: int,
        col: int,
        t: int,
        l: int,
        w: int,
        h: int,
        gray: bool,
    )
        requires
            0 <= s < 64,
            0 <= row < 8,
            self.sprite_rows_drawn(dst, before, s, row, col, t, l, w, h, gray),
            col == 8 || (col == 0 && (self.sprite_top(s) + row < t || self.sprite_top(s) + row >= t + h
                || !self.sprite_on_scanline(s, self.sprite_top(s) + row))),
        ensures
            self.sprite_rows_drawn(dst, before, s, row + 1, 0, t, l, w, h, gray),
    {
        assert forall|p: int, ox: int, oy: int|
            0 <= p < plane_count(gray) && 0 <= ox < w && 0 <= oy < h implies {
                let r = t + oy - self.sprite_top(s);
                let c = l + ox - self.oam[4 * s + 3] as int;
                let k = if r < row + 1 || (r == row + 1 && c < 0) {
                    s
                } else {
                    s + 1
                };
                #[trigger] dst[pix(w, h, p, ox, oy)] == self.overlaid(
                    k,
                    before[pix(w, h, p, ox, oy)],
                    l + ox,
                    t + oy,
                    plane_channel(gray, p),
                )
            } by {
            let r = t + oy - self.sprite_top(s);
            let c = l + ox - self.oam[4 * s + 3] as int;
            if (r == row && c >= col) || (r == row + 1 && c < 0) {
                self.lemma_overlaid_skip(s, before[pix(w, h, p, ox, oy)], l + ox, t + oy, plane_channel(gray, p));
            }
        }
    }

    /// A column of a row of sprite `s` whose pixel is outside the window or
    /// transparent changes nothing.
    pub proof fn lemma_pixel_skipped(
        &self,
        dst: Seq<u8>,
        before: Seq<u8>,
        s: int,
        row: int,
        col: int,
        t: int,
        l: int,
        w: int,
        h: int,
        gray: bool,
    )
        requires
            0 <= s < 64,
            0 <= row < 8,
            0 <= col < 8,
            self.sprite_rows_drawn(dst, before, s, row, col, t, l, w, h, gray),
            ({
                let sx = self.oam[4 * s + 3] as int + col;
                let sy = self.sprite_top(s) + row;
                sx < l || sx >= l + w || sy < t || sy >= t + h || !self.sprite_paints(s, sx, sy)
            }),
        ensures
            self.sprite_rows_drawn(dst, before, s, row, col + 1, t, l, w, h, gray),
    {
        assert forall|p: int, ox: int, oy: int|
            0 <= p < plane_count(gray) && 0 <= ox < w && 0 <= oy < h implies {
                let r = t + oy - self.sprite_top(s);
                let c = l + ox - self.oam[4 * s + 3] as int;
                let k = if r < row || (r == row && c < col + 1) {
                    s
                } else {
                    s + 1
                };
                #[trigger] dst[pix(w, h, p, ox, oy)] == self.overlaid(
                    k,
                    before[pix(w, h, p, ox, oy)],
                    l + ox,
                    t + oy,
                    plane_channel(gray, p),
                )
            } by {
            let r = t + oy - self.sprite_top(s);
            let c = l + ox - self.oam[4 * s + 3] as int;
            if r == row && c == col {
                self.lemma_overlaid_skip(s, before[pix(w, h, p, ox, oy)], l + ox, t + oy, plane_channel(gray, p));
            }
        }
    }

    /// Writing the shades of `color` at output pixel `(ox0, oy0)`, where
    /// sprite `s` paints with that color, draws that column.
    pub proof fn lemma_pixel_written(
        &self,
        dst: Seq<u8>,
        dst0: Seq<u8>,
        before: Seq<u8>,
        s: int,
        row: int,
        col: int,
        ox0: int,
        oy0: int,
        color: u8,
        t: int,
        l: int,
        w: int,
        h: int,
        gray: bool,
    )
        requires
            0 <= s < 64,
            0 <= ox0 < w,
            0 <= oy0 < h,
            l + ox0 == self.oam[4 * s + 3] as int + col,
            t + oy0 == self.sprite_top(s) + row,
            self.sprite_paints(s, l + ox0, t + oy0),
            color == self.sprite_color(s, l + ox0, t + oy0),
            self.sprite_rows_drawn(dst0, before, s, row, col, t, l, w, h, gray),
            dst.len() == dst0.len(),
            forall|p: int, ox: int, oy: int|
                0 <= p < plane_count(gray) && 0 <= ox < w && 0 <= oy < h ==> #[trigger] dst[pix(w, h, p, ox, oy)]
                    == if ox == ox0 && oy == oy0 {
                    shade(color, plane_channel(gray, p))
                } else {
                    dst0[pix(w, h, p, ox, oy)]
                },
        ensures
            self.sprite_rows_drawn(dst, before, s, row, col + 1, t, l, w, h, gray),
    {
        assert forall|p: int, ox: int, oy: int|
            0 <= p < plane_count(gray) && 0 <= ox < w && 0 <= oy < h implies {
                let r = t + oy - self.sprite_top(s);
                let c = l + ox - self.oam[4 * s + 3] as int;
                let k = if r < row || (r == row && c < col + 1) {
                    s
                } else {
                    s + 1
                };
                #[trigger] dst[pix(w, h, p, ox, oy)] == self.overlaid(
                    k,
                    before[pix(w, h, p, ox, oy)],
                    l + ox,
                    t + oy,
                    plane_channel(gray, p),
                )
            } by {
            assert(dst0[pix(w, h, p, ox, oy)] == dst0[pix(w, h, p, ox, oy)]);
        }
    }

    /// The buffer after the writes of one pixel: the shades of `color` at
    /// `(ox0, oy0)` in every plane, everything else as it was.
    pub proof fn lemma_pixel_updates(
        dst: Seq<u8>,
        dst0: Seq<u8>,
        ox0: int,
        oy0: int,
        color: u8,
        w: int,
        h: int,
        gray: bool,
    )
        requires
            0 <= ox0 < w,
            0 <= oy0 < h,
            dst0.len() == plane_count(gray) * (w * h),
            gray ==> dst == dst0.update(pix(w, h, 0, ox0, oy0), gray_of(color)),
            !gray ==> dst == dst0.update(pix(w, h, 0, ox0, oy0), rgb_of(color).0).update(
                pix(w, h, 1, ox0, oy0),
                rgb_of(color).1,
            ).update(pix(w, h, 2, ox0, oy0), rgb_of(color).2),
        ensures
            dst.len() == dst0.len(),
            forall|p: int, ox: int, oy: int|
                0 <= p < plane_count(gray) && 0 <= ox < w && 0 <= oy < h ==> #[trigger] dst[pix(w, h, p, ox, oy)]
                    == if ox == ox0 && oy == oy0 {
                    shade(color, plane_channel(gray, p))
                } else {
                    dst0[pix(w, h, p, ox, oy)]
                },
    {
        let planes = plane_count(gray);
        lemma_pix_bounds(w, h, 0, ox0, oy0, planes);
        lemma_pix_bounds(w, h, planes - 1, ox0, oy0, planes);
        if !gray {
            lemma_pix_bounds(w, h, 1, ox0, oy0, planes);
        }
        assert forall|p: int, ox: int, oy: int|
            0 <= p < planes && 0 <= ox < w && 0 <= oy < h implies #[trigger] dst[pix(w, h, p, ox, oy)]
                == if ox == ox0 && oy == oy0 {
                shade(color, plane_channel(gray, p))
            } else {
                dst0[pix(w, h, p, ox, oy)]
            } by {
            lemma_pix_bounds(w, h, p, ox, oy, planes);
            let j = pix(w, h, p, ox, oy);
            if j == pix(w, h, 0, ox0, oy0) {
                lemma_pix_injective(w, h, p, ox, oy, 0, ox0, oy0);
            }
            if !gray {
                if j == pix(w, h, 1, ox0, oy0) {
                    lemma_pix_injective(w, h, p, ox, oy, 1, ox0, oy0);
                }
                if j == pix(w, h, 2, ox0, oy0) {
                    lemma_pix_injective(w, h, p, ox, oy, 2, ox0, oy0);
                }
            }
        }
    }

    /// Draws the sprites over the window `(crop_left, crop_top, width,
    /// height)` of a gray or RGB buffer holding the background, from the
    /// last OAM entry to the first so that lower-numbered sprites end up in
    /// front.
    fn draw_sprites_window(
        &self,
        dst: &mut [u8],
        crop_top: usize,
        crop_left: usize,
        width: usize,
        height: usize,
        gray: bool,
    )
        requires
            self.wf(),
            gray ==> self.palette_valid(),
            crop_top + height <= NES_HEIGHT,
            crop_left + width <= 0x7fff,
            old(dst)@.len() == plane_count(gray) * (width * height),
        ensures
            final(dst)@.len() == old(dst)@.len(),
            self.mask & 0x10 == 0 ==> final(dst)@ == old(dst)@,
            self.mask & 0x10 != 0 ==> self.sprites_drawn(
                final(dst)@,
                old(dst)@,
                0,
                crop_top as int,
                crop_left as int,
                width as int,
                height as int,
                gray,
            ),
    {
        if self.mask & 0x10 == 0 {
            return;
        }
        let ghost before = dst@;
        let ghost t = crop_top as int;
        let ghost l = crop_left as int;
        let ghost w = width as int;
        let ghost h = height as int;
        let crop_top_i = crop_top as i16;
        let crop_bottom = crop_top_i + height as i16;
        let crop_left_i = crop_left as i16;
        let crop_right = crop_left_i + width as i16;
        let len = dst.len();
        assert(width * height <= len) by (nonlinear_arith)
            requires
                len == plane_count(gray) * (width * height),
                plane_count(gray) >= 1,
                width * height >= 0,
        ;
        let plane = width * height;
        let pattern_base: usize = if self.ctrl & 0x08 != 0 {
            0x1000
        } else {
            0x0000
        };
        let sprite_scanline_mask = self.sprite_scanline_mask();
        let mut k: usize = 64;
        while k > 0
            invariant
                self.wf(),
                gray ==> self.palette_valid(),
                k <= 64,
                t == crop_top,
                l == crop_left,
                w == width,
                h == height,
                crop_top + height <= NES_HEIGHT,
                crop_left + width <= 0x7fff,
                crop_top_i == t,
                crop_bottom == t + h,
                crop_left_i == l,
                crop_right == l + w,
                plane == w * h,
                pattern_base == self.sprite_pattern_base(),
                dst@.len() == before.len(),
                before.len() == plane_count(gray) * (w * h),
                forall|y: int, b: int|
                    0 <= y < NES_HEIGHT && 0 <= b < 64 ==> (#[trigger] bit_set(sprite_scanline_mask[y], b)
                        == self.sprite_on_scanline(b, y)),
                self.sprites_drawn(dst@, before, k as int, t, l, w, h, gray),
            decreases k,
        {
            k -= 1;
            let sprite = k;
            let ghost sp = sprite as int;
            let base = sprite * 4;
            let sprite_y = self.oam[base] as i16 + 1;
            let tile = self.oam[base + 1] as usize;
            let attr = self.oam[base + 2];
            let sprite_x = self.oam[base + 3] as i16;
            let a3 = attr & 0x03;
            assert(a3 <= 3) by {
                lemma_byte_bits(attr);
            }
            let palette_base = 0x10 + ((attr & 0x03) as usize) * 4;
            let flip_h = attr & 0x40 != 0;
            let flip_v = attr & 0x80 != 0;
            let behind_background = attr & 0x20 != 0;
            proof {
                self.lemma_sprite_start(dst@, before, sp, t, l, w, h, gray);
            }
            for row in 0..8usize
                invariant
                    self.wf(),
                    gray ==> self.palette_valid(),
                    sprite < 64,
                    sp == sprite,
                    base == sprite * 4,
                    sprite_y == self.sprite_top(sp),
                    sprite_x == self.oam[base + 3],
                    tile == self.oam[base + 1],
                    attr == self.oam[base + 2],
                    palette_base == 0x10 + (attr & 0x03) as int * 4,
                    palette_base < 0x20,
                    flip_h == (attr & 0x40 != 0),
                    flip_v == (attr & 0x80 != 0),
                    behind_background == (attr & 0x20 != 0),
                    t == crop_top,
                    l == crop_left,
                    w == width,
                    h == height,
                    crop_top + height <= NES_HEIGHT,
                    crop_left + width <= 0x7fff,
                    crop_top_i == t,
                    crop_bottom == t + h,
                    crop_left_i == l,
                    crop_right == l + w,
                    plane == w * h,
                    pattern_base == self.sprite_pattern_base(),
                    dst@.len() == before.len(),
                    before.len() == plane_count(gray) * (w * h),
                    forall|y: int, b: int|
                        0 <= y < NES_HEIGHT && 0 <= b < 64 ==> (#[trigger] bit_set(sprite_scanline_mask[y], b)
                            == self.sprite_on_scanline(b, y)),
                    self.sprite_rows_drawn(dst@, before, sp, row as int, 0, t, l, w, h, gray),
            {
                let screen_y = sprite_y + row as i16;
                if screen_y >= crop_top_i && screen_y < crop_bottom
                    && sprite_scanline_mask[screen_y as usize] & (1u64 << sprite) != 0 {
                    proof {
                        lemma_test_bit(sprite_scanline_mask[screen_y as int], sprite as u64);
                    }
                    let tile_row = if flip_v {
                        7 - row
                    } else {
                        row
                    };
                    let pattern_addr = pattern_base + tile * 16 + tile_row;
                    let lo = self.chr_read(pattern_addr);
                    let hi = self.chr_read(pattern_addr + 8);
                    for col in 0..8usize
                        invariant
                            self.wf(),
                            gray ==> self.palette_valid(),
                            sprite < 64,
                            sp == sprite,
                            base == sprite * 4,
                            row < 8,
                            sprite_y == self.sprite_top(sp),
                            screen_y == sprite_y + row,
                            t <= screen_y < t + h,
                            self.sprite_on_scanline(sp, screen_y as int),
                            sprite_x == self.oam[base + 3],
                            attr == self.oam[base + 2],
                            palette_base == 0x10 + (attr & 0x03) as int * 4,
                            palette_base < 0x20,
                            flip_h == (attr & 0x40 != 0),
                            behind_background == (attr & 0x20 != 0),
                            lo == self.chr_at(pattern_addr as int),
                            hi == self.chr_at(pattern_addr + 8),
                            pattern_addr == self.sprite_pattern_base() + self.oam[base + 1] as int * 16 + (
                            if flip_v {
                                7 - row as int
                            } else {
                                row as int
                            }),
                            flip_v == (attr & 0x80 != 0),
                            t == crop_top,
                            l == crop_left,
                            w == width,
                            h == height,
                            crop_top + height <= NES_HEIGHT,
                            crop_left + width <= 0x7fff,
                            crop_top_i == t,
                            crop_left_i == l,
                            crop_right == l + w,
                            plane == w * h,
                            dst@.len() == before.len(),
                            before.len() == plane_count(gray) * (w * h),
                            self.sprite_rows_drawn(dst@, before, sp, row as int, col as int, t, l, w, h, gray),
                    {
                        let ghost dst0 = dst@;
                        let screen_x = sprite_x + col as i16;
                        let ghost sx = screen_x as int;
                        let ghost sy = screen_y as int;
                        if screen_x >= crop_left_i && screen_x < crop_right {
                            let tile_col = if flip_h {
                                col
                            } else {
                                7 - col
                            };
                            let pixel = ((lo >> tile_col) & 1) | (((hi >> tile_col) & 1) << 1);
                            assert(pixel == self.sprite_pixel(sp, sx, sy));
                            proof {
                                lemma_pattern_pixel_small(lo, hi, tile_col);
                            }
                            if pixel != 0 {
                                let out_y = (screen_y - crop_top_i) as usize;
                                let out_x = (screen_x - crop_left_i) as usize;
                                proof {
                                    lemma_pix_bounds(w, h, 0, out_x as int, out_y as int, plane_count(gray));
                                    lemma_pix_bounds(w, h, plane_count(gray) - 1, out_x as int, out_y as int, plane_count(gray));
                                }
                                let idx = out_y * width + out_x;
                                let color = if behind_background && self.bg_pixel_opaque(
                                    screen_x as usize,
                                    screen_y as usize,
                                ) {
                                    self.bg_color_index(screen_x as usize, screen_y as usize)
                                } else {
                                    self.palette[palette_base + pixel as usize]
                                };
                                assert(color == self.sprite_color(sp, sx, sy));
                                assert(gray ==> color < 64);
                                if gray {
                                    dst[idx] = nes_gray(color);
                                } else {
                                    proof {
                                        lemma_pix_bounds(w, h, 1, out_x as int, out_y as int, plane_count(gray));
                                    }
                                    let rgb = nes_rgb(color);
                                    dst[idx] = rgb[0];
                                    dst[plane + idx] = rgb[1];
                                    dst[plane * 2 + idx] = rgb[2];
                                }
                                proof {
                                    Self::lemma_pixel_updates(dst@, dst0, out_x as int, out_y as int, color, w, h, gray);
                                    self.lemma_pixel_written(dst@, dst0, before, sp, row as int, col as int, out_x as int, out_y as int, color, t, l, w, h, gray);
                                }
                            } else {
                                proof {
                                    self.lemma_pixel_skipped(dst@, before, sp, row as int, col as int, t, l, w, h, gray);
                                }
                            }
                        } else {
                            proof {
                                self.lemma_pixel_skipped(dst@, before, sp, row as int, col as int, t, l, w, h, gray);
                            }
                        }
                    }
                    proof {
                        self.lemma_row_done(dst@, before, sp, row as int, 8, t, l, w, h, gray);
                    }
                } else {
                    proof {
                        if t <= screen_y < t + h {
                            lemma_test_bit(sprite_scanline_mask[screen_y as int], sprite as u64);
                        }
                        self.lemma_row_done(dst@, before, sp, row as int, 0, t, l, w, h, gray);
                    }
                }
            }
            proof {
                self.lemma_sprite_end(dst@, before, sp, t, l, w, h, gray);
            }
        }
    }
}


impl Ppu {
    /// The window `(left, top, w, h)` of `dst`, in gray or RGB planes, shows
    /// the background on every row above `ry` and left of column `rx` on
    /// row `ry`.
    pub open spec fn bg_rows_written(
        &self,
        dst: Seq<u8>,
        top: int,
        left: int,
        w: int,
        h: int,
        gray: bool,
        ry: int,
        rx: int,
    ) -> bool {
        forall|p: int, ox: int, oy: int|
            0 <= p < plane_count(gray) && 0 <= ox < w && 0 <= oy < h && (oy < ry || (oy == ry && ox
                < rx)) ==> #[trigger] dst[pix(w, h, p, ox, oy)] == shade(
                self.bg_color(left + ox, top + oy),
                plane_channel(gray, p),
            )
    }

    /// The window `(left, top, w, h)` of `dst` shows the background.
    pub open spec fn bg_written(&self, dst: Seq<u8>, top: int, left: int, w: int, h: int, gray: bool) -> bool {
        self.bg_rows_written(dst, top, left, w, h, gray, h, 0)
    }

    /// `dst` holds exactly the window `(left, top, w, h)` of the finished
    /// frame, one plane per channel: gray, or red, green and blue.
    pub open spec fn frame_written(&self, dst: Seq<u8>, top: int, left: int, w: int, h: int, gray: bool) -> bool {
        &&& dst.len() == plane_count(gray) * (w * h)
        &&& forall|p: int, ox: int, oy: int|
            0 <= p < plane_count(gray) && 0 <= ox < w && 0 <= oy < h ==> #[trigger] dst[pix(
                w,
                h,
                p,
                ox,
                oy,
            )] == shade(self.frame_color(left + ox, top + oy), plane_channel(gray, p))
    }

    /// Writing the background's shades at `(rx, ry)` extends the written
    /// part of the window by that pixel.
    pub proof fn lemma_bg_pixel_step(
        &self,
        dst: Seq<u8>,
        dst0: Seq<u8>,
        top: int,
        left: int,
        w: int,
        h: int,
        gray: bool,
        ry: int,
        rx: int,
    )
        requires
            0 <= rx < w,
            0 <= ry < h,
            self.bg_rows_written(dst0, top, left, w, h, gray, ry, rx),
            forall|p: int, ox: int, oy: int|
                0 <= p < plane_count(gray) && 0 <= ox < w && 0 <= oy < h ==> #[trigger] dst[pix(w, h, p, ox, oy)]
                    == if ox == rx && oy == ry {
                    shade(self.bg_color(left + rx, top + ry), plane_channel(gray, p))
                } else {
                    dst0[pix(w, h, p, ox, oy)]
                },
        ensures
            self.bg_rows_written(dst, top, left, w, h, gray, ry, rx + 1),
    {
        assert forall|p: int, ox: int, oy: int|
            0 <= p < plane_count(gray) && 0 <= ox < w && 0 <= oy < h && (oy < ry || (oy == ry && ox < rx
                + 1)) implies #[trigger] dst[pix(w, h, p, ox, oy)] == shade(
                self.bg_color(left + ox, top + oy),
                plane_channel(gray, p),
            ) by {
            assert(dst0[pix(w, h, p, ox, oy)] == dst0[pix(w, h, p, ox, oy)]);
        }
    }

    /// The background of a window with the sprites drawn over it (or left as
    /// it is when sprites are disabled) is the finished frame.
    pub proof fn lemma_frame_composed(
        &self,
        dst: Seq<u8>,
        before: Seq<u8>,
        top: int,
        left: int,
        w: int,
        h: int,
        gray: bool,
    )
        requires
            before.len() == plane_count(gray) * (w * h),
            dst.len() == before.len(),
            self.bg_written(before, top, left, w, h, gray),
            self.mask & 0x10 == 0 ==> dst == before,
            self.mask & 0x10 != 0 ==> self.sprites_drawn(dst, before, 0, top, left, w, h, gray),
        ensures
            self.frame_written(dst, top, left, w, h, gray),
    {
        assert forall|p: int, ox: int, oy: int|
            0 <= p < plane_count(gray) && 0 <= ox < w && 0 <= oy < h implies #[trigger] dst[pix(
                w,
                h,
                p,
                ox,
                oy,
            )] == shade(self.frame_color(left + ox, top + oy), plane_channel(gray, p)) by {
            assert(before[pix(w, h, p, ox, oy)] == shade(
                self.bg_color(left + ox, top + oy),
                plane_channel(gray, p),
            ));
        }
    }

    /// Writes the background of the window `(crop_left, crop_top, width,
    /// height)` pixel by pixel, in gray or RGB planes.
    fn write_bg_window(
        &self,
        dst: &mut [u8],
        crop_top: usize,
        crop_left: usize,
        width: usize,
        height: usize,
        gray: bool,
    )
        requires
            self.wf(),
            gray ==> self.palette_valid(),
            crop_top + height <= NES_HEIGHT,
            crop_left + width <= 0x7fff,
            old(dst)@.len() == plane_count(gray) * (width * height),
        ensures
            final(dst)@.len() == old(dst)@.len(),
            self.bg_written(final(dst)@, crop_top as int, crop_left as int, width as int, height as int, gray),
    {
        let ghost t = crop_top as int;
        let ghost l = crop_left as int;
        let ghost w = width as int;
        let ghost h = height as int;
        let ghost planes = plane_count(gray);
        let len = dst.len();
        assert(width * height <= len) by (nonlinear_arith)
            requires
                len == plane_count(gray) * (width * height),
                plane_count(gray) >= 1,
                width * height >= 0,
        ;
        let plane = width * height;
        for out_y in 0..height
            invariant
                self.wf(),
                gray ==> self.palette_valid(),
                t == crop_top,
                l == crop_left,
                w == width,
                h == height,
                planes == plane_count(gray),
                crop_top + height <= NES_HEIGHT,
                crop_left + width <= 0x7fff,
                plane == w * h,
                dst@.len() == planes * (w * h),
                self.bg_rows_written(dst@, t, l, w, h, gray, out_y as int, 0),
        {
            let y = crop_top + out_y;
            for out_x in 0..width
                invariant
                    self.wf(),
                    gray ==> self.palette_valid(),
                    t == crop_top,
                    l == crop_left,
                    w == width,
                    h == height,
                    planes == plane_count(gray),
                    crop_top + height <= NES_HEIGHT,
                    crop_left + width <= 0x7fff,
                    out_y < height,
                    y == crop_top + out_y,
                    plane == w * h,
                    dst@.len() == planes * (w * h),
                    self.bg_rows_written(dst@, t, l, w, h, gray, out_y as int, out_x as int),
            {
                let ghost dst0 = dst@;
                let x = crop_left + out_x;
                let color = self.bg_color_index(x, y);
                proof {
                    lemma_pix_bounds(w, h, 0, out_x as int, out_y as int, planes);
                    lemma_pix_bounds(w, h, planes - 1, out_x as int, out_y as int, planes);
                }
                let idx = out_y * width + out_x;
                if gray {
                    dst[idx] = nes_gray(color);
                } else {
                    proof {
                        lemma_pix_bounds(w, h, 1, out_x as int, out_y as int, planes);
                    }
                    let rgb = nes_rgb(color);
                    dst[idx] = rgb[0];
                    dst[plane + idx] = rgb[1];
                    dst[plane * 2 + idx] = rgb[2];
                }
                proof {
                    Self::lemma_pixel_updates(dst@, dst0, out_x as int, out_y as int, color, w, h, gray);
                    self.lemma_bg_pixel_step(dst@, dst0, t, l, w, h, gray, out_y as int, out_x as int);
                }
            }
        }
    }
}


impl Ppu {
    /// A background pixel within the tile row fetched for screen pixel
    /// `(x, y)`: column `col` further right shows that row's bit.
    pub proof fn lemma_tile_pixel(
        &self,
        x: int,
        y: int,
        world_x: int,
        world_y: int,
        col: int,
        palette_id: u8,
        lo: u8,
        hi: u8,
    )
        requires
            self.mask & 0x08 != 0,
            0 <= col,
            0 <= world_x,
            (world_x % 256) % 8 + col < 8,
            self.bg_world(x, y) == (world_x, world_y),
            forall|wx: int|
                world_x <= wx < world_x + 8 - (world_x % 256) % 8 ==> {
                    let s = #[trigger] self.bg_sample_world(wx, world_y);
                    &&& s.palette_id == palette_id
                    &&& s.pixel == pattern_pixel(lo, hi, (7 - ((world_x % 256) % 8 + (wx - world_x))) as usize)
                },
        ensures
            ({
                let pixel = pattern_pixel(lo, hi, (7 - ((world_x % 256) % 8 + col)) as usize);
                self.bg_color(x + col, y) == if pixel == 0 {
                    self.palette[0]
                } else {
                    self.palette[palette_id as int * 4 + pixel as int]
                }
            }),
    {
        assert(self.bg_world(x + col, y) == (world_x + col, world_y));
        let s = self.bg_sample_world(world_x + col, world_y);
        assert(s.palette_id == palette_id);
    }

    /// Writes the gray background of the window `(crop_left, crop_top,
    /// width, height)` a tile run at a time: each nametable, attribute and
    /// pattern fetch serves the pixels up to the tile's right edge.
    #[verifier::spinoff_prover]
    #[verifier::rlimit(80)]
    fn write_bg_gray_region_tiled(
        &self,
        dst: &mut [u8],
        crop_top: usize,
        crop_left: usize,
        width: usize,
        height: usize,
    )
        requires
            self.wf(),
            self.palette_valid(),
            crop_top + height <= NES_HEIGHT,
            crop_left + width <= 0x7fff,
            old(dst)@.len() == width * height,
        ensures
            final(dst)@.len() == old(dst)@.len(),
            self.bg_written(final(dst)@, crop_top as int, crop_left as int, width as int, height as int, true),
    {
        let ghost t = crop_top as int;
        let ghost l = crop_left as int;
        let ghost w = width as int;
        let ghost h = height as int;
        let palette_gray = self.palette_gray();
        if self.mask & 0x08 == 0 {
            let fill = palette_gray[0];
            let len = dst.len();
            for i in 0..len
                invariant
                    len == dst@.len(),
                    forall|j: int| 0 <= j < i ==> #[trigger] dst@[j] == fill,
            {
                dst[i] = fill;
            }
            proof {
                assert forall|p: int, ox: int, oy: int|
                    0 <= p < plane_count(true) && 0 <= ox < w && 0 <= oy < h && (oy < h || (oy == h
                        && ox < 0)) implies #[trigger] dst@[pix(w, h, p, ox, oy)] == shade(
                        self.bg_color(l + ox, t + oy),
                        plane_channel(true, p),
                    ) by {
                    lemma_pix_bounds(w, h, p, ox, oy, 1);
                }
            }
            return;
        }
        let pattern_base: usize = if self.ctrl & 0x10 != 0 {
            0x1000
        } else {
            0x0000
        };
        let scroll_x = self.render_scroll_x_px() as usize;
        let scroll_y = self.scroll_y_px as usize;
        let len = dst.len();
        for out_y in 0..height
            invariant
                self.wf(),
                self.palette_valid(),
                self.mask & 0x08 != 0,
                len == w * h,
                forall|i: int| 0 <= i < 32 ==> #[trigger] palette_gray[i] == gray_of(self.palette[i]),
                t == crop_top,
                l == crop_left,
                w == width,
                h == height,
                crop_top + height <= NES_HEIGHT,
                crop_left + width <= 0x7fff,
                scroll_x == self.render_scroll_x(),
                scroll_y == self.scroll_y_px,
                dst@.len() == w * h,
                self.bg_rows_written(dst@, t, l, w, h, true, out_y as int, 0),
        {
            let y = crop_top + out_y;
            let world_y = if y < 32 {
                y
            } else {
                y + scroll_y
            };
            assert(out_y * width <= width * height) by (nonlinear_arith)
                requires
                    out_y < height,
            ;
            assert(width * height == len);
            let row_start = out_y * width;
            let mut out_x: usize = 0;
            while out_x < width
                invariant
                    self.wf(),
                    self.palette_valid(),
                    self.mask & 0x08 != 0,
                    forall|i: int| 0 <= i < 32 ==> #[trigger] palette_gray[i] == gray_of(self.palette[i]),
                    t == crop_top,
                    l == crop_left,
                    w == width,
                    h == height,
                    crop_top + height <= NES_HEIGHT,
                    crop_left + width <= 0x7fff,
                    scroll_x == self.render_scroll_x(),
                    scroll_y == self.scroll_y_px,
                    out_y < height,
                    y == crop_top + out_y,
                    world_y == self.bg_world(0, y as int).1,
                    row_start == out_y * width,
                    len == w * h,
                    out_x <= width,
                    dst@.len() == w * h,
                    self.bg_rows_written(dst@, t, l, w, h, true, out_y as int, out_x as int),
                decreases width - out_x,
            {
                let screen_x = crop_left + out_x;
                let world_x = if y < 32 {
                    screen_x
                } else {
                    screen_x + scroll_x
                };
                let (palette_id, lo, hi) = self.bg_tile_row(world_x, world_y);
                proof {
                    lemma_fine_x(world_x);
                }
                let fine_x = world_x & 7;
                let run = if 8 - fine_x < width - out_x {
                    8 - fine_x
                } else {
                    width - out_x
                };
                for col in 0..run
                    invariant
                        self.wf(),
                        self.palette_valid(),
                        self.mask & 0x08 != 0,
                        forall|i: int| 0 <= i < 32 ==> #[trigger] palette_gray[i] == gray_of(self.palette[i]),
                        t == crop_top,
                        l == crop_left,
                        w == width,
                        h == height,
                        crop_top + height <= NES_HEIGHT,
                        crop_left + width <= 0x7fff,
                        out_y < height,
                        y == crop_top + out_y,
                        row_start == out_y * width,
                        len == w * h,
                        out_x + run <= width,
                        fine_x + run <= 8,
                        fine_x == (world_x % 256) % 8,
                        palette_id < 4,
                        forall|x: int|
                            world_x <= x < world_x + 8 - (world_x % 256) % 8 ==> {
                                let s = #[trigger] self.bg_sample_world(x, world_y as int);
                                &&& s.palette_id == palette_id
                                &&& s.pixel == pattern_pixel(
                                    lo,
                                    hi,
                                    (7 - ((world_x % 256) % 8 + (x - world_x))) as usize,
                                )
                            },
                        self.bg_world(l + out_x, y as int) == (world_x as int, world_y as int),
                        dst@.len() == w * h,
                        self.bg_rows_written(dst@, t, l, w, h, true, out_y as int, out_x + col),
                {
                    let ghost dst0 = dst@;
                    let bit = 7 - (fine_x + col);
                    let pixel = ((lo >> bit) & 1) | (((hi >> bit) & 1) << 1);
                    assert(pixel == pattern_pixel(lo, hi, bit));
                    proof {
                        lemma_pattern_pixel_small(lo, hi, bit);
                        self.lemma_tile_pixel(l + out_x, y as int, world_x as int, world_y as int, col as int, palette_id, lo, hi);
                    }
                    let gray = if pixel == 0 {
                        palette_gray[0]
                    } else {
                        palette_gray[(palette_id as usize) * 4 + pixel as usize]
                    };
                    let ghost color = self.bg_color(l + out_x + col, y as int);
                    assert(gray == gray_of(color));
                    proof {
                        lemma_pix_bounds(w, h, 0, out_x + col, out_y as int, 1);
                        assert(pix(w, h, 0, out_x + col, out_y as int) == row_start + out_x + col);
                    }
                    dst[row_start + out_x + col] = gray;
                    proof {
                        Self::lemma_pixel_updates(dst@, dst0, out_x + col, out_y as int, color, w, h, true);
                        self.lemma_bg_pixel_step(dst@, dst0, t, l, w, h, true, out_y as int, out_x + col);
                    }
                }
                out_x += run;
            }
        }
    }
}


impl Ppu {
    /// Draws the sprites over a full gray frame holding the background.
    pub fn draw_sprites_gray(&self, dst: &mut [u8])
        requires
            self.wf(),
            self.palette_valid(),

            old(dst)@.len() == plane_count(true) * (256 * 240),
        ensures
            final(dst)@.len() == old(dst)@.len(),
            self.mask & 0x10 == 0 ==> final(dst)@ == old(dst)@,
            self.mask & 0x10 != 0 ==> self.sprites_drawn(final(dst)@, old(dst)@, 0, 0, 0, 256, 240, true),
    {
        self.draw_sprites_window(dst, 0, 0, 256, 240, true);
    }

    /// Draws the sprites over the full-width gray rows `crop_top..crop_top + height`.
    pub fn draw_sprites_gray_cropped(&self, dst: &mut [u8], crop_top: usize, height: usize)
        requires
            self.wf(),
            self.palette_valid(),
            crop_top + height <= NES_HEIGHT,
            old(dst)@.len() == plane_count(true) * (256 * height as int),
        ensures
            final(dst)@.len() == old(dst)@.len(),
            self.mask & 0x10 == 0 ==> final(dst)@ == old(dst)@,
            self.mask & 0x10 != 0 ==> self.sprites_drawn(final(dst)@, old(dst)@, 0, crop_top as int, 0, 256, height as int, true),
    {
        self.draw_sprites_window(dst, crop_top, 0, 256, height, true);
    }

    /// Draws the sprites over the gray window `(crop_left, crop_top, width, height)`.
    pub fn draw_sprites_gray_region(&self, dst: &mut [u8], crop_top: usize, crop_left: usize, width: usize, height: usize)
        requires
            self.wf(),
            self.palette_valid(),
            crop_top + height <= NES_HEIGHT,
            crop_left + width <= 0x7fff,
            old(dst)@.len() == plane_count(true) * (width as int * height as int),
        ensures
            final(dst)@.len() == old(dst)@.len(),
            self.mask & 0x10 == 0 ==> final(dst)@ == old(dst)@,
            self.mask & 0x10 != 0 ==> self.sprites_drawn(final(dst)@, old(dst)@, 0, crop_top as int, crop_left as int, width as int, height as int, true),
    {
        self.draw_sprites_window(dst, crop_top, crop_left, width, height, true);
    }

    /// Draws the sprites over a full RGB frame (three planes) holding the background.
    pub fn draw_sprites_rgb(&self, dst: &mut [u8])
        requires
            self.wf(),


            old(dst)@.len() == plane_count(false) * (256 * 240),
        ensures
            final(dst)@.len() == old(dst)@.len(),
            self.mask & 0x10 == 0 ==> final(dst)@ == old(dst)@,
            self.mask & 0x10 != 0 ==> self.sprites_drawn(final(dst)@, old(dst)@, 0, 0, 0, 256, 240, false),
    {
        self.draw_sprites_window(dst, 0, 0, 256, 240, false);
    }

    /// Draws the sprites over the full-width RGB rows `crop_top..crop_top + height`.
    pub fn draw_sprites_rgb_cropped(&self, dst: &mut [u8], crop_top: usize, height: usize)
        requires
            self.wf(),

            crop_top + height <= NES_HEIGHT,
            old(dst)@.len() == plane_count(false) * (256 * height as int),
        ensures
            final(dst)@.len() == old(dst)@.len(),
            self.mask & 0x10 == 0 ==> final(dst)@ == old(dst)@,
            self.mask & 0x10 != 0 ==> self.sprites_drawn(final(dst)@, old(dst)@, 0, crop_top as int, 0, 256, height as int, false),
    {
        self.draw_sprites_window(dst, crop_top, 0, 256, height, false);
    }

    /// Draws the sprites over the RGB window `(crop_left, crop_top, width, height)`.
    pub fn draw_sprites_rgb_region(&self, dst: &mut [u8], crop_top: usize, crop_left: usize, width: usize, height: usize)
        requires
            self.wf(),

            crop_top + height <= NES_HEIGHT,
            crop_left + width <= 0x7fff,
            old(dst)@.len() == plane_count(false) * (width as int * height as int),
        ensures
            final(dst)@.len() == old(dst)@.len(),
            self.mask & 0x10 == 0 ==> final(dst)@ == old(dst)@,
            self.mask & 0x10 != 0 ==> self.sprites_drawn(final(dst)@, old(dst)@, 0, crop_top as int, crop_left as int, width as int, height as int, false),
    {
        self.draw_sprites_window(dst, crop_top, crop_left, width, height, false);
    }

    /// Writes the gray background of the full-width rows `crop_top..crop_top
    /// + height`, a tile run at a time.
    fn write_bg_gray_cropped_tiled(&self, dst: &mut [u8], crop_top: usize, height: usize)
        requires
            self.wf(),
            self.palette_valid(),
            crop_top + height <= NES_HEIGHT,
            old(dst)@.len() == 256 * height,
        ensures
            final(dst)@.len() == old(dst)@.len(),
            self.bg_written(final(dst)@, crop_top as int, 0, 256, height as int, true),
    {
        self.write_bg_gray_region_tiled(dst, crop_top, 0, 256, height);
    }

    /// Renders the full 256x240 frame in gray.
    pub fn write_gray_frame(&self, dst: &mut [u8])
        requires
            self.wf(),
            self.palette_valid(),
            old(dst)@.len() == 256 * 240,
        ensures
            self.frame_written(final(dst)@, 0, 0, 256, 240, true),
    {
        self.write_bg_window(dst, 0, 0, 256, 240, true);
        let ghost before = dst@;
        self.draw_sprites_gray(dst);
        proof {
            self.lemma_frame_composed(dst@, before, 0, 0, 256, 240, true);
        }
    }

    /// Renders the full-width rows `crop_top..crop_top + height` in gray.
    pub fn write_gray_frame_cropped(&self, dst: &mut [u8], crop_top: usize, height: usize)
        requires
            self.wf(),
            self.palette_valid(),
            crop_top + height <= NES_HEIGHT,
            old(dst)@.len() == 256 * height,
        ensures
            self.frame_written(final(dst)@, crop_top as int, 0, 256, height as int, true),
    {
        self.write_bg_gray_cropped_tiled(dst, crop_top, height);
        let ghost before = dst@;
        self.draw_sprites_gray_cropped(dst, crop_top, height);
        proof {
            self.lemma_frame_composed(dst@, before, crop_top as int, 0, 256, height as int, true);
        }
    }

    /// Renders the window `(crop_left, crop_top, width, height)` in gray.
    pub fn write_gray_frame_region(
        &self,
        dst: &mut [u8],
        crop_top: usize,
        crop_left: usize,
        width: usize,
        height: usize,
    )
        requires
            self.wf(),
            self.palette_valid(),
            crop_top + height <= NES_HEIGHT,
            crop_left + width <= 0x7fff,
            old(dst)@.len() == width * height,
        ensures
            self.frame_written(final(dst)@, crop_top as int, crop_left as int, width as int, height as int, true),
    {
        self.write_bg_gray_region_tiled(dst, crop_top, crop_left, width, height);
        let ghost before = dst@;
        self.draw_sprites_gray_region(dst, crop_top, crop_left, width, height);
        proof {
            self.lemma_frame_composed(dst@, before, crop_top as int, crop_left as int, width as int, height as int, true);
        }
    }

    /// Renders the full 256x240 frame as three planes: red, green, blue.
    pub fn write_rgb_frame(&self, dst: &mut [u8])
        requires
            self.wf(),
            old(dst)@.len() == 3 * (256 * 240),
        ensures
            self.frame_written(final(dst)@, 0, 0, 256, 240, false),
    {
        self.write_bg_window(dst, 0, 0, 256, 240, false);
        let ghost before = dst@;
        self.draw_sprites_rgb(dst);
        proof {
            self.lemma_frame_composed(dst@, before, 0, 0, 256, 240, false);
        }
    }

    /// Renders the full-width rows `crop_top..crop_top + height` as three
    /// planes.
    pub fn write_rgb_frame_cropped(&self, dst: &mut [u8], crop_top: usize, height: usize)
        requires
            self.wf(),
            crop_top + height <= NES_HEIGHT,
            old(dst)@.len() == 3 * (256 * height),
        ensures
            self.frame_written(final(dst)@, crop_top as int, 0, 256, height as int, false),
    {
        self.write_bg_window(dst, crop_top, 0, 256, height, false);
        let ghost before = dst@;
        self.draw_sprites_rgb_cropped(dst, crop_top, height);
        proof {
            self.lemma_frame_composed(dst@, before, crop_top as int, 0, 256, height as int, false);
        }
    }

    /// Renders the window `(crop_left, crop_top, width, height)` as three
    /// planes.
    pub fn write_rgb_frame_region(
        &self,
        dst: &mut [u8],
        crop_top: usize,
        crop_left: usize,
        width: usize,
        height: usize,
    )
        requires
            self.wf(),
            crop_top + height <= NES_HEIGHT,
            crop_left + width <= 0x7fff,
            old(dst)@.len() == 3 * (width * height),
        ensures
            self.frame_written(final(dst)@, crop_top as int, crop_left as int, width as int, height as int, false),
    {
        self.write_bg_window(dst, crop_top, crop_left, width, height, false);
        let ghost before = dst@;
        self.draw_sprites_rgb_region(dst, crop_top, crop_left, width, height);
        proof {
            self.lemma_frame_composed(dst@, before, crop_top as int, crop_left as int, width as int, height as int, false);
        }
    }
}


impl Ppu {
    /// Renders the default gray observation: the 240x192 window below the
    /// status bar of the visible frame, written to the front of
    /// `sprite_shadow`, then area-resized to 84x84 into `dst`.
    pub fn write_gray_frame_cropped_area_84x84(&self, dst: &mut [u8], sprite_shadow: &mut [u8])
        requires
            self.wf(),
            self.palette_valid(),
            old(dst)@.len() == 84 * 84,
            old(sprite_shadow)@.len() >= 240 * 192,
        ensures
            final(sprite_shadow)@.len() == old(sprite_shadow)@.len(),
            self.frame_written(final(sprite_shadow)@.subrange(0, 46080), 40, 8, 240, 192, true),
            forall|i: int|
                240 * 192 <= i < old(sprite_shadow)@.len() ==> #[trigger] final(sprite_shadow)@[i]
                    == old(sprite_shadow)@[i],
            final(dst)@.len() == 84 * 84,
            forall|i: int|
                0 <= i < 84 * 84 ==> #[trigger] final(dst)@[i] as int == area_mean(
                    final(sprite_shadow)@.subrange(0, 46080),
                    0,
                    240,
                    192,
                    84,
                    84,
                    i % 84,
                    i / 84,
                ),
    {
        let native_len: usize = 240 * 192;
        let mut native = vec![0u8; native_len];
        self.write_gray_frame_region(native.as_mut_slice(), 40, 8, 240, 192);
        let ghost old_shadow = sprite_shadow@;
        for i in 0..native_len
            invariant
                native_len == 240 * 192,
                native@.len() == native_len,
                sprite_shadow@.len() == old_shadow.len(),
                old_shadow.len() >= native_len,
                forall|j: int| 0 <= j < i ==> #[trigger] sprite_shadow@[j] == native@[j],
                forall|j: int| i <= j < old_shadow.len() ==> #[trigger] sprite_shadow@[j] == old_shadow[j],
        {
            sprite_shadow[i] = native[i];
        }
        assert(sprite_shadow@.subrange(0, 46080) =~= native@);
        let ghost src = native@;
        for dy in 0..84usize
            invariant
                native@ == src,
                src.len() == 240 * 192,
                dst@.len() == 84 * 84,
                forall|i: int|
                    0 <= i < dy * 84 ==> #[trigger] dst@[i] as int == area_mean(src, 0, 240, 192, 84, 84, i % 84, i / 84),
        {
            let (y0, y1) = area_bin(dy, 192, 84);
            for dx in 0..84usize
                invariant
                    native@ == src,
                    src.len() == 240 * 192,
                    dst@.len() == 84 * 84,
                    dy < 84,
                    y0 == bin_start(dy as int, 192, 84),
                    y1 == bin_end(dy as int, 192, 84),
                    y0 < y1 <= 192,
                    forall|i: int|
                        0 <= i < dy * 84 + dx ==> #[trigger] dst@[i] as int == area_mean(
                            src,
                            0,
                            240,
                            192,
                            84,
                            84,
                            i % 84,
                            i / 84,
                        ),
            {
                let (x0, x1) = area_bin(dx, 240, 84);
                assert(1 <= (x1 - x0) * (y1 - y0) <= 240 * 192) by (nonlinear_arith)
                    requires
                        x0 < x1 <= 240,
                        y0 < y1 <= 192,
                ;
                let sum = area_sum(native.as_slice(), 0, 240, x0, x1, y0, y1);
                let count = ((x1 - x0) * (y1 - y0)) as u32;
                proof {
                    lemma_block_mean_fits(src, 0, 240, x0 as int, x1 as int, y0 as int, y1 as int);
                    vstd::arithmetic::div_mod::lemma_fundamental_div_mod_converse(
                        (dy * 84 + dx) as int,
                        84,
                        dy as int,
                        dx as int,
                    );
                }
                let ghost dst0 = dst@;
                dst[dy * 84 + dx] = (sum / count) as u8;
                assert forall|i: int| 0 <= i < dy * 84 + dx + 1 implies #[trigger] dst@[i] as int == area_mean(
                    src,
                    0,
                    240,
                    192,
                    84,
                    84,
                    i % 84,
                    i / 84,
                ) by {
                    if i < dy * 84 + dx {
                        assert(dst@[i] == dst0[i]);
                    }
                }
            }
        }
    }
}


impl Ppu {
    /// Whether every palette byte names one of the 64 master colors, as the
    /// gray writers need.
    pub fn palette_in_range(&self) -> (ok: bool)
        ensures
            ok == self.palette_valid(),
    {
        for i in 0..32usize
            invariant
                forall|j: int| 0 <= j < i ==> #[trigger] self.palette[j] < 64,
        {
            if self.palette[i] >= 64 {
                return false;
            }
        }
        true
    }
}

impl NesEmulator {
    /// Renders the full 256x240 frame as three planes: red, green, blue.
    pub fn write_rgb_frame(&self, dst: &mut [u8])
        requires
            self.wf(),
            old(dst)@.len() == 3 * (256 * 240),
        ensures
            self.ppu.frame_written(final(dst)@, 0, 0, 256, 240, false),
    {
        self.ppu.write_rgb_frame(dst);
    }

    /// Renders the full-width rows `crop_top..crop_top + height` as three
    /// planes.
    pub fn write_rgb_frame_cropped(&self, dst: &mut [u8], crop_top: usize, height: usize)
        requires
            self.wf(),
            crop_top + height <= NES_HEIGHT,
            old(dst)@.len() == 3 * (256 * height),
        ensures
            self.ppu.frame_written(final(dst)@, crop_top as int, 0, 256, height as int, false),
    {
        self.ppu.write_rgb_frame_cropped(dst, crop_top, height);
    }

    /// Renders rows `crop_top..crop_top + height` of the visible 240x224
    /// frame (screen rows 8.., columns 8..248) as three planes.
    pub fn write_rgb_visible_frame_cropped(&self, dst: &mut [u8], crop_top: usize, height: usize)
        requires
            self.wf(),
            crop_top + height <= 224,
            old(dst)@.len() == 3 * (240 * height),
        ensures
            self.ppu.frame_written(final(dst)@, 8 + crop_top, 8, 240, height as int, false),
    {
        self.ppu.write_rgb_frame_region(dst, 8 + crop_top, 8, 240, height);
    }

    /// Renders the full 256x240 frame in gray.
    pub fn write_gray_frame(&self, dst: &mut [u8])
        requires
            self.wf(),
            self.ppu.palette_valid(),
            old(dst)@.len() == 256 * 240,
        ensures
            self.ppu.frame_written(final(dst)@, 0, 0, 256, 240, true),
    {
        self.ppu.write_gray_frame(dst);
    }

    /// Renders the full-width rows `crop_top..crop_top + height` in gray.
    pub fn write_gray_frame_cropped(&self, dst: &mut [u8], crop_top: usize, height: usize)
        requires
            self.wf(),
            self.ppu.palette_valid(),
            crop_top + height <= NES_HEIGHT,
            old(dst)@.len() == 256 * height,
        ensures
            self.ppu.frame_written(final(dst)@, crop_top as int, 0, 256, height as int, true),
    {
        self.ppu.write_gray_frame_cropped(dst, crop_top, height);
    }

    /// Renders rows `crop_top..crop_top + height` of the visible 240x224
    /// frame in gray.
    pub fn write_gray_visible_frame_cropped(&self, dst: &mut [u8], crop_top: usize, height: usize)
        requires
            self.wf(),
            self.ppu.palette_valid(),
            crop_top + height <= 224,
            old(dst)@.len() == 240 * height,
        ensures
            self.ppu.frame_written(final(dst)@, 8 + crop_top, 8, 240, height as int, true),
    {
        self.ppu.write_gray_frame_region(dst, 8 + crop_top, 8, 240, height);
    }

    /// Renders the default 84x84 gray observation (see the PPU's writer of
    /// the same name).
    pub fn write_gray_frame_cropped_area_84x84(&self, dst: &mut [u8], sprite_shadow: &mut [u8])
        requires
            self.wf(),
            self.ppu.palette_valid(),
            old(dst)@.len() == 84 * 84,
            old(sprite_shadow)@.len() >= 240 * 192,
        ensures
            final(sprite_shadow)@.len() == old(sprite_shadow)@.len(),
            self.ppu.frame_written(final(sprite_shadow)@.subrange(0, 46080), 40, 8, 240, 192, true),
            forall|i: int|
                240 * 192 <= i < old(sprite_shadow)@.len() ==> #[trigger] final(sprite_shadow)@[i]
                    == old(sprite_shadow)@[i],
            final(dst)@.len() == 84 * 84,
            forall|i: int|
                0 <= i < 84 * 84 ==> #[trigger] final(dst)@[i] as int == area_mean(
                    final(sprite_shadow)@.subrange(0, 46080),
                    0,
                    240,
                    192,
                    84,
                    84,
                    i % 84,
                    i / 84,
                ),
    {
        self.ppu.write_gray_frame_cropped_area_84x84(dst, sprite_shadow);
    }

    /// The background palette byte and opacity at screen pixel `(x, y)`.
    pub fn debug_bg_pixel(&self, x: usize, y: usize) -> (r: (u8, bool))
        requires
            self.wf(),
            self.ppu.bg_in_range(x as int, y as int),
        ensures
            r.0 == self.ppu.bg_color(x as int, y as int),
            r.1 == self.ppu.bg_opaque(x as int, y as int),
    {
        self.ppu.debug_bg_pixel(x, y)
    }
}


/// Every index of a planar buffer is the index of one pixel of one plane.
pub proof fn lemma_pix_cover(w: int, h: int, j: int, planes: int)
    requires
        w > 0,
        h > 0,
        0 <= j < planes * (w * h),
    ensures
        ({
            let p = j / (w * h);
            let ox = (j % (w * h)) % w;
            let oy = (j % (w * h)) / w;
            &&& 0 <= p < planes
            &&& 0 <= ox < w
            &&& 0 <= oy < h
            &&& j == pix(w, h, p, ox, oy)
        }),
{
    let n = w * h;
    assert(n > 0) by (nonlinear_arith)
        requires
            w > 0,
            h > 0,
            n == w * h,
    ;
    vstd::arithmetic::div_mod::lemma_fundamental_div_mod(j, n);
    let p = j / n;
    let r = j % n;
    vstd::arithmetic::div_mod::lemma_fundamental_div_mod(r, w);
    let ox = r % w;
    let oy = r / w;
    assert(0 <= p < planes) by (nonlinear_arith)
        requires
            j == n * p + r,
            0 <= r < n,
            0 <= j < planes * n,
            n > 0,
    ;
    assert(0 <= oy < h) by (nonlinear_arith)
        requires
            r == w * oy + ox,
            0 <= ox < w,
            0 <= r < w * h,
            w > 0,
    ;
    assert(j == p * n + oy * w + ox) by (nonlinear_arith)
        requires
            j == n * p + r,
            r == w * oy + ox,
    ;
}

impl Ppu {
    /// A window of the finished frame has one content: any two buffers that
    /// hold it are equal. So every writer of a window (per pixel or by tile
    /// runs, gray or RGB, cropped or not) gives the same bytes, and equal
    /// emulator states render equal frames.
    pub proof fn lemma_frame_unique(&self, a: Seq<u8>, b: Seq<u8>, top: int, left: int, w: int, h: int, gray: bool)
        requires
            self.frame_written(a, top, left, w, h, gray),
            self.frame_written(b, top, left, w, h, gray),
            0 <= w,
            0 <= h,
        ensures
            a == b,
    {
        if w > 0 && h > 0 {
            assert forall|j: int| 0 <= j < a.len() implies a[j] == b[j] by {
                lemma_pix_cover(w, h, j, plane_count(gray));
                let p = j / (w * h);
                let ox = (j % (w * h)) % w;
                let oy = (j % (w * h)) / w;
                assert(a[pix(w, h, p, ox, oy)] == b[pix(w, h, p, ox, oy)]);
            }
        } else {
            assert(w * h == 0) by (nonlinear_arith)
                requires
                    w == 0 || h == 0,
            ;
        }
        assert(a =~= b);
    }
}


impl Ppu {
    /// How many of the sprites before `s` are drawn on scanline `y`.
    pub open spec fn sprites_drawn_before(&self, y: int, s: int) -> int
        decreases s,
    {
        if s <= 0 {
            0
        } else {
            self.sprites_drawn_before(y, s - 1) + if self.sprite_on_scanline(s - 1, y) {
                1int
            } else {
                0int
            }
        }
    }

    /// The sprite limit: of the sprites that cover a scanline, the first
    /// eight in OAM order are drawn on it and no more; so a line shows
    /// `min(8, covering)` sprites.
    pub proof fn lemma_scanline_sprite_limit(&self, y: int, s: int)
        requires
            0 <= s,
        ensures
            self.sprites_drawn_before(y, s) == if self.sprites_on_row_before(y, s) < 8 {
                self.sprites_on_row_before(y, s)
            } else {
                8
            },
        decreases s,
    {
        if s > 0 {
            self.lemma_scanline_sprite_limit(y, s - 1);
            self.lemma_row_count_monotone(y, s - 1);
        }
    }

    /// Counting covering sprites never goes down.
    proof fn lemma_row_count_monotone(&self, y: int, s: int)
        requires
            0 <= s,
        ensures
            0 <= self.sprites_on_row_before(y, s),
        decreases s,
    {
        if s > 0 {
            self.lemma_row_count_monotone(y, s - 1);
        }
    }
}


/// Bit `7 - c` of a pattern byte is its pixel at column `c` counted from
/// the left (the most significant bit is the leftmost pixel), and bit `c`
/// is the pixel at column `c` counted from the right.
proof fn lemma_pattern_columns(lo: u8, hi: u8, c: u8)
    requires
        c < 8,
    ensures
        (pattern_pixel(lo, hi, (7 - c) as usize) & 1 != 0) <==> (lo & (0x80u8 >> c) != 0),
        (pattern_pixel(lo, hi, (7 - c) as usize) & 2 != 0) <==> (hi & (0x80u8 >> c) != 0),
        (pattern_pixel(lo, hi, c as usize) & 1 != 0) <==> (lo & (1u8 << c) != 0),
        (pattern_pixel(lo, hi, c as usize) & 2 != 0) <==> (hi & (1u8 << c) != 0),
        pattern_pixel(lo, hi, (7 - c) as usize) < 4,
        pattern_pixel(lo, hi, c as usize) < 4,
{
    let b = (7 - c) as usize;
    let d = c as usize;
    assert(((lo >> b) & 1) | (((hi >> b) & 1) << 1u8) == pattern_pixel(lo, hi, b));
    assert(((lo >> d) & 1) | (((hi >> d) & 1) << 1u8) == pattern_pixel(lo, hi, d));
    assert({
        let v = ((lo >> b) & 1) | (((hi >> b) & 1) << 1u8);
        let w = ((lo >> d) & 1) | (((hi >> d) & 1) << 1u8);
        &&& (v & 1 != 0) == (lo & (0x80u8 >> c) != 0)
        &&& (v & 2 != 0) == (hi & (0x80u8 >> c) != 0)
        &&& v < 4
        &&& (w & 1 != 0) == (lo & (1u8 << c) != 0)
        &&& (w & 2 != 0) == (hi & (1u8 << c) != 0)
        &&& w < 4
    }) by (bit_vector)
        requires
            c < 8,
            b == (7 - c) as usize,
            d == c as usize,
    ;
}

impl Ppu {
    /// Which pattern bits a sprite pixel shows. Column `c` of a sprite's
    /// 8x8 box (counted from its x position) shows bit `7 - c` of its
    /// pattern bytes, the leftmost pixel being the most significant bit,
    /// unless attribute bit 6 flips it horizontally, when it shows bit `c`;
    /// box row `r` shows pattern row `r`, or row `7 - r` when attribute bit
    /// 7 flips it vertically. The low bit of the 2-bit value comes from the
    /// first pattern plane, the high bit from the plane 8 bytes on.
    pub proof fn lemma_sprite_pixel_bits(self, s: int, row: int, col: u8)
        requires
            0 <= s < 64,
            0 <= row < 8,
            col < 8,
        ensures
            ({
                let attr = self.oam[4 * s + 2];
                let x = self.oam[4 * s + 3] as int + col as int;
                let y = self.sprite_top(s) + row;
                let pattern_row = if attr & 0x80 != 0 { 7 - row } else { row };
                let addr = self.sprite_pattern_base() + self.oam[4 * s + 1] as int * 16 + pattern_row;
                let mask: u8 = if attr & 0x40 != 0 { 1u8 << col } else { 0x80u8 >> col };
                &&& (self.sprite_pixel(s, x, y) & 1 != 0) <==> (self.chr_at(addr) & mask != 0)
                &&& (self.sprite_pixel(s, x, y) & 2 != 0) <==> (self.chr_at(addr + 8) & mask != 0)
                &&& self.sprite_pixel(s, x, y) < 4
            }),
    {
        let attr = self.oam[4 * s + 2];
        let pattern_row = if attr & 0x80 != 0 { 7 - row } else { row };
        let addr = self.sprite_pattern_base() + self.oam[4 * s + 1] as int * 16 + pattern_row;
        lemma_pattern_columns(self.chr_at(addr), self.chr_at(addr + 8), col);
        assert((7 - col) as usize == (7 - col as int) as usize);
    }

    /// Flipping a sprite horizontally mirrors it: with attribute bit 6
    /// toggled, column `c` of its box shows what column `7 - c` showed.
    /// Toggling bit 7 mirrors it top to bottom in the same way.
    pub proof fn lemma_sprite_flips_mirror(self, s: int, row: int, col: int)
        requires
            0 <= s < 64,
            0 <= row < 8,
            0 <= col < 8,
        ensures
            ({
                let attr = self.oam[4 * s + 2];
                let x = self.oam[4 * s + 3] as int;
                let y = self.sprite_top(s);
                let h = Ppu { oam: vstd::array::spec_array_update(self.oam, 4 * s + 2, attr ^ 0x40), ..self };
                let v = Ppu { oam: vstd::array::spec_array_update(self.oam, 4 * s + 2, attr ^ 0x80), ..self };
                &&& h.sprite_pixel(s, x + col, y + row) == self.sprite_pixel(s, x + 7 - col, y + row)
                &&& v.sprite_pixel(s, x + col, y + row) == self.sprite_pixel(s, x + col, y + 7 - row)
            }),
    {
        broadcast use vstd::array::group_array_axioms;
        let attr = self.oam[4 * s + 2];
        assert(((attr ^ 0x40u8) & 0x40 != 0) == !(attr & 0x40 != 0) && ((attr ^ 0x40u8) & 0x80) == (attr & 0x80)
            && ((attr ^ 0x80u8) & 0x80 != 0) == !(attr & 0x80 != 0) && ((attr ^ 0x80u8) & 0x40) == (attr & 0x40))
            by (bit_vector);
    }
}


impl Ppu {
    /// What the background shows at a plane position given by nametable
    /// `t` (0..4: left/right, then top/bottom, each 256x240), tile column
    /// `tx` and row `ty`, and pixel `(px, py)` inside the tile: the tile
    /// number is the nametable byte `32 * ty + tx`; the pixel's low and
    /// high bits are bit `7 - px` (leftmost pixel = most significant bit)
    /// of pattern rows `py` and `py + 8` of that tile; the palette is the
    /// 2-bit field of the attribute byte `0x3C0 + 8 * (ty / 4) + tx / 4` for
    /// the tile's 16x16 quadrant (right adds 2, bottom adds 4 to the shift).
    pub proof fn lemma_bg_sample_bits(self, t: int, tx: int, ty: int, px: u8, py: int)
        requires
            0 <= t < 4,
            0 <= tx < 32,
            0 <= ty < 30,
            px < 8,
            0 <= py < 8,
        ensures
            ({
                let wx = (t % 2) * 256 + tx * 8 + px as int;
                let wy = (t / 2) * 240 + ty * 8 + py;
                let nt = 0x2000 + 0x400 * t;
                let tile = self.ppu_read_spec((nt + 32 * ty + tx) as u16);
                let attr = self.ppu_read_spec((nt + 0x3c0 + 8 * (ty / 4) + tx / 4) as u16);
                let shift = ((ty % 4) / 2) * 4 + ((tx % 4) / 2) * 2;
                let row = self.bg_pattern_base() + tile as int * 16 + py;
                let sample = self.bg_sample_world(wx, wy);
                &&& (sample.pixel & 1 != 0) <==> (self.chr_at(row) & (0x80u8 >> px) != 0)
                &&& (sample.pixel & 2 != 0) <==> (self.chr_at(row + 8) & (0x80u8 >> px) != 0)
                &&& sample.palette_id == (attr >> (shift as usize)) & 3
            }),
    {
        let wx = (t % 2) * 256 + tx * 8 + px as int;
        let wy = (t / 2) * 240 + ty * 8 + py;
        assert(wx / 256 == t % 2 && wx % 256 == tx * 8 + px as int) by (nonlinear_arith)
            requires
                wx == (t % 2) * 256 + tx * 8 + px as int,
                0 <= tx < 32,
                px < 8,
                0 <= t,
        ;
        assert(wy / 240 == t / 2 && wy % 240 == ty * 8 + py) by (nonlinear_arith)
            requires
                wy == (t / 2) * 240 + ty * 8 + py,
                0 <= ty < 30,
                0 <= py < 8,
                0 <= t,
        ;
        assert((tx * 8 + px as int) / 8 == tx && (tx * 8 + px as int) % 8 == px as int) by (nonlinear_arith)
            requires
                px < 8,
        ;
        assert((ty * 8 + py) / 8 == ty && (ty * 8 + py) % 8 == py) by (nonlinear_arith)
            requires
                0 <= py < 8,
        ;
        assert(((t / 2) % 2) * 2 + (t % 2) % 2 == t) by (nonlinear_arith)
            requires
                0 <= t < 4,
        ;
        assert(ty / 2 % 2 == (ty % 4) / 2 && tx / 2 % 2 == (tx % 4) / 2) by (nonlinear_arith)
            requires
                0 <= ty,
                0 <= tx,
        ;
        let nt = 0x2000 + 0x400 * t;
        let tile = self.ppu_read_spec((nt + 32 * ty + tx) as u16);
        let row = self.bg_pattern_base() + tile as int * 16 + py;
        lemma_pattern_columns(self.chr_at(row), self.chr_at(row + 8), px);
        assert((7 - px) as usize == (7 - (tx * 8 + px as int) % 8) as usize);
    }

    /// The front sprite at a pixel is the lowest-numbered sprite (from
    /// `k` on) that paints it: it paints there and no sprite between `k`
    /// and it does; when there is none, no sprite from `k` on paints.
    pub proof fn lemma_front_sprite(self, k: int, x: int, y: int)
        requires
            0 <= k <= 64,
        ensures
            match self.front_sprite_from(k, x, y) {
                Some(s) => k <= s < 64 && self.sprite_paints(s, x, y) && forall|t: int|
                    k <= t < s ==> !#[trigger] self.sprite_paints(t, x, y),
                None => forall|t: int| k <= t < 64 ==> !#[trigger] self.sprite_paints(t, x, y),
            },
        decreases 64 - k,
    {
        if k < 64 && !self.sprite_paints(k, x, y) {
            self.lemma_front_sprite(k + 1, x, y);
        }
    }

    /// The finished frame's palette byte: the background's when sprites
    /// are disabled or none paints; otherwise the front sprite's palette
    /// entry `0x10 + 4 * (attribute bits 0-1) + value`, unless its
    /// attribute bit 5 puts it behind an opaque background pixel.
    pub proof fn lemma_frame_color_priority(self, x: int, y: int)
        ensures
            self.mask & 0x10 == 0 ==> self.frame_color(x, y) == self.bg_color(x, y),
            (forall|t: int| 0 <= t < 64 ==> !#[trigger] self.sprite_paints(t, x, y)) ==> self.frame_color(x, y)
                == self.bg_color(x, y),
            forall|s: int|
                0 <= s < 64 && self.mask & 0x10 != 0 && #[trigger] self.sprite_paints(s, x, y) && (forall|t: int|
                    0 <= t < s ==> !#[trigger] self.sprite_paints(t, x, y)) ==> self.frame_color(x, y) == if self.oam[4
                    * s + 2] & 0x20 != 0 && self.bg_opaque(x, y) {
                    self.bg_color(x, y)
                } else {
                    self.palette[0x10 + (self.oam[4 * s + 2] & 0x03) as int * 4 + self.sprite_pixel(s, x, y) as int]
                },
    {
        self.lemma_front_sprite(0, x, y);
        assert forall|s: int|
            0 <= s < 64 && self.mask & 0x10 != 0 && #[trigger] self.sprite_paints(s, x, y) && (forall|t: int|
                0 <= t < s ==> !#[trigger] self.sprite_paints(t, x, y)) implies self.frame_color(x, y) == if self.oam[4
                * s + 2] & 0x20 != 0 && self.bg_opaque(x, y) {
                self.bg_color(x, y)
            } else {
                self.palette[0x10 + (self.oam[4 * s + 2] & 0x03) as int * 4 + self.sprite_pixel(s, x, y) as int]
            } by {
            match self.front_sprite_from(0, x, y) {
                Some(f) => {
                    if f < s {
                    } else if s < f {
                        assert(!self.sprite_paints(s, x, y));
                    }
                },
                None => {},
            }
        }
    }
}

} // verus!
