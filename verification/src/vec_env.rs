use vstd::prelude::*;

use crate::area::{area_bin, area_mean, area_sum, bin_end, bin_start, lemma_bin_bounds, lemma_block_mean_fits};
use crate::emulator::{action_of, signed_byte, MarioAction, NesEmulator, RGB_CHANNELS, VISIBLE_FRAME_HEIGHT, VISIBLE_FRAME_WIDTH};
use crate::ppu::Ppu;
use crate::render::{lemma_pix_cover, plane_count};

verus! {

/// The shape of a batch of environments and of the observations they give:
/// how many frames each step advances, whether frames are gray or RGB, how
/// many are stacked, the rows cropped off the visible frame and the size
/// frames are resized to.
#[derive(Clone, Copy, Debug)]
pub struct VecEnvConfig {
    pub num_envs: usize,
    pub frame_skip: usize,
    pub grayscale: bool,
    pub frame_stack: usize,
    pub terminate_on_flag: bool,
    pub crop_top: usize,
    pub crop_bottom: usize,
    pub resize_width: usize,
    pub resize_height: usize,
}

impl VecEnvConfig {
    /// The crops leave part of the 224 visible rows.
    pub open spec fn crops_fit(&self) -> bool {
        self.crop_top + self.crop_bottom <= VISIBLE_FRAME_HEIGHT
    }

    /// The visible rows that remain after cropping.
    pub open spec fn source_rows(&self) -> int {
        VISIBLE_FRAME_HEIGHT - self.crop_top - self.crop_bottom
    }

    /// The number of planes one observation holds: one per stacked frame,
    /// three per frame when in color.
    pub open spec fn planes(&self) -> int {
        if self.grayscale {
            self.frame_stack as int
        } else {
            self.frame_stack * 3
        }
    }

    /// The bytes of one frame of the observation.
    pub open spec fn frame_bytes(&self) -> int {
        if self.grayscale {
            self.resize_width * self.resize_height
        } else {
            self.resize_width * self.resize_height * 3
        }
    }

    /// The bytes of one rendered, not yet resized frame.
    pub open spec fn native_bytes(&self) -> int {
        if self.grayscale {
            VISIBLE_FRAME_WIDTH * self.source_rows()
        } else {
            VISIBLE_FRAME_WIDTH * self.source_rows() * 3
        }
    }

    /// The width of the frames before resizing: the visible 240 columns.
    pub fn source_width(&self) -> (w: usize)
        ensures
            w == VISIBLE_FRAME_WIDTH,
    {
        VISIBLE_FRAME_WIDTH
    }

    /// The height of the frames before resizing: the visible 224 rows less
    /// the crops.
    pub fn source_height(&self) -> (h: usize)
        requires
            self.crops_fit(),
        ensures
            h == self.source_rows(),
    {
        VISIBLE_FRAME_HEIGHT - self.crop_top - self.crop_bottom
    }

    /// The width of an observation frame.
    pub fn obs_width(&self) -> (w: usize)
        ensures
            w == self.resize_width,
    {
        self.resize_width
    }

    /// The height of an observation frame.
    pub fn obs_height(&self) -> (h: usize)
        ensures
            h == self.resize_height,
    {
        self.resize_height
    }

    /// The number of planes of one observation.
    pub fn channels(&self) -> (c: usize)
        requires
            self.planes() <= usize::MAX,
        ensures
            c == self.planes(),
    {
        if self.grayscale {
            self.frame_stack
        } else {
            self.frame_stack * RGB_CHANNELS
        }
    }

    /// The bytes of one environment's observation: planes times height
    /// times width.
    pub fn obs_len_per_env(&self) -> (n: usize)
        requires
            self.planes() * self.resize_height * self.resize_width <= usize::MAX,
        ensures
            n == self.planes() * self.resize_height * self.resize_width,
    {
        if self.resize_height == 0 || self.resize_width == 0 {
            assert(self.planes() * self.resize_height * self.resize_width == 0) by (nonlinear_arith)
                requires
                    self.resize_height == 0 || self.resize_width == 0,
            ;
            return 0;
        }
        assert(self.planes() <= self.planes() * self.resize_height <= self.planes() * self.resize_height
            * self.resize_width) by (nonlinear_arith)
            requires
                self.resize_height >= 1,
                self.resize_width >= 1,
                self.planes() >= 0,
        ;
        self.channels() * self.obs_height() * self.obs_width()
    }

    /// Whether frames must be resized: the observation size differs from
    /// the cropped visible frame.
    pub fn needs_resize(&self) -> (r: bool)
        requires
            self.crops_fit(),
        ensures
            r == (self.resize_width != VISIBLE_FRAME_WIDTH || self.resize_height != self.source_rows()),
    {
        self.resize_width != self.source_width() || self.resize_height != self.source_height()
    }

    /// Whether the fixed 84x84 gray writer serves the observations; it is
    /// never selected.
    pub fn uses_default_gray_area_resize(&self) -> (r: bool)
        ensures
            !r,
    {
        false
    }
}

/// The source block that one output pixel of an area resize averages, and
/// its size.
pub struct AreaResizeBin {
    pub x0: usize,
    pub x1: usize,
    pub y0: usize,
    pub y1: usize,
    pub count: u32,
}

/// The bins of an area resize from `src_width x src_height` to
/// `dst_width x dst_height`, one per output pixel in row order.
pub struct AreaResizePlan {
    pub src_width: usize,
    pub src_height: usize,
    pub dst_width: usize,
    pub dst_height: usize,
    pub bins: Vec<AreaResizeBin>,
}

impl AreaResizeBin {
    /// The bin of output pixel `(dx, dy)`.
    pub open spec fn is_bin(&self, sw: int, sh: int, dw: int, dh: int, dx: int, dy: int) -> bool {
        &&& self.x0 == bin_start(dx, sw, dw)
        &&& self.x1 == bin_end(dx, sw, dw)
        &&& self.y0 == bin_start(dy, sh, dh)
        &&& self.y1 == bin_end(dy, sh, dh)
        &&& self.count == ((self.x1 - self.x0) * (self.y1 - self.y0)) as u32
    }
}

impl AreaResizePlan {
    /// The bin bounds are computable in `usize`, and bin `i` is the bin of
    /// output pixel `(i % dst_width, i / dst_width)`.
    pub open spec fn wf(&self) -> bool {
        &&& self.dst_width * self.src_width <= usize::MAX
        &&& self.dst_height * self.src_height <= usize::MAX
        &&& self.src_width * self.src_height <= usize::MAX
        &&& self.bins@.len() == self.dst_width * self.dst_height
        &&& forall|i: int|
            0 <= i < self.bins@.len() ==> #[trigger] self.bins@[i].is_bin(
                self.src_width as int,
                self.src_height as int,
                self.dst_width as int,
                self.dst_height as int,
                i % self.dst_width as int,
                i / self.dst_width as int,
            )
    }

    /// A resize with this plan can sum every bin in a `u32` and divide by
    /// its size: the source is not empty and no bin holds more bytes than
    /// 255 of them summed fit in a `u32`.
    pub open spec fn sums_fit(&self) -> bool {
        &&& 1 <= self.src_width
        &&& 1 <= self.src_height
        &&& forall|i: int|
            0 <= i < self.bins@.len() ==> 255 * ((#[trigger] self.bins@[i].x1 - self.bins@[i].x0) * (
            self.bins@[i].y1 - self.bins@[i].y0)) <= 0xffff_ffff
    }

    /// Computes the bins of every output pixel.
    pub fn new(src_width: usize, src_height: usize, dst_width: usize, dst_height: usize) -> (plan: Self)
        requires
            dst_width * src_width <= usize::MAX,
            dst_height * src_height <= usize::MAX,
            src_width * src_height <= usize::MAX,
        ensures
            plan.wf(),
            plan.src_width == src_width,
            plan.src_height == src_height,
            plan.dst_width == dst_width,
            plan.dst_height == dst_height,
            1 <= src_width && 1 <= src_height && 255 * (src_width * src_height) <= 0xffff_ffff ==> plan.sums_fit(),
    {
        let mut bins: Vec<AreaResizeBin> = Vec::new();
        assert(0 * dst_width == 0);
        for dy in 0..dst_height
            invariant
                dst_width * src_width <= usize::MAX,
                dst_height * src_height <= usize::MAX,
                src_width * src_height <= usize::MAX,
                bins@.len() == dy * dst_width,
                forall|i: int|
                    0 <= i < bins@.len() ==> (#[trigger] bins@[i]).x0 <= bins@[i].x1 <= src_width && bins@[i].y0
                        <= bins@[i].y1 <= src_height,
                forall|i: int|
                    0 <= i < bins@.len() ==> #[trigger] bins@[i].is_bin(
                        src_width as int,
                        src_height as int,
                        dst_width as int,
                        dst_height as int,
                        i % dst_width as int,
                        i / dst_width as int,
                    ),
        {
            let (y0, y1) = area_bin(dy, src_height, dst_height);
            for dx in 0..dst_width
                invariant
                    dst_width * src_width <= usize::MAX,
                    dst_height * src_height <= usize::MAX,
                    src_width * src_height <= usize::MAX,
                    dy < dst_height,
                    y0 == bin_start(dy as int, src_height as int, dst_height as int),
                    y1 == bin_end(dy as int, src_height as int, dst_height as int),
                    y0 <= y1 <= src_height,
                    src_height >= 1 ==> y0 < y1,
                    bins@.len() == dy * dst_width + dx,
                    forall|i: int|
                        0 <= i < bins@.len() ==> (#[trigger] bins@[i]).x0 <= bins@[i].x1 <= src_width && bins@[i].y0
                            <= bins@[i].y1 <= src_height,
                    forall|i: int|
                        0 <= i < bins@.len() ==> #[trigger] bins@[i].is_bin(
                            src_width as int,
                            src_height as int,
                            dst_width as int,
                            dst_height as int,
                            i % dst_width as int,
                            i / dst_width as int,
                        ),
            {
                let (x0, x1) = area_bin(dx, src_width, dst_width);
                assert((x1 - x0) * (y1 - y0) <= src_width * src_height) by (nonlinear_arith)
                    requires
                        x0 <= x1 <= src_width,
                        y0 <= y1 <= src_height,
                ;
                proof {
                    vstd::arithmetic::div_mod::lemma_fundamental_div_mod_converse(
                        (dy * dst_width + dx) as int,
                        dst_width as int,
                        dy as int,
                        dx as int,
                    );
                }
                bins.push(AreaResizeBin { x0, x1, y0, y1, count: ((x1 - x0) * (y1 - y0)) as u32 });
            }
            assert(dy * dst_width + dst_width == (dy + 1) * dst_width) by (nonlinear_arith);
        }
        assert(dst_height * dst_width == dst_width * dst_height) by (nonlinear_arith);
        proof {
            if 1 <= src_width && 1 <= src_height && 255 * (src_width * src_height) <= 0xffff_ffff {
                assert forall|i: int| 0 <= i < bins@.len() implies 255 * ((#[trigger] bins@[i].x1 - bins@[i].x0) * (
                bins@[i].y1 - bins@[i].y0)) <= 0xffff_ffff by {
                    let b = bins@[i];
                    assert((b.x1 - b.x0) * (b.y1 - b.y0) <= src_width * src_height) by (nonlinear_arith)
                        requires
                            b.x0 <= b.x1 <= src_width,
                            b.y0 <= b.y1 <= src_height,
                    ;
                }
            }
        }
        AreaResizePlan { src_width, src_height, dst_width, dst_height, bins }
    }
}

/// Area-resizes the plane at `src_offset` in `src` into the plane at
/// `dst_offset` in `dst`, each output pixel the mean (rounded down) of its
/// bin.
pub fn resize_plane_area(src: &[u8], dst: &mut [u8], plan: &AreaResizePlan, src_offset: usize, dst_offset: usize)
    requires
        plan.wf(),
        plan.sums_fit(),
        src_offset + plan.src_width * plan.src_height <= src@.len(),
        dst_offset + plan.dst_width * plan.dst_height <= old(dst)@.len(),
    ensures
        final(dst)@.len() == old(dst)@.len(),
        forall|i: int|
            0 <= i < plan.dst_width * plan.dst_height ==> #[trigger] final(dst)@[dst_offset + i] as int == area_mean(
                src@,
                src_offset as int,
                plan.src_width as int,
                plan.src_height as int,
                plan.dst_width as int,
                plan.dst_height as int,
                i % plan.dst_width as int,
                i / plan.dst_width as int,
            ),
        forall|j: int|
            0 <= j < old(dst)@.len() && !(dst_offset <= j < dst_offset + plan.dst_width * plan.dst_height)
                ==> #[trigger] final(dst)@[j] == old(dst)@[j],
{
    let ghost old_dst = dst@;
    let dst_len = dst.len();
    let n = plan.bins.len();
    let ghost sw = plan.src_width as int;
    let ghost sh = plan.src_height as int;
    let ghost dw = plan.dst_width as int;
    let ghost dh = plan.dst_height as int;
    for dst_i in 0..n
        invariant
            plan.wf(),
            plan.sums_fit(),
            n == plan.bins@.len(),
            n == dw * dh,
            sw == plan.src_width,
            sh == plan.src_height,
            dw == plan.dst_width,
            dh == plan.dst_height,
            src_offset + sw * sh <= src@.len(),
            dst_offset + n <= old_dst.len(),
            dst_len == old_dst.len(),
            dst@.len() == old_dst.len(),
            forall|i: int|
                0 <= i < dst_i ==> #[trigger] dst@[dst_offset + i] as int == area_mean(
                    src@,
                    src_offset as int,
                    sw,
                    sh,
                    dw,
                    dh,
                    i % dw,
                    i / dw,
                ),
            forall|j: int|
                0 <= j < old_dst.len() && !(dst_offset <= j < dst_offset + dst_i) ==> #[trigger] dst@[j]
                    == old_dst[j],
    {
        let bin = &plan.bins[dst_i];
        let ghost dx = dst_i as int % dw;
        let ghost dy = dst_i as int / dw;
        assert(bin.is_bin(sw, sh, dw, dh, dx, dy));
        proof {
            assert(dw > 0) by (nonlinear_arith)
                requires
                    n == dw * dh,
                    dst_i < n,
                    dw >= 0,
                    dh >= 0,
            ;
            vstd::arithmetic::div_mod::lemma_fundamental_div_mod(dst_i as int, dw);
            assert(dy < dh) by (nonlinear_arith)
                requires
                    dst_i == dw * dy + dx,
                    0 <= dx < dw,
                    dst_i < dw * dh,
            ;
            assert(0 <= dy) by (nonlinear_arith)
                requires
                    dst_i == dw * dy + dx,
                    0 <= dx < dw,
                    dst_i >= 0,
            ;
            lemma_bin_bounds(dx, sw, dw);
            lemma_bin_bounds(dy, sh, dh);
            assert(src_offset + bin.y1 * sw <= src_offset + sw * sh) by (nonlinear_arith)
                requires
                    bin.y1 <= sh,
                    sw >= 1,
            ;
            assert(1 <= (bin.x1 - bin.x0) * (bin.y1 - bin.y0) <= sw * sh) by (nonlinear_arith)
                requires
                    bin.x0 < bin.x1 <= sw,
                    bin.y0 < bin.y1 <= sh,
            ;
            assert(255 * ((plan.bins@[dst_i as int].x1 - plan.bins@[dst_i as int].x0) * (plan.bins@[dst_i as int].y1
                - plan.bins@[dst_i as int].y0)) <= 0xffff_ffff);
            assert(bin.count == (bin.x1 - bin.x0) * (bin.y1 - bin.y0));
            lemma_block_mean_fits(src@, src_offset as int, sw, bin.x0 as int, bin.x1 as int, bin.y0 as int, bin.y1 as int);
        }
        let sum = area_sum(src, src_offset, plan.src_width, bin.x0, bin.x1, bin.y0, bin.y1);
        let ghost dst0 = dst@;
        dst[dst_offset + dst_i] = (sum / bin.count) as u8;
        assert forall|i: int| 0 <= i < dst_i + 1 implies #[trigger] dst@[dst_offset + i] as int == area_mean(
            src@,
            src_offset as int,
            sw,
            sh,
            dw,
            dh,
            i % dw,
            i / dw,
        ) by {
            if i < dst_i {
                assert(dst@[dst_offset + i] == dst0[dst_offset + i]);
            }
        }
    }
}

/// Area-resizes a rendered frame into an observation frame: one plane when
/// gray, three when in color.
pub fn resize_frame_area(config: VecEnvConfig, plan: &AreaResizePlan, src: &[u8], dst: &mut [u8])
    requires
        plan.wf(),
        plan.sums_fit(),
        src@.len() >= (if config.grayscale { 1int } else { 3 }) * (plan.src_width * plan.src_height),
        old(dst)@.len() >= (if config.grayscale { 1int } else { 3 }) * (plan.dst_width * plan.dst_height),
    ensures
        final(dst)@.len() == old(dst)@.len(),
        forall|c: int, i: int|
            0 <= c < (if config.grayscale { 1int } else { 3 }) && 0 <= i < plan.dst_width * plan.dst_height
                ==> #[trigger] final(dst)@[c * (plan.dst_width * plan.dst_height) + i] as int == area_mean(
                src@,
                c * (plan.src_width * plan.src_height),
                plan.src_width as int,
                plan.src_height as int,
                plan.dst_width as int,
                plan.dst_height as int,
                i % plan.dst_width as int,
                i / plan.dst_width as int,
            ),
        forall|j: int|
            (if config.grayscale { 1int } else { 3 }) * (plan.dst_width * plan.dst_height) <= j < old(dst)@.len()
                ==> #[trigger] final(dst)@[j] == old(dst)@[j],
{
    if config.grayscale {
        resize_plane_area(src, dst, plan, 0, 0);
        assert forall|c: int, i: int|
            0 <= c < 1 && 0 <= i < plan.dst_width * plan.dst_height implies #[trigger] dst@[c * (
            plan.dst_width * plan.dst_height) + i] as int == area_mean(
            src@,
            c * (plan.src_width * plan.src_height),
            plan.src_width as int,
            plan.src_height as int,
            plan.dst_width as int,
            plan.dst_height as int,
            i % plan.dst_width as int,
            i / plan.dst_width as int,
        ) by {
            assert(c == 0);
            assert(dst@[0 + i] == dst@[c * (plan.dst_width * plan.dst_height) + i]);
        }
    } else {
        let src_plane = plan.src_width * plan.src_height;
        let dst_plane = plan.bins.len();
        let ghost old_dst = dst@;
        let dst_len = dst.len();
        let src_len = src.len();
        for channel in 0..RGB_CHANNELS
            invariant
                src_len == src@.len(),
                plan.wf(),
                plan.sums_fit(),
                !config.grayscale,
                src_plane == plan.src_width * plan.src_height,
                dst_plane == plan.dst_width * plan.dst_height,
                src@.len() >= 3 * src_plane,
                old_dst.len() >= 3 * dst_plane,
                dst_len == old_dst.len(),
                dst@.len() == old_dst.len(),
                forall|c: int, i: int|
                    0 <= c < channel && 0 <= i < dst_plane ==> #[trigger] dst@[c * dst_plane + i] as int
                        == area_mean(
                        src@,
                        c * src_plane,
                        plan.src_width as int,
                        plan.src_height as int,
                        plan.dst_width as int,
                        plan.dst_height as int,
                        i % plan.dst_width as int,
                        i / plan.dst_width as int,
                    ),
                forall|j: int| channel * dst_plane <= j < old_dst.len() ==> #[trigger] dst@[j] == old_dst[j],
        {
            let ghost dst0 = dst@;
            assert(channel * src_plane + src_plane <= 3 * src_plane) by (nonlinear_arith)
                requires
                    channel < 3,
                    src_plane >= 0,
            ;
            assert(channel * dst_plane + dst_plane <= 3 * dst_plane) by (nonlinear_arith)
                requires
                    channel < 3,
                    dst_plane >= 0,
            ;
            resize_plane_area(src, dst, plan, channel * src_plane, channel * dst_plane);
            assert forall|c: int, i: int|
                0 <= c < channel + 1 && 0 <= i < dst_plane implies #[trigger] dst@[c * dst_plane + i] as int
                    == area_mean(
                    src@,
                    c * src_plane,
                    plan.src_width as int,
                    plan.src_height as int,
                    plan.dst_width as int,
                    plan.dst_height as int,
                    i % plan.dst_width as int,
                    i / plan.dst_width as int,
                ) by {
                if c < channel {
                    assert(c * dst_plane + i < channel * dst_plane) by (nonlinear_arith)
                        requires
                            c < channel,
                            i < dst_plane,
                    ;
                    assert(0 <= c * dst_plane + i) by (nonlinear_arith)
                        requires
                            0 <= c,
                            0 <= i,
                            dst_plane >= 0,
                    ;
                    assert(dst@[c * dst_plane + i] == dst0[c * dst_plane + i]);
                }
            }
            assert forall|j: int| (channel + 1) * dst_plane <= j < old_dst.len() implies #[trigger] dst@[j]
                == old_dst[j] by {
                assert((channel + 1) * dst_plane == channel * dst_plane + dst_plane) by (nonlinear_arith);
                assert(dst@[j] == dst0[j]);
            }
        }
    }
}


/// Whether `a` and `b` are the same text.
fn same_text(a: &str, b: &str) -> (same: bool)
    ensures
        same == (a@ == b@),
{
    let a_owned = a.to_owned();
    let b_owned = b.to_owned();
    a_owned == b_owned
}

/// A RAM-derived quantity of the game that the environment reports.
#[derive(Clone, Copy, Debug, PartialEq, Eq, Structural)]
pub enum InfoKey {
    XPos,
    Coins,
    LevelHi,
    LevelLo,
    Lives,
    Score,
    Scrolling,
    Time,
    XScrollHi,
    XScrollLo,
}

/// The name of an info key.
pub open spec fn info_key_name(key: InfoKey) -> Seq<char> {
    match key {
        InfoKey::XPos => "x_pos"@,
        InfoKey::Coins => "coins"@,
        InfoKey::LevelHi => "levelHi"@,
        InfoKey::LevelLo => "levelLo"@,
        InfoKey::Lives => "lives"@,
        InfoKey::Score => "score"@,
        InfoKey::Scrolling => "scrolling"@,
        InfoKey::Time => "time"@,
        InfoKey::XScrollHi => "xscrollHi"@,
        InfoKey::XScrollLo => "xscrollLo"@,
    }
}

/// The info key with the given name, if any.
pub open spec fn info_key_named(name: Seq<char>) -> Option<InfoKey> {
    if name == "x_pos"@ {
        Some(InfoKey::XPos)
    } else if name == "coins"@ {
        Some(InfoKey::Coins)
    } else if name == "levelHi"@ {
        Some(InfoKey::LevelHi)
    } else if name == "levelLo"@ {
        Some(InfoKey::LevelLo)
    } else if name == "lives"@ {
        Some(InfoKey::Lives)
    } else if name == "score"@ {
        Some(InfoKey::Score)
    } else if name == "scrolling"@ {
        Some(InfoKey::Scrolling)
    } else if name == "time"@ {
        Some(InfoKey::Time)
    } else if name == "xscrollHi"@ {
        Some(InfoKey::XScrollHi)
    } else if name == "xscrollLo"@ {
        Some(InfoKey::XScrollLo)
    } else {
        None
    }
}

impl InfoKey {
    /// The key with the given name; `None` for an unknown name.
    pub fn from_name(name: &str) -> (key: Option<Self>)
        ensures
            key == info_key_named(name@),
    {
        if same_text(name, "x_pos") {
            Some(Self::XPos)
        } else if same_text(name, "coins") {
            Some(Self::Coins)
        } else if same_text(name, "levelHi") {
            Some(Self::LevelHi)
        } else if same_text(name, "levelLo") {
            Some(Self::LevelLo)
        } else if same_text(name, "lives") {
            Some(Self::Lives)
        } else if same_text(name, "score") {
            Some(Self::Score)
        } else if same_text(name, "scrolling") {
            Some(Self::Scrolling)
        } else if same_text(name, "time") {
            Some(Self::Time)
        } else if same_text(name, "xscrollHi") {
            Some(Self::XScrollHi)
        } else if same_text(name, "xscrollLo") {
            Some(Self::XScrollLo)
        } else {
            None
        }
    }

    /// The name of this key.
    pub fn name(self) -> (name: &'static str)
        ensures
            name@ == info_key_name(self),
    {
        match self {
            Self::XPos => "x_pos",
            Self::Coins => "coins",
            Self::LevelHi => "levelHi",
            Self::LevelLo => "levelLo",
            Self::Lives => "lives",
            Self::Score => "score",
            Self::Scrolling => "scrolling",
            Self::Time => "time",
            Self::XScrollHi => "xscrollHi",
            Self::XScrollLo => "xscrollLo",
        }
    }
}

/// How a watched info value must move from its baseline for a rule to end
/// the episode.
#[derive(Clone, Copy, Debug, PartialEq, Eq, Structural)]
pub enum DoneOnInfoOp {
    Change,
    Increase,
    Decrease,
}

/// The name of a rule operator.
pub open spec fn done_op_name(op: DoneOnInfoOp) -> Seq<char> {
    match op {
        DoneOnInfoOp::Change => "change"@,
        DoneOnInfoOp::Increase => "increase"@,
        DoneOnInfoOp::Decrease => "decrease"@,
    }
}

/// The rule operator with the given name, if any.
pub open spec fn done_op_named(name: Seq<char>) -> Option<DoneOnInfoOp> {
    if name == "change"@ {
        Some(DoneOnInfoOp::Change)
    } else if name == "increase"@ {
        Some(DoneOnInfoOp::Increase)
    } else if name == "decrease"@ {
        Some(DoneOnInfoOp::Decrease)
    } else {
        None
    }
}

impl DoneOnInfoOp {
    /// The operator with the given name; `None` for an unknown name.
    pub fn from_name(name: &str) -> (op: Option<Self>)
        ensures
            op == done_op_named(name@),
    {
        if same_text(name, "change") {
            Some(Self::Change)
        } else if same_text(name, "increase") {
            Some(Self::Increase)
        } else if same_text(name, "decrease") {
            Some(Self::Decrease)
        } else {
            None
        }
    }

    /// The name of this operator.
    pub fn name(self) -> (name: &'static str)
        ensures
            name@ == done_op_name(self),
    {
        match self {
            Self::Change => "change",
            Self::Increase => "increase",
            Self::Decrease => "decrease",
        }
    }
}

/// A rule that ends an episode when any of its keys moves from the value
/// it had when the episode started, as its operator says.
#[derive(Clone, Debug)]
pub struct DoneOnInfoRule {
    pub name: String,
    pub keys: Vec<InfoKey>,
    pub op: DoneOnInfoOp,
}

/// A rule that fired, with the baseline and current value of each of its
/// keys.
#[derive(Clone, Debug)]
pub struct FiredDoneOnInfoRule {
    pub name: String,
    pub keys: Vec<InfoKey>,
    pub op: DoneOnInfoOp,
    pub previous_values: Vec<i64>,
    pub current_values: Vec<i64>,
}

/// A fired rule as plain values: name, keys, operator, baseline and
/// current values.
pub struct FiredView {
    pub name: Seq<char>,
    pub keys: Seq<InfoKey>,
    pub op: DoneOnInfoOp,
    pub previous_values: Seq<i64>,
    pub current_values: Seq<i64>,
}

impl FiredDoneOnInfoRule {
    pub open spec fn view(&self) -> FiredView {
        FiredView {
            name: self.name@,
            keys: self.keys@,
            op: self.op,
            previous_values: self.previous_values@,
            current_values: self.current_values@,
        }
    }
}

/// The info values of an emulator at one moment.
#[derive(Clone, Copy, Debug)]
pub struct InfoSnapshot {
    pub x_pos: i64,
    pub coins: i64,
    pub level_hi: i64,
    pub level_lo: i64,
    pub lives: i64,
    pub score: i64,
    pub scrolling: i64,
    pub time: i64,
    pub xscroll_hi: i64,
    pub xscroll_lo: i64,
}

/// The info values an emulator reports.
pub open spec fn snapshot_of(env: NesEmulator) -> InfoSnapshot {
    InfoSnapshot {
        x_pos: env.x_pos as i64,
        coins: env.coins as i64,
        level_hi: env.level_hi as i64,
        level_lo: env.level_lo as i64,
        lives: env.lives as i64,
        score: env.score as i64,
        scrolling: env.scrolling as i64,
        time: env.time as i64,
        xscroll_hi: env.xscroll_hi as i64,
        xscroll_lo: env.xscroll_lo as i64,
    }
}

/// The value of `key` in a snapshot.
pub open spec fn snapshot_value(s: InfoSnapshot, key: InfoKey) -> i64 {
    match key {
        InfoKey::XPos => s.x_pos,
        InfoKey::Coins => s.coins,
        InfoKey::LevelHi => s.level_hi,
        InfoKey::LevelLo => s.level_lo,
        InfoKey::Lives => s.lives,
        InfoKey::Score => s.score,
        InfoKey::Scrolling => s.scrolling,
        InfoKey::Time => s.time,
        InfoKey::XScrollHi => s.xscroll_hi,
        InfoKey::XScrollLo => s.xscroll_lo,
    }
}

impl InfoSnapshot {
    /// The all-zero snapshot.
    pub fn zeroed() -> (s: Self)
        ensures
            s.x_pos == 0,
            s.coins == 0,
            s.level_hi == 0,
            s.level_lo == 0,
            s.lives == 0,
            s.score == 0,
            s.scrolling == 0,
            s.time == 0,
            s.xscroll_hi == 0,
            s.xscroll_lo == 0,
    {
        InfoSnapshot {
            x_pos: 0,
            coins: 0,
            level_hi: 0,
            level_lo: 0,
            lives: 0,
            score: 0,
            scrolling: 0,
            time: 0,
            xscroll_hi: 0,
            xscroll_lo: 0,
        }
    }

    /// The info values `env` reports now.
    pub fn from_env(env: &NesEmulator) -> (s: Self)
        ensures
            s == snapshot_of(*env),
    {
        InfoSnapshot {
            x_pos: env.x_pos() as i64,
            coins: env.coins() as i64,
            level_hi: env.level_hi() as i64,
            level_lo: env.level_lo() as i64,
            lives: env.lives() as i64,
            score: env.score() as i64,
            scrolling: env.scrolling() as i64,
            time: env.time() as i64,
            xscroll_hi: env.xscroll_hi() as i64,
            xscroll_lo: env.xscroll_lo() as i64,
        }
    }

    /// The value of `key`.
    pub fn value(self, key: InfoKey) -> (v: i64)
        ensures
            v == snapshot_value(self, key),
    {
        match key {
            InfoKey::XPos => self.x_pos,
            InfoKey::Coins => self.coins,
            InfoKey::LevelHi => self.level_hi,
            InfoKey::LevelLo => self.level_lo,
            InfoKey::Lives => self.lives,
            InfoKey::Score => self.score,
            InfoKey::Scrolling => self.scrolling,
            InfoKey::Time => self.time,
            InfoKey::XScrollHi => self.xscroll_hi,
            InfoKey::XScrollLo => self.xscroll_lo,
        }
    }
}

/// Whether a value that moved from `baseline` to `current` fires `op`.
pub open spec fn op_fires(op: DoneOnInfoOp, baseline: i64, current: i64) -> bool {
    match op {
        DoneOnInfoOp::Change => current != baseline,
        DoneOnInfoOp::Increase => current > baseline,
        DoneOnInfoOp::Decrease => current < baseline,
    }
}

/// The rule operators: Change fires when the value moved, Increase when
/// it went up, Decrease when it went down. So Change is Increase or
/// Decrease, the two never fire together, a value that stays fires
/// nothing, and Increase from `b` to `c` is Decrease from `c` to `b`.
pub proof fn lemma_rule_operators(baseline: i64, current: i64)
    ensures
        op_fires(DoneOnInfoOp::Decrease, baseline, current) <==> current < baseline,
        op_fires(DoneOnInfoOp::Increase, baseline, current) <==> current > baseline,
        op_fires(DoneOnInfoOp::Change, baseline, current) <==> current != baseline,
        op_fires(DoneOnInfoOp::Change, baseline, current) <==> (op_fires(DoneOnInfoOp::Increase, baseline, current)
            || op_fires(DoneOnInfoOp::Decrease, baseline, current)),
        !(op_fires(DoneOnInfoOp::Increase, baseline, current) && op_fires(DoneOnInfoOp::Decrease, baseline, current)),
        op_fires(DoneOnInfoOp::Increase, baseline, current) == op_fires(DoneOnInfoOp::Decrease, current, baseline),
        !op_fires(DoneOnInfoOp::Change, baseline, baseline),
{
}

/// Whether a value that moved from `baseline` to `current` fires `op`.
pub fn done_on_info_value_fired(op: DoneOnInfoOp, baseline: i64, current: i64) -> (fired: bool)
    ensures
        fired == op_fires(op, baseline, current),
        op == DoneOnInfoOp::Change ==> (fired <==> current != baseline),
        op == DoneOnInfoOp::Increase ==> (fired <==> current > baseline),
        op == DoneOnInfoOp::Decrease ==> (fired <==> current < baseline),
{
    match op {
        DoneOnInfoOp::Change => current != baseline,
        DoneOnInfoOp::Increase => current > baseline,
        DoneOnInfoOp::Decrease => current < baseline,
    }
}

/// Rule `rule` fires: one of its keys moved as its operator says.
pub open spec fn rule_fires(rule: DoneOnInfoRule, baseline: InfoSnapshot, current: InfoSnapshot) -> bool {
    exists|j: int|
        0 <= j < rule.keys@.len() && op_fires(
            rule.op,
            snapshot_value(baseline, #[trigger] rule.keys@[j]),
            snapshot_value(current, rule.keys@[j]),
        )
}

/// The record of rule `rule` firing.
pub open spec fn fired_record(rule: DoneOnInfoRule, baseline: InfoSnapshot, current: InfoSnapshot) -> FiredView {
    FiredView {
        name: rule.name@,
        keys: rule.keys@,
        op: rule.op,
        previous_values: rule.keys@.map_values(|k: InfoKey| snapshot_value(baseline, k)),
        current_values: rule.keys@.map_values(|k: InfoKey| snapshot_value(current, k)),
    }
}

/// The records of the rules that fire, in rule order.
pub open spec fn fired_log(rules: Seq<DoneOnInfoRule>, baseline: InfoSnapshot, current: InfoSnapshot) -> Seq<FiredView>
    decreases rules.len(),
{
    if rules.len() == 0 {
        seq![]
    } else {
        let rest = fired_log(rules.drop_last(), baseline, current);
        if rule_fires(rules.last(), baseline, current) {
            rest.push(fired_record(rules.last(), baseline, current))
        } else {
            rest
        }
    }
}

/// Some rule fires.
pub open spec fn any_rule_fires(rules: Seq<DoneOnInfoRule>, baseline: InfoSnapshot, current: InfoSnapshot) -> bool {
    exists|i: int| 0 <= i < rules.len() && rule_fires(#[trigger] rules[i], baseline, current)
}

/// The views of a list of fired rules.
pub open spec fn fired_views(v: Seq<FiredDoneOnInfoRule>) -> Seq<FiredView> {
    v.map_values(|f: FiredDoneOnInfoRule| f.view())
}

/// Checks the rules against the info `env` reports now: appends a record
/// of each rule that fires to `fired_rules`, in rule order, and says
/// whether any fired.
pub fn check_done_on_info(
    env: &NesEmulator,
    baseline: InfoSnapshot,
    rules: &[DoneOnInfoRule],
    fired_rules: &mut Vec<FiredDoneOnInfoRule>,
) -> (fired_any: bool)
    ensures
        fired_any == any_rule_fires(rules@, baseline, snapshot_of(*env)),
        fired_views(final(fired_rules)@) == fired_views(old(fired_rules)@) + fired_log(
            rules@,
            baseline,
            snapshot_of(*env),
        ),
{
    if rules.is_empty() {
        assert(fired_log(rules@, baseline, snapshot_of(*env)) =~= seq![]);
        assert(fired_views(fired_rules@) =~= fired_views(fired_rules@) + seq![]);
        return false;
    }
    let current = InfoSnapshot::from_env(env);
    let ghost old_views = fired_views(fired_rules@);
    let mut fired_any = false;
    for r in 0..rules.len()
        invariant
            current == snapshot_of(*env),
            fired_any == any_rule_fires(rules@.subrange(0, r as int), baseline, current),
            fired_views(fired_rules@) == old_views + fired_log(rules@.subrange(0, r as int), baseline, current),
    {
        let rule = &rules[r];
        let mut fired = false;
        let mut previous_values: Vec<i64> = Vec::new();
        let mut current_values: Vec<i64> = Vec::new();
        let mut keys: Vec<InfoKey> = Vec::new();
        for j in 0..rule.keys.len()
            invariant
                rule == rules@[r as int],
                keys@ == rule.keys@.subrange(0, j as int),
                previous_values@ == rule.keys@.subrange(0, j as int).map_values(|k: InfoKey| snapshot_value(baseline, k)),
                current_values@ == rule.keys@.subrange(0, j as int).map_values(|k: InfoKey| snapshot_value(current, k)),
                fired == exists|t: int|
                    0 <= t < j && op_fires(
                        rule.op,
                        snapshot_value(baseline, #[trigger] rule.keys@[t]),
                        snapshot_value(current, rule.keys@[t]),
                    ),
        {
            let key = rule.keys[j];
            let previous = baseline.value(key);
            let next = current.value(key);
            previous_values.push(previous);
            current_values.push(next);
            keys.push(key);
            if done_on_info_value_fired(rule.op, previous, next) {
                fired = true;
            }
            assert(rule.keys@.subrange(0, j + 1) =~= rule.keys@.subrange(0, j as int).push(key));
        }
        assert(rule.keys@.subrange(0, rule.keys@.len() as int) =~= rule.keys@);
        let ghost views0 = fired_views(fired_rules@);
        assert(rules@.subrange(0, r + 1).drop_last() =~= rules@.subrange(0, r as int));
        if fired {
            fired_any = true;
            fired_rules.push(
                FiredDoneOnInfoRule {
                    name: rule.name.clone(),
                    keys,
                    op: rule.op,
                    previous_values,
                    current_values,
                },
            );
            assert(fired_views(fired_rules@) =~= views0.push(fired_record(*rule, baseline, current)));
        }
        assert(fired_any == any_rule_fires(rules@.subrange(0, r + 1), baseline, current)) by {
            if any_rule_fires(rules@.subrange(0, r + 1), baseline, current) {
                let i = choose|i: int|
                    0 <= i < r + 1 && rule_fires(#[trigger] rules@.subrange(0, r + 1)[i], baseline, current);
                if i < r {
                    assert(rules@.subrange(0, r as int)[i] == rules@.subrange(0, r + 1)[i]);
                }
            }
            if fired_any && !fired {
                let i = choose|i: int|
                    0 <= i < r && rule_fires(#[trigger] rules@.subrange(0, r as int)[i], baseline, current);
                assert(rules@.subrange(0, r + 1)[i] == rules@.subrange(0, r as int)[i]);
            }
            if fired {
                assert(rules@.subrange(0, r + 1)[r as int] == *rule);
            }
        }
        assert(fired_views(fired_rules@) == old_views + fired_log(rules@.subrange(0, r + 1), baseline, current));
    }
    assert(rules@.subrange(0, rules@.len() as int) =~= rules@);
    fired_any
}


impl VecEnvConfig {
    /// The configuration describes frames the writers can produce: the
    /// crops leave at least one row, at least one frame is stacked, and the
    /// observation sizes are positive and small enough to index.
    pub open spec fn wf(&self) -> bool {
        &&& self.crops_fit()
        &&& 1 <= self.source_rows()
        &&& 1 <= self.frame_stack
        &&& 1 <= self.resize_width
        &&& 1 <= self.resize_height
        &&& self.resize_width * VISIBLE_FRAME_WIDTH <= usize::MAX
        &&& self.resize_height * self.source_rows() <= usize::MAX
        &&& self.frame_stack * self.frame_bytes() <= usize::MAX
    }

    /// Frames must be resized.
    pub open spec fn resizes(&self) -> bool {
        self.resize_width != VISIBLE_FRAME_WIDTH || self.resize_height != self.source_rows()
    }

    /// `plan` resizes this configuration's rendered frames to its
    /// observation frames.
    pub open spec fn plan_fits(&self, plan: AreaResizePlan) -> bool {
        &&& plan.wf()
        &&& plan.sums_fit()
        &&& plan.src_width == VISIBLE_FRAME_WIDTH
        &&& plan.src_height == self.source_rows()
        &&& plan.dst_width == self.resize_width
        &&& plan.dst_height == self.resize_height
    }

    /// `native` is the rendered frame: the cropped visible window of the
    /// finished picture, gray or RGB.
    pub open spec fn native_ok(&self, ppu: Ppu, native: Seq<u8>) -> bool {
        ppu.frame_written(
            native,
            8 + self.crop_top,
            8,
            VISIBLE_FRAME_WIDTH as int,
            self.source_rows(),
            self.grayscale,
        )
    }

    /// `frame` is the area resize of `native`, plane by plane.
    pub open spec fn resized_ok(&self, native: Seq<u8>, frame: Seq<u8>) -> bool {
        let sw = VISIBLE_FRAME_WIDTH as int;
        let sh = self.source_rows();
        let dw = self.resize_width as int;
        let dh = self.resize_height as int;
        &&& frame.len() == plane_count(self.grayscale) * (dw * dh)
        &&& forall|c: int, i: int|
            0 <= c < plane_count(self.grayscale) && 0 <= i < dw * dh ==> #[trigger] frame[c * (dw * dh) + i]
                as int == area_mean(native, c * (sw * sh), sw, sh, dw, dh, i % dw, i / dw)
    }

    /// `frame` is the observation frame of the picture `ppu` shows: the
    /// rendered frame, resized when the sizes differ.
    pub open spec fn frame_ok(&self, ppu: Ppu, frame: Seq<u8>) -> bool {
        if self.resizes() {
            exists|native: Seq<u8>| self.native_ok(ppu, native) && self.resized_ok(native, frame)
        } else {
            self.native_ok(ppu, frame)
        }
    }
}

/// The rendered frame's layout: the 240-pixel-wide visible window starts 8
/// pixels in from the left and `8 + crop_top` lines down (the 8-pixel
/// overscan border is dropped); gray frames are one plane of bytes row by
/// row, color frames three planes (red, green, blue) of the same shape;
/// pixel `(x, y)` of plane `c` is the gray level or channel `c` of the
/// finished frame's palette byte at screen `(8 + x, 8 + crop_top + y)`.
pub proof fn lemma_native_frame_layout(config: VecEnvConfig, ppu: Ppu, native: Seq<u8>, c: int, x: int, y: int)
    requires
        config.native_ok(ppu, native),
        0 <= x < 240,
        0 <= y < 224 - config.crop_top - config.crop_bottom,
        0 <= c < if config.grayscale { 1int } else { 3 },
    ensures
        ({
            let rows = 224 - config.crop_top - config.crop_bottom;
            let color = ppu.frame_color(8 + x, 8 + config.crop_top + y);
            let byte = native[c * (240 * rows) + y * 240 + x];
            &&& native.len() == (if config.grayscale { 1int } else { 3 }) * (240 * rows)
            &&& config.grayscale ==> byte == crate::palette::gray_of(color)
            &&& !config.grayscale && c == 0 ==> byte == crate::palette::rgb_of(color).0
            &&& !config.grayscale && c == 1 ==> byte == crate::palette::rgb_of(color).1
            &&& !config.grayscale && c == 2 ==> byte == crate::palette::rgb_of(color).2
        }),
{
    let rows = 224 - config.crop_top - config.crop_bottom;
    assert(crate::render::pix(240, rows, c, x, y) == c * (240 * rows) + y * 240 + x);
    assert(native[crate::render::pix(240, rows, c, x, y)] == crate::render::shade(
        ppu.frame_color(8 + x, 8 + config.crop_top + y),
        crate::render::plane_channel(config.grayscale, c),
    ));
}

/// The bytes of one observation frame.
pub fn frame_len(config: VecEnvConfig) -> (n: usize)
    requires
        config.wf(),
    ensures
        n == config.frame_bytes(),
{
    assert(config.frame_bytes() <= config.frame_stack * config.frame_bytes()) by (nonlinear_arith)
        requires
            config.frame_stack >= 1,
            config.frame_bytes() >= 0,
    ;
    assert(config.resize_width * config.resize_height <= config.resize_width * config.resize_height * 3)
        by (nonlinear_arith);
    if config.grayscale {
        config.obs_width() * config.obs_height()
    } else {
        config.obs_width() * config.obs_height() * RGB_CHANNELS
    }
}

/// The bytes of one rendered frame.
pub fn native_frame_len(config: VecEnvConfig) -> (n: usize)
    requires
        config.wf(),
    ensures
        n == config.native_bytes(),
{
    assert(config.source_rows() <= 224);
    assert(VISIBLE_FRAME_WIDTH * config.source_rows() * 3 <= 240 * 224 * 3) by (nonlinear_arith)
        requires
            config.source_rows() <= 224,
    ;
    if config.grayscale {
        config.source_width() * config.source_height()
    } else {
        config.source_width() * config.source_height() * RGB_CHANNELS
    }
}

/// Renders the cropped visible frame of `env`, gray or RGB.
pub fn write_native_frame(config: VecEnvConfig, env: &NesEmulator, dst: &mut [u8])
    requires
        config.wf(),
        env.wf(),
        config.grayscale ==> env.ppu.palette_valid(),
        old(dst)@.len() == config.native_bytes(),
    ensures
        final(dst)@.len() == old(dst)@.len(),
        config.native_ok(env.ppu, final(dst)@),
{
    let height = config.source_height();
    if config.grayscale {
        env.write_gray_visible_frame_cropped(dst, config.crop_top, height);
    } else {
        assert(3 * (240 * height) == 240 * height * 3) by (nonlinear_arith);
        env.write_rgb_visible_frame_cropped(dst, config.crop_top, height);
    }
}

/// Writes the observation frame of `env` into `dst`, rendering into the
/// front of `scratch` first when the frame is resized.
pub fn write_current_frame(
    config: VecEnvConfig,
    resize_plan: &AreaResizePlan,
    env: &NesEmulator,
    scratch: &mut [u8],
    dst: &mut [u8],
)
    requires
        config.wf(),
        config.plan_fits(*resize_plan),
        env.wf(),
        config.grayscale ==> env.ppu.palette_valid(),
        config.resizes() ==> old(scratch)@.len() >= config.native_bytes(),
        old(dst)@.len() == config.frame_bytes(),
    ensures
        final(scratch)@.len() == old(scratch)@.len(),
        final(dst)@.len() == old(dst)@.len(),
        config.frame_ok(env.ppu, final(dst)@),
{
    if config.uses_default_gray_area_resize() {
        env.write_gray_frame_cropped_area_84x84(dst, scratch);
        return;
    }
    if config.needs_resize() {
        let native_len = native_frame_len(config);
        let (native, _rest) = scratch.split_at_mut(native_len);
        write_native_frame(config, env, native);
        assert(3 * (240 * config.source_rows()) == 240 * config.source_rows() * 3) by (nonlinear_arith);
        assert(3 * (config.resize_width * config.resize_height) == config.resize_width * config.resize_height
            * 3) by (nonlinear_arith);
        resize_frame_area(config, resize_plan, native, dst);
        assert(config.native_ok(env.ppu, native@) && config.resized_ok(native@, dst@));
    } else {
        write_native_frame(config, env, dst);
    }
}


/// Writes the observation frame of `env` into stack slot `slot` of
/// `obs_chunk`, leaving the other bytes as they were.
fn write_frame_to_slot(
    config: VecEnvConfig,
    resize_plan: &AreaResizePlan,
    env: &NesEmulator,
    scratch: &mut [u8],
    obs_chunk: &mut [u8],
    slot: usize,
)
    requires
        config.wf(),
        config.plan_fits(*resize_plan),
        env.wf(),
        config.grayscale ==> env.ppu.palette_valid(),
        config.resizes() ==> old(scratch)@.len() >= config.native_bytes(),
        slot < config.frame_stack,
        old(obs_chunk)@.len() == config.frame_stack * config.frame_bytes(),
    ensures
        final(scratch)@.len() == old(scratch)@.len(),
        final(obs_chunk)@.len() == old(obs_chunk)@.len(),
        config.frame_ok(
            env.ppu,
            final(obs_chunk)@.subrange(slot * config.frame_bytes(), (slot + 1) * config.frame_bytes()),
        ),
        forall|i: int|
            0 <= i < old(obs_chunk)@.len() && !(slot * config.frame_bytes() <= i < (slot + 1)
                * config.frame_bytes()) ==> #[trigger] final(obs_chunk)@[i] == old(obs_chunk)@[i],
{
    let frame_len = frame_len(config);
    assert((slot + 1) * frame_len <= config.frame_stack * frame_len) by (nonlinear_arith)
        requires
            slot < config.frame_stack,
    ;
    assert(slot * frame_len + frame_len == (slot + 1) * frame_len) by (nonlinear_arith);
    let dst_start = slot * frame_len;
    let ghost old_obs = obs_chunk@;
    let (head, tail) = obs_chunk.split_at_mut(dst_start);
    let (dst, rest) = tail.split_at_mut(frame_len);
    write_current_frame(config, resize_plan, env, scratch, dst);
    proof {
        assert(obs_chunk@ =~= head@ + (dst@ + rest@));
        assert(obs_chunk@.subrange(dst_start as int, dst_start + frame_len) =~= dst@);
    }
}

/// Fills every stack slot of `obs_chunk` with the observation frame of
/// `env`, as at the start of an episode.
pub fn write_reset_stack(
    config: VecEnvConfig,
    resize_plan: &AreaResizePlan,
    env: &NesEmulator,
    scratch: &mut [u8],
    obs_chunk: &mut [u8],
)
    requires
        config.wf(),
        config.plan_fits(*resize_plan),
        env.wf(),
        config.grayscale ==> env.ppu.palette_valid(),
        config.resizes() ==> old(scratch)@.len() >= config.native_bytes(),
        old(obs_chunk)@.len() == config.frame_stack * config.frame_bytes(),
    ensures
        final(scratch)@.len() == old(scratch)@.len(),
        final(obs_chunk)@.len() == old(obs_chunk)@.len(),
        forall|k: int|
            0 <= k < config.frame_stack ==> config.frame_ok(
                env.ppu,
                #[trigger] final(obs_chunk)@.subrange(k * config.frame_bytes(), (k + 1) * config.frame_bytes()),
            ),
{
    let ghost fl = config.frame_bytes();
    for stack_i in 0..config.frame_stack
        invariant
            config.wf(),
            config.plan_fits(*resize_plan),
            env.wf(),
            config.grayscale ==> env.ppu.palette_valid(),
            config.resizes() ==> scratch@.len() >= config.native_bytes(),
            scratch@.len() == old(scratch)@.len(),
            fl == config.frame_bytes(),
            obs_chunk@.len() == config.frame_stack * fl,
            forall|k: int|
                0 <= k < stack_i ==> config.frame_ok(
                    env.ppu,
                    #[trigger] obs_chunk@.subrange(k * fl, (k + 1) * fl),
                ),
    {
        let ghost before = obs_chunk@;
        write_frame_to_slot(config, resize_plan, env, scratch, obs_chunk, stack_i);
        assert forall|k: int| 0 <= k < stack_i + 1 implies config.frame_ok(
            env.ppu,
            #[trigger] obs_chunk@.subrange(k * fl, (k + 1) * fl),
        ) by {
            if k < stack_i {
                assert((k + 1) * fl <= stack_i * fl && stack_i * fl <= config.frame_stack * fl && 0 <= k * fl
                    && k * fl <= (k + 1) * fl && (k + 1) * fl == k * fl + fl) by (nonlinear_arith)
                    requires
                        0 <= k < stack_i,
                        stack_i < config.frame_stack,
                        fl >= 0,
                ;
                assert forall|j: int| 0 <= j < fl implies #[trigger] obs_chunk@.subrange(k * fl, (k + 1) * fl)[j]
                    == before.subrange(k * fl, (k + 1) * fl)[j] by {
                    assert(k * fl + j < stack_i * fl) by (nonlinear_arith)
                        requires
                            0 <= k < stack_i,
                            0 <= j < fl,
                    ;
                    assert(0 <= k * fl + j);
                    assert(obs_chunk@[k * fl + j] == before[k * fl + j]);
                    assert(obs_chunk@.subrange(k * fl, (k + 1) * fl)[j] == obs_chunk@[k * fl + j]);
                    assert(before.subrange(k * fl, (k + 1) * fl)[j] == before[k * fl + j]);
                }
                assert(obs_chunk@.subrange(k * fl, (k + 1) * fl) =~= before.subrange(k * fl, (k + 1) * fl));
            }
        }
    }
}

/// Moves every stack slot but the first one slot towards the front; the
/// last slot keeps its bytes.
pub fn shift_stack_left(config: VecEnvConfig, obs_chunk: &mut [u8])
    requires
        config.wf(),
        old(obs_chunk)@.len() == config.frame_stack * config.frame_bytes(),
    ensures
        final(obs_chunk)@.len() == old(obs_chunk)@.len(),
        forall|i: int|
            0 <= i < (config.frame_stack - 1) * config.frame_bytes() ==> #[trigger] final(obs_chunk)@[i]
                == old(obs_chunk)@[i + config.frame_bytes()],
        forall|i: int|
            (config.frame_stack - 1) * config.frame_bytes() <= i < old(obs_chunk)@.len() ==> #[trigger] final(obs_chunk)@[i] == old(obs_chunk)@[i],
{
    if config.frame_stack <= 1 {
        assert((config.frame_stack - 1) * config.frame_bytes() == 0) by (nonlinear_arith)
            requires
                config.frame_stack == 1,
        ;
        return;
    }
    let frame_len = frame_len(config);
    assert((config.frame_stack - 1) * frame_len + frame_len == config.frame_stack * frame_len)
        by (nonlinear_arith);
    let move_len = (config.frame_stack - 1) * frame_len;
    let ghost old_obs = obs_chunk@;
    let len = obs_chunk.len();
    for i in 0..move_len
        invariant
            move_len + frame_len == old_obs.len(),
            len == old_obs.len(),
            obs_chunk@.len() == old_obs.len(),
            forall|j: int| 0 <= j < i ==> #[trigger] obs_chunk@[j] == old_obs[j + frame_len],
            forall|j: int| i <= j < old_obs.len() ==> #[trigger] obs_chunk@[j] == old_obs[j],
    {
        let value = obs_chunk[frame_len + i];
        obs_chunk[i] = value;
    }
}

/// Writes the observation frame of `env` into the last stack slot.
pub fn write_current_frame_to_last_stack_slot(
    config: VecEnvConfig,
    resize_plan: &AreaResizePlan,
    env: &NesEmulator,
    scratch: &mut [u8],
    obs_chunk: &mut [u8],
)
    requires
        config.wf(),
        config.plan_fits(*resize_plan),
        env.wf(),
        config.grayscale ==> env.ppu.palette_valid(),
        config.resizes() ==> old(scratch)@.len() >= config.native_bytes(),
        old(obs_chunk)@.len() == config.frame_stack * config.frame_bytes(),
    ensures
        final(scratch)@.len() == old(scratch)@.len(),
        final(obs_chunk)@.len() == old(obs_chunk)@.len(),
        config.frame_ok(
            env.ppu,
            final(obs_chunk)@.subrange(
                (config.frame_stack - 1) * config.frame_bytes(),
                config.frame_stack * config.frame_bytes(),
            ),
        ),
        forall|i: int|
            0 <= i < (config.frame_stack - 1) * config.frame_bytes() ==> #[trigger] final(obs_chunk)@[i]
                == old(obs_chunk)@[i],
{
    assert((config.frame_stack - 1) * config.frame_bytes() + config.frame_bytes() == config.frame_stack
        * config.frame_bytes()) by (nonlinear_arith);
    write_frame_to_slot(config, resize_plan, env, scratch, obs_chunk, config.frame_stack - 1);
}

/// Copies the first `obs_stride` bytes over each following whole chunk of
/// that size.
pub fn copy_first_obs_to_remaining(obs: &mut [u8], obs_stride: usize)
    requires
        0 < obs_stride <= old(obs)@.len(),
    ensures
        final(obs)@.len() == old(obs)@.len(),
        forall|i: int|
            0 <= i < (old(obs)@.len() as int / obs_stride as int) * obs_stride ==> #[trigger] final(obs)@[i]
                == old(obs)@[i % obs_stride as int],
        forall|i: int|
            (old(obs)@.len() as int / obs_stride as int) * obs_stride <= i < old(obs)@.len() ==> #[trigger] final(obs)@[i] == old(obs)@[i],
{
    let ghost old_obs = obs@;
    let len = obs.len();
    let lanes = len / obs_stride;
    proof {
        vstd::arithmetic::div_mod::lemma_fundamental_div_mod(len as int, obs_stride as int);
        assert(lanes * obs_stride <= len && 1 <= lanes) by (nonlinear_arith)
            requires
                len == obs_stride * lanes + len % obs_stride,
                0 <= len % obs_stride < obs_stride,
                obs_stride <= len,
        ;
        assert forall|i: int| 0 <= i < 1 * obs_stride implies #[trigger] obs@[i] == old_obs[i % obs_stride as int] by {
            vstd::arithmetic::div_mod::lemma_small_mod(i as nat, obs_stride as nat);
        }
    }
    for lane in 1..lanes
        invariant
            0 < obs_stride <= len,
            len == old_obs.len(),
            lanes == len / obs_stride,
            lanes * obs_stride <= len,
            1 <= lane <= lanes,
            obs@.len() == len,
            forall|i: int| 0 <= i < lane * obs_stride ==> #[trigger] obs@[i] == old_obs[i % obs_stride as int],
            forall|i: int| lane * obs_stride <= i < len ==> #[trigger] obs@[i] == old_obs[i],
    {
        assert(lane * obs_stride + obs_stride <= lanes * obs_stride) by (nonlinear_arith)
            requires
                lane < lanes,
        ;
        let start = lane * obs_stride;
        for i in 0..obs_stride
            invariant
                0 < obs_stride <= len,
                len == old_obs.len(),
                start == lane * obs_stride,
                start + obs_stride <= len,
                1 <= lane,
                obs@.len() == len,
                forall|j: int| 0 <= j < start ==> #[trigger] obs@[j] == old_obs[j % obs_stride as int],
                forall|j: int| start <= j < start + i ==> #[trigger] obs@[j] == old_obs[j - start],
                forall|j: int| start + i <= j < len ==> #[trigger] obs@[j] == old_obs[j],
        {
            assert(obs@[i as int] == old_obs[i as int]) by {
                vstd::arithmetic::div_mod::lemma_small_mod(i as nat, obs_stride as nat);
                assert(i < start) by (nonlinear_arith)
                    requires
                        i < obs_stride,
                        start == lane * obs_stride,
                        lane >= 1,
                ;
                assert(obs@[i as int] == old_obs[i as int % obs_stride as int]);
            }
            let value = obs[i];
            obs[start + i] = value;
        }
        assert((lane + 1) * obs_stride == start + obs_stride) by (nonlinear_arith)
            requires
                start == lane * obs_stride,
        ;
        assert forall|j: int| 0 <= j < (lane + 1) * obs_stride implies #[trigger] obs@[j] == old_obs[j
            % obs_stride as int] by {
            if j >= start {
                vstd::arithmetic::div_mod::lemma_fundamental_div_mod_converse(j, obs_stride as int, lane as int, j - start);
            }
        }
    }
    assert forall|i: int| 0 <= i < (len / obs_stride) * obs_stride implies #[trigger] obs@[i] == old_obs[i
        % obs_stride as int] by {
        if lanes == 0 {
        } else if i < obs_stride {
            vstd::arithmetic::div_mod::lemma_small_mod(i as nat, obs_stride as nat);
        }
    }
}

/// Copies lane `src_lane` of `obs` (lanes of `obs_stride` bytes) over lane
/// `dst_lane`.
pub fn copy_obs_lane(obs: &mut [u8], obs_stride: usize, src_lane: usize, dst_lane: usize)
    requires
        (src_lane + 1) * obs_stride <= old(obs)@.len(),
        (dst_lane + 1) * obs_stride <= old(obs)@.len(),
    ensures
        final(obs)@.len() == old(obs)@.len(),
        forall|i: int|
            0 <= i < obs_stride ==> #[trigger] final(obs)@[dst_lane * obs_stride + i] == old(obs)@[src_lane
                * obs_stride + i],
        forall|j: int|
            0 <= j < old(obs)@.len() && !(dst_lane * obs_stride <= j < (dst_lane + 1) * obs_stride)
                ==> #[trigger] final(obs)@[j] == old(obs)@[j],
{
    if src_lane == dst_lane {
        return;
    }
    assert(src_lane * obs_stride + obs_stride == (src_lane + 1) * obs_stride) by (nonlinear_arith);
    assert(dst_lane * obs_stride + obs_stride == (dst_lane + 1) * obs_stride) by (nonlinear_arith);
    let len = obs.len();
    assert(src_lane * obs_stride <= (src_lane + 1) * obs_stride && dst_lane * obs_stride <= (dst_lane + 1)
        * obs_stride) by (nonlinear_arith);
    let src_start = src_lane * obs_stride;
    let dst_start = dst_lane * obs_stride;
    proof {
        if src_start < dst_start {
            assert(src_start + obs_stride <= dst_start) by (nonlinear_arith)
                requires
                    src_start == src_lane * obs_stride,
                    dst_start == dst_lane * obs_stride,
                    src_start < dst_start,
            ;
        } else {
            assert(dst_start + obs_stride <= src_start) by (nonlinear_arith)
                requires
                    src_start == src_lane * obs_stride,
                    dst_start == dst_lane * obs_stride,
                    src_start >= dst_start,
                    src_lane != dst_lane,
            ;
        }
    }
    let ghost old_obs = obs@;
    for i in 0..obs_stride
        invariant
            src_start + obs_stride <= old_obs.len(),
            dst_start + obs_stride <= old_obs.len(),
            src_start + obs_stride <= dst_start || dst_start + obs_stride <= src_start,
            obs@.len() == old_obs.len(),
            forall|k: int| 0 <= k < i ==> #[trigger] obs@[dst_start + k] == old_obs[src_start + k],
            forall|j: int|
                0 <= j < old_obs.len() && !(dst_start <= j < dst_start + i) ==> #[trigger] obs@[j] == old_obs[j],
    {
        let value = obs[src_start + i];
        obs[dst_start + i] = value;
    }
}

/// Whether every action equals `first_action`.
pub fn actions_are_uniform(actions: &[u8], first_action: u8) -> (uniform: bool)
    ensures
        uniform == (forall|i: int| 0 <= i < actions@.len() ==> #[trigger] actions@[i] == first_action),
{
    for i in 0..actions.len()
        invariant
            forall|j: int| 0 <= j < i ==> #[trigger] actions@[j] == first_action,
    {
        if actions[i] != first_action {
            return false;
        }
    }
    true
}


/// Sets every element of `s` to `v`.
pub fn fill_slice<T: Copy>(s: &mut [T], v: T)
    ensures
        final(s)@.len() == old(s)@.len(),
        forall|i: int| 0 <= i < final(s)@.len() ==> #[trigger] final(s)@[i] == v,
{
    let len = s.len();
    for i in 0..len
        invariant
            len == s@.len(),
            forall|j: int| 0 <= j < i ==> #[trigger] s@[j] == v,
    {
        s[i] = v;
    }
}

/// Writes the info values `env` reports into one lane's outputs.
#[allow(clippy::too_many_arguments)]
pub fn write_info_from_env(
    env: &NesEmulator,
    x_out: &mut u16,
    coins_out: &mut u8,
    level_hi_out: &mut i16,
    level_lo_out: &mut i16,
    lives_out: &mut i16,
    score_out: &mut u32,
    scrolling_out: &mut i16,
    time_out: &mut u16,
    xscroll_hi_out: &mut u8,
    xscroll_lo_out: &mut u8,
)
    ensures
        *final(x_out) == env.x_pos,
        *final(coins_out) == env.coins,
        *final(level_hi_out) == env.level_hi,
        *final(level_lo_out) == env.level_lo,
        *final(lives_out) == env.lives,
        *final(score_out) == env.score,
        *final(scrolling_out) == env.scrolling,
        *final(time_out) == env.time,
        *final(xscroll_hi_out) == env.xscroll_hi,
        *final(xscroll_lo_out) == env.xscroll_lo,
{
    *x_out = env.x_pos();
    *coins_out = env.coins();
    *level_hi_out = env.level_hi();
    *level_lo_out = env.level_lo();
    *lives_out = env.lives();
    *score_out = env.score();
    *scrolling_out = env.scrolling();
    *time_out = env.time();
    *xscroll_hi_out = env.xscroll_hi();
    *xscroll_lo_out = env.xscroll_lo();
}

/// Fills every lane of the info outputs with the values `env` reports.
#[allow(clippy::too_many_arguments)]
pub fn fill_info_from_env(
    env: &NesEmulator,
    x_pos: &mut [u16],
    coins: &mut [u8],
    level_hi: &mut [i16],
    level_lo: &mut [i16],
    lives: &mut [i16],
    score: &mut [u32],
    scrolling: &mut [i16],
    time: &mut [u16],
    xscroll_hi: &mut [u8],
    xscroll_lo: &mut [u8],
)
    ensures
        final(x_pos)@.len() == old(x_pos)@.len(),
        forall|i: int| 0 <= i < final(x_pos)@.len() ==> #[trigger] final(x_pos)@[i] == env.x_pos,
        final(coins)@.len() == old(coins)@.len(),
        forall|i: int| 0 <= i < final(coins)@.len() ==> #[trigger] final(coins)@[i] == env.coins,
        final(level_hi)@.len() == old(level_hi)@.len(),
        forall|i: int| 0 <= i < final(level_hi)@.len() ==> #[trigger] final(level_hi)@[i] == env.level_hi,
        final(level_lo)@.len() == old(level_lo)@.len(),
        forall|i: int| 0 <= i < final(level_lo)@.len() ==> #[trigger] final(level_lo)@[i] == env.level_lo,
        final(lives)@.len() == old(lives)@.len(),
        forall|i: int| 0 <= i < final(lives)@.len() ==> #[trigger] final(lives)@[i] == env.lives,
        final(score)@.len() == old(score)@.len(),
        forall|i: int| 0 <= i < final(score)@.len() ==> #[trigger] final(score)@[i] == env.score,
        final(scrolling)@.len() == old(scrolling)@.len(),
        forall|i: int| 0 <= i < final(scrolling)@.len() ==> #[trigger] final(scrolling)@[i] == env.scrolling,
        final(time)@.len() == old(time)@.len(),
        forall|i: int| 0 <= i < final(time)@.len() ==> #[trigger] final(time)@[i] == env.time,
        final(xscroll_hi)@.len() == old(xscroll_hi)@.len(),
        forall|i: int| 0 <= i < final(xscroll_hi)@.len() ==> #[trigger] final(xscroll_hi)@[i] == env.xscroll_hi,
        final(xscroll_lo)@.len() == old(xscroll_lo)@.len(),
        forall|i: int| 0 <= i < final(xscroll_lo)@.len() ==> #[trigger] final(xscroll_lo)@[i] == env.xscroll_lo,
{
    fill_slice(x_pos, env.x_pos());
    fill_slice(coins, env.coins());
    fill_slice(level_hi, env.level_hi());
    fill_slice(level_lo, env.level_lo());
    fill_slice(lives, env.lives());
    fill_slice(score, env.score());
    fill_slice(scrolling, env.scrolling());
    fill_slice(time, env.time());
    fill_slice(xscroll_hi, env.xscroll_hi());
    fill_slice(xscroll_lo, env.xscroll_lo());
}

/// Fills every lane of the info outputs with the values of lane 0.
#[allow(clippy::too_many_arguments)]
pub fn fill_info_from_first(
    x_pos: &mut [u16],
    coins: &mut [u8],
    level_hi: &mut [i16],
    level_lo: &mut [i16],
    lives: &mut [i16],
    score: &mut [u32],
    scrolling: &mut [i16],
    time: &mut [u16],
    xscroll_hi: &mut [u8],
    xscroll_lo: &mut [u8],
)
    requires
        old(x_pos)@.len() > 0,
        old(coins)@.len() > 0,
        old(level_hi)@.len() > 0,
        old(level_lo)@.len() > 0,
        old(lives)@.len() > 0,
        old(score)@.len() > 0,
        old(scrolling)@.len() > 0,
        old(time)@.len() > 0,
        old(xscroll_hi)@.len() > 0,
        old(xscroll_lo)@.len() > 0,
    ensures
        final(x_pos)@.len() == old(x_pos)@.len(),
        forall|i: int| 0 <= i < final(x_pos)@.len() ==> #[trigger] final(x_pos)@[i] == old(x_pos)@[0],
        final(coins)@.len() == old(coins)@.len(),
        forall|i: int| 0 <= i < final(coins)@.len() ==> #[trigger] final(coins)@[i] == old(coins)@[0],
        final(level_hi)@.len() == old(level_hi)@.len(),
        forall|i: int| 0 <= i < final(level_hi)@.len() ==> #[trigger] final(level_hi)@[i] == old(level_hi)@[0],
        final(level_lo)@.len() == old(level_lo)@.len(),
        forall|i: int| 0 <= i < final(level_lo)@.len() ==> #[trigger] final(level_lo)@[i] == old(level_lo)@[0],
        final(lives)@.len() == old(lives)@.len(),
        forall|i: int| 0 <= i < final(lives)@.len() ==> #[trigger] final(lives)@[i] == old(lives)@[0],
        final(score)@.len() == old(score)@.len(),
        forall|i: int| 0 <= i < final(score)@.len() ==> #[trigger] final(score)@[i] == old(score)@[0],
        final(scrolling)@.len() == old(scrolling)@.len(),
        forall|i: int| 0 <= i < final(scrolling)@.len() ==> #[trigger] final(scrolling)@[i] == old(scrolling)@[0],
        final(time)@.len() == old(time)@.len(),
        forall|i: int| 0 <= i < final(time)@.len() ==> #[trigger] final(time)@[i] == old(time)@[0],
        final(xscroll_hi)@.len() == old(xscroll_hi)@.len(),
        forall|i: int| 0 <= i < final(xscroll_hi)@.len() ==> #[trigger] final(xscroll_hi)@[i] == old(xscroll_hi)@[0],
        final(xscroll_lo)@.len() == old(xscroll_lo)@.len(),
        forall|i: int| 0 <= i < final(xscroll_lo)@.len() ==> #[trigger] final(xscroll_lo)@[i] == old(xscroll_lo)@[0],
{
    let first = x_pos[0];
    fill_slice(x_pos, first);
    let first = coins[0];
    fill_slice(coins, first);
    let first = level_hi[0];
    fill_slice(level_hi, first);
    let first = level_lo[0];
    fill_slice(level_lo, first);
    let first = lives[0];
    fill_slice(lives, first);
    let first = score[0];
    fill_slice(score, first);
    let first = scrolling[0];
    fill_slice(scrolling, first);
    let first = time[0];
    fill_slice(time, first);
    let first = xscroll_hi[0];
    fill_slice(xscroll_hi, first);
    let first = xscroll_lo[0];
    fill_slice(xscroll_lo, first);
}

/// Copies lane `src_lane` of the info outputs over lane `dst_lane`.
#[allow(clippy::too_many_arguments)]
pub fn copy_info_lane(
    src_lane: usize,
    dst_lane: usize,
    x_pos: &mut [u16],
    coins: &mut [u8],
    level_hi: &mut [i16],
    level_lo: &mut [i16],
    lives: &mut [i16],
    score: &mut [u32],
    scrolling: &mut [i16],
    time: &mut [u16],
    xscroll_hi: &mut [u8],
    xscroll_lo: &mut [u8],
)
    requires
        src_lane < old(x_pos)@.len(),
        dst_lane < old(x_pos)@.len(),
        src_lane < old(coins)@.len(),
        dst_lane < old(coins)@.len(),
        src_lane < old(level_hi)@.len(),
        dst_lane < old(level_hi)@.len(),
        src_lane < old(level_lo)@.len(),
        dst_lane < old(level_lo)@.len(),
        src_lane < old(lives)@.len(),
        dst_lane < old(lives)@.len(),
        src_lane < old(score)@.len(),
        dst_lane < old(score)@.len(),
        src_lane < old(scrolling)@.len(),
        dst_lane < old(scrolling)@.len(),
        src_lane < old(time)@.len(),
        dst_lane < old(time)@.len(),
        src_lane < old(xscroll_hi)@.len(),
        dst_lane < old(xscroll_hi)@.len(),
        src_lane < old(xscroll_lo)@.len(),
        dst_lane < old(xscroll_lo)@.len(),
    ensures
        final(x_pos)@ == old(x_pos)@.update(dst_lane as int, old(x_pos)@[src_lane as int]),
        final(coins)@ == old(coins)@.update(dst_lane as int, old(coins)@[src_lane as int]),
        final(level_hi)@ == old(level_hi)@.update(dst_lane as int, old(level_hi)@[src_lane as int]),
        final(level_lo)@ == old(level_lo)@.update(dst_lane as int, old(level_lo)@[src_lane as int]),
        final(lives)@ == old(lives)@.update(dst_lane as int, old(lives)@[src_lane as int]),
        final(score)@ == old(score)@.update(dst_lane as int, old(score)@[src_lane as int]),
        final(scrolling)@ == old(scrolling)@.update(dst_lane as int, old(scrolling)@[src_lane as int]),
        final(time)@ == old(time)@.update(dst_lane as int, old(time)@[src_lane as int]),
        final(xscroll_hi)@ == old(xscroll_hi)@.update(dst_lane as int, old(xscroll_hi)@[src_lane as int]),
        final(xscroll_lo)@ == old(xscroll_lo)@.update(dst_lane as int, old(xscroll_lo)@[src_lane as int]),
{
    x_pos[dst_lane] = x_pos[src_lane];
    coins[dst_lane] = coins[src_lane];
    level_hi[dst_lane] = level_hi[src_lane];
    level_lo[dst_lane] = level_lo[src_lane];
    lives[dst_lane] = lives[src_lane];
    score[dst_lane] = score[src_lane];
    scrolling[dst_lane] = scrolling[src_lane];
    time[dst_lane] = time[src_lane];
    xscroll_hi[dst_lane] = xscroll_hi[src_lane];
    xscroll_lo[dst_lane] = xscroll_lo[src_lane];
}

/// What stepping `n` frames with `action` gives, stopping after the frame
/// on which the game ends or a rule fires: the emulator, the summed reward,
/// whether the episode ended, and the records of the rules that fired.
pub open spec fn advance_spec(
    env: NesEmulator,
    action: MarioAction,
    n: nat,
    baseline: InfoSnapshot,
    rules: Seq<DoneOnInfoRule>,
) -> (NesEmulator, int, bool, Seq<FiredView>)
    decreases n,
{
    if n == 0 {
        (env, 0, false, seq![])
    } else {
        let (e1, r) = env.step_frame_spec(action);
        let current = snapshot_of(e1);
        let log = fired_log(rules, baseline, current);
        if e1.done || any_rule_fires(rules, baseline, current) {
            (e1, r as int, true, log)
        } else {
            let rest = advance_spec(e1, action, (n - 1) as nat, baseline, rules);
            (rest.0, r + rest.1, rest.2, log + rest.3)
        }
    }
}

/// Advancing by one frame is one frame step: its state and reward, ending
/// the episode when the game is done or a rule fires, with that frame's
/// fired rules.
pub proof fn lemma_advance_one(env: NesEmulator, action: MarioAction, baseline: InfoSnapshot, rules: Seq<DoneOnInfoRule>)
    ensures
        ({
            let (e1, r) = env.step_frame_spec(action);
            let current = snapshot_of(e1);
            advance_spec(env, action, 1, baseline, rules) == (
                e1,
                r as int,
                e1.done || any_rule_fires(rules, baseline, current),
                fired_log(rules, baseline, current),
            )
        }),
{
    reveal_with_fuel(advance_spec, 2);
    let (e1, r) = env.step_frame_spec(action);
    let current = snapshot_of(e1);
    let log = fired_log(rules, baseline, current);
    if !(e1.done || any_rule_fires(rules, baseline, current)) {
        assert(log + seq![] =~= log);
    }
}

/// Advancing by `m + n` frames is advancing by `m` and then by `n` from
/// where that left off, rewards summed and fired rules appended in order;
/// once the episode ended within the first `m` frames, the further frames
/// change nothing. Every frame's reward is at most 255.
pub proof fn lemma_advance_split(
    env: NesEmulator,
    action: MarioAction,
    m: nat,
    n: nat,
    baseline: InfoSnapshot,
    rules: Seq<DoneOnInfoRule>,
)
    ensures
        ({
            let a = advance_spec(env, action, m, baseline, rules);
            let b = advance_spec(a.0, action, n, baseline, rules);
            &&& a.2 ==> advance_spec(env, action, m + n, baseline, rules) == a
            &&& !a.2 ==> advance_spec(env, action, m + n, baseline, rules) == (b.0, a.1 + b.1, b.2, a.3 + b.3)
            &&& 0 <= a.1 <= 255 * m
        }),
    decreases m,
{
    if m == 0 {
        let b = advance_spec(env, action, n, baseline, rules);
        assert(seq![] + b.3 =~= b.3);
    } else {
        let (e1, r) = env.step_frame_spec(action);
        let current = snapshot_of(e1);
        let log = fired_log(rules, baseline, current);
        if !(e1.done || any_rule_fires(rules, baseline, current)) {
            lemma_advance_split(e1, action, (m - 1) as nat, n, baseline, rules);
            let a1 = advance_spec(e1, action, (m - 1) as nat, baseline, rules);
            let b = advance_spec(a1.0, action, n, baseline, rules);
            assert((m + n - 1) as nat == (m - 1) as nat + n);
            if !a1.2 {
                assert(log + (a1.3 + b.3) =~= (log + a1.3) + b.3);
            }
        }
    }
}

/// Steps `env` up to `frame_skip` frames with the action of id
/// `action_id`, checking the rules against `baseline` after each frame and
/// stopping when the game ends or a rule fires. Returns the summed reward
/// and whether the episode ended; the records of fired rules are appended
/// to `fired`.
pub fn advance_frames(
    frame_skip: usize,
    env: &mut NesEmulator,
    baseline: InfoSnapshot,
    rules: &[DoneOnInfoRule],
    fired: &mut Vec<FiredDoneOnInfoRule>,
    action_id: u8,
) -> (r: (u128, bool))
    requires
        old(env).wf(),
    ensures
        final(env).wf(),
        ({
            let t = advance_spec(*old(env), action_of(action_id), frame_skip as nat, baseline, rules@);
            &&& *final(env) == t.0
            &&& r.0 == t.1
            &&& r.1 == t.2
            &&& fired_views(final(fired)@) == fired_views(old(fired)@) + t.3
        }),
{
    let action = MarioAction::from_u8(action_id);
    let ghost env0 = *env;
    let ghost views0 = fired_views(fired@);
    let ghost mut log: Seq<FiredView> = seq![];
    let mut reward: u128 = 0;
    let mut done = false;
    let mut i: usize = 0;
    while i < frame_skip
        invariant_except_break
            env.wf(),
            i <= frame_skip,
            reward <= 255 * i,
            !done,
            fired_views(fired@) == views0 + log,
            ({
                let t = advance_spec(*env, action, (frame_skip - i) as nat, baseline, rules@);
                advance_spec(env0, action, frame_skip as nat, baseline, rules@) == (t.0, reward + t.1, t.2, log
                    + t.3)
            }),
        ensures
            env.wf(),
            ({
                let t = advance_spec(env0, action, frame_skip as nat, baseline, rules@);
                &&& *env == t.0
                &&& reward == t.1
                &&& done == t.2
                &&& fired_views(fired@) == views0 + t.3
            }),
        decreases frame_skip - i,
    {
        let ghost e_before = *env;
        let ghost views_before = fired_views(fired@);
        let frame_reward = env.step_frame(action);
        reward += frame_reward as u128;
        let done_on_info = check_done_on_info(env, baseline, rules, fired);
        done = env.is_done() || done_on_info;
        proof {
            let current = snapshot_of(*env);
            let log1 = fired_log(rules@, baseline, current);
            let rest_n = (frame_skip - i - 1) as nat;
            let rest = advance_spec(*env, action, rest_n, baseline, rules@);
            assert(advance_spec(e_before, action, (frame_skip - i) as nat, baseline, rules@) == if done {
                (*env, frame_reward as int, true, log1)
            } else {
                (rest.0, frame_reward + rest.1, rest.2, log1 + rest.3)
            });
            assert(fired_views(fired@) == views_before + log1);
            assert(views0 + (log + log1) =~= (views0 + log) + log1);
            if !done {
                assert((log + log1) + rest.3 =~= log + (log1 + rest.3));
            } else {
                assert(log + log1 =~= log + log1);
            }
            log = log + log1;
        }
        if done {
            break;
        }
        i += 1;
    }
    proof {
        if !done {
            assert(log + seq![] =~= log);
        }
    }
    (reward, done)
}

/// A xorshift generator of 64-bit values; its state is never 0.
pub struct XorShift64 {
    pub state: u64,
}

/// One xorshift step: shifts by 13 left, 7 right and 17 left, each xored in.
pub open spec fn xorshift_next(x: u64) -> u64 {
    let a = x ^ (x << 13u64);
    let b = a ^ (a >> 7u64);
    b ^ (b << 17u64)
}

/// Each xorshift step is invertible, so a non-zero state stays non-zero.
pub proof fn lemma_xorshift_nonzero(x: u64)
    ensures
        x != 0 ==> xorshift_next(x) != 0,
{
    let a = x ^ (x << 13u64);
    let b = a ^ (a >> 7u64);
    let c = b ^ (b << 17u64);
    assert((c == 0 ==> b == 0) && (b == 0 ==> a == 0) && (a == 0 ==> x == 0)) by (bit_vector)
        requires
            c == b ^ (b << 17u64),
            b == a ^ (a >> 7u64),
            a == x ^ (x << 13u64),
    ;
}

impl XorShift64 {
    /// A generator started from `seed`, or from `clock` (xored with a fixed
    /// odd constant) when the seed is 0; a zero state becomes 1.
    pub fn with_seed(seed: u64, clock: u64) -> (rng: Self)
        ensures
            rng.state == ({
                let s = if seed == 0 {
                    clock ^ 0x9e37_79b9_7f4a_7c15u64
                } else {
                    seed
                };
                if s < 1 {
                    1
                } else {
                    s
                }
            }),
    {
        let state = if seed == 0 {
            clock ^ 0x9e37_79b9_7f4a_7c15
        } else {
            seed
        };
        Self { state: if state < 1 {
            1
        } else {
            state
        } }
    }

    /// Advances the generator and returns its new state.
    pub fn next_u64(&mut self) -> (value: u64)
        ensures
            value == xorshift_next(old(self).state),
            final(self).state == value,
            old(self).state != 0 ==> value != 0,
    {
        proof {
            lemma_xorshift_nonzero(self.state);
        }
        let mut value = self.state;
        value ^= value << 13;
        value ^= value >> 7;
        value ^= value << 17;
        self.state = value;
        value
    }

    /// The top 53 bits of the next value: the numerator of a sample in
    /// `[0, 1)` with denominator `2^53`.
    pub fn next_unit_numerator(&mut self) -> (n: u64)
        ensures
            n == xorshift_next(old(self).state) >> 11u64,
            final(self).state == xorshift_next(old(self).state),
    {
        self.next_u64() >> 11
    }
}


/// An observation frame is determined by the picture: two frames that are
/// both the observation of the same emulator picture are equal. This is
/// what makes sharing one emulator among identical lanes exact: copying the
/// first lane's frame gives each lane the frame it would have rendered.
pub proof fn lemma_frame_ok_unique(config: VecEnvConfig, ppu: Ppu, f1: Seq<u8>, f2: Seq<u8>)
    requires
        config.wf(),
        config.frame_ok(ppu, f1),
        config.frame_ok(ppu, f2),
    ensures
        f1 == f2,
{
    let sw = VISIBLE_FRAME_WIDTH as int;
    let sh = config.source_rows();
    if config.resizes() {
        let n1 = choose|native: Seq<u8>| config.native_ok(ppu, native) && config.resized_ok(native, f1);
        let n2 = choose|native: Seq<u8>| config.native_ok(ppu, native) && config.resized_ok(native, f2);
        ppu.lemma_frame_unique(n1, n2, 8 + config.crop_top, 8, sw, sh, config.grayscale);
        let dw = config.resize_width as int;
        let dh = config.resize_height as int;
        assert forall|j: int| 0 <= j < f1.len() implies f1[j] == f2[j] by {
            lemma_pix_cover(dw, dh, j, plane_count(config.grayscale));
            let c = j / (dw * dh);
            let r = j % (dw * dh);
            assert(dw * dh > 0) by (nonlinear_arith)
                requires
                    dw > 0,
                    dh > 0,
            ;
            vstd::arithmetic::div_mod::lemma_fundamental_div_mod(j, dw * dh);
            assert(j == c * (dw * dh) + r) by (nonlinear_arith)
                requires
                    j == (dw * dh) * c + r,
            ;
            assert(f1[c * (dw * dh) + r] == f2[c * (dw * dh) + r]);
        }
        assert(f1 =~= f2);
    } else {
        ppu.lemma_frame_unique(f1, f2, 8 + config.crop_top, 8, sw, sh, config.grayscale);
    }
}

/// A step's frame stack: shifting the stack and then writing the current
/// frame into the last slot leaves each slot but the last holding what the
/// next slot held before, and the last slot holding the current frame.
pub proof fn lemma_step_stack(config: VecEnvConfig, ppu: Ppu, before: Seq<u8>, shifted: Seq<u8>, after: Seq<u8>)
    requires
        config.wf(),
        before.len() == config.frame_stack * config.frame_bytes(),
        shifted.len() == before.len(),
        forall|i: int|
            0 <= i < (config.frame_stack - 1) * config.frame_bytes() ==> #[trigger] shifted[i] == before[i
                + config.frame_bytes()],
        after.len() == shifted.len(),
        config.frame_ok(
            ppu,
            after.subrange((config.frame_stack - 1) * config.frame_bytes(), config.frame_stack * config.frame_bytes()),
        ),
        forall|i: int| 0 <= i < (config.frame_stack - 1) * config.frame_bytes() ==> #[trigger] after[i] == shifted[i],
    ensures
        forall|k: int|
            0 <= k < config.frame_stack - 1 ==> #[trigger] after.subrange(
                k * config.frame_bytes(),
                (k + 1) * config.frame_bytes(),
            ) == before.subrange((k + 1) * config.frame_bytes(), (k + 2) * config.frame_bytes()),
        config.frame_ok(
            ppu,
            after.subrange((config.frame_stack - 1) * config.frame_bytes(), config.frame_stack * config.frame_bytes()),
        ),
{
    let fl = config.frame_bytes();
    let fs = config.frame_stack as int;
    assert forall|k: int| 0 <= k < fs - 1 implies #[trigger] after.subrange(k * fl, (k + 1) * fl) == before.subrange(
        (k + 1) * fl,
        (k + 2) * fl,
    ) by {
        assert((k + 1) * fl == k * fl + fl && (k + 2) * fl == k * fl + 2 * fl && 0 <= k * fl && (k + 1) * fl
            <= (fs - 1) * fl && (k + 2) * fl <= fs * fl) by (nonlinear_arith)
            requires
                0 <= k < fs - 1,
                fl >= 0,
        ;
        assert forall|j: int| 0 <= j < fl implies #[trigger] after.subrange(k * fl, (k + 1) * fl)[j]
            == before.subrange((k + 1) * fl, (k + 2) * fl)[j] by {
            assert(after[k * fl + j] == shifted[k * fl + j]);
            assert(shifted[k * fl + j] == before[k * fl + j + fl]);
        }
        assert(after.subrange(k * fl, (k + 1) * fl) =~= before.subrange((k + 1) * fl, (k + 2) * fl));
    }
}


/// Two texts that differ at position `i` are different.
proof fn lemma_texts_differ(a: Seq<char>, b: Seq<char>, i: int)
    requires
        0 <= i < a.len(),
        0 <= i < b.len(),
        a[i] != b[i],
    ensures
        a != b,
{
}

/// Each info key is found again by its name.
pub proof fn lemma_info_key_name_roundtrip(key: InfoKey)
    ensures
        info_key_named(info_key_name(key)) == Some(key),
{
    reveal_strlit("x_pos");
    reveal_strlit("coins");
    reveal_strlit("levelHi");
    reveal_strlit("levelLo");
    reveal_strlit("lives");
    reveal_strlit("score");
    reveal_strlit("scrolling");
    reveal_strlit("time");
    reveal_strlit("xscrollHi");
    reveal_strlit("xscrollLo");
    lemma_texts_differ("coins"@, "x_pos"@, 0);
    lemma_texts_differ("levelHi"@, "x_pos"@, 0);
    lemma_texts_differ("levelHi"@, "coins"@, 0);
    lemma_texts_differ("levelLo"@, "x_pos"@, 0);
    lemma_texts_differ("levelLo"@, "coins"@, 0);
    lemma_texts_differ("levelLo"@, "levelHi"@, 5);
    lemma_texts_differ("lives"@, "x_pos"@, 0);
    lemma_texts_differ("lives"@, "coins"@, 0);
    lemma_texts_differ("lives"@, "levelHi"@, 1);
    lemma_texts_differ("lives"@, "levelLo"@, 1);
    lemma_texts_differ("score"@, "x_pos"@, 0);
    lemma_texts_differ("score"@, "coins"@, 0);
    lemma_texts_differ("score"@, "levelHi"@, 0);
    lemma_texts_differ("score"@, "levelLo"@, 0);
    lemma_texts_differ("score"@, "lives"@, 0);
    lemma_texts_differ("scrolling"@, "x_pos"@, 0);
    lemma_texts_differ("scrolling"@, "coins"@, 0);
    lemma_texts_differ("scrolling"@, "levelHi"@, 0);
    lemma_texts_differ("scrolling"@, "levelLo"@, 0);
    lemma_texts_differ("scrolling"@, "lives"@, 0);
    lemma_texts_differ("scrolling"@, "score"@, 2);
    lemma_texts_differ("time"@, "x_pos"@, 0);
    lemma_texts_differ("time"@, "coins"@, 0);
    lemma_texts_differ("time"@, "levelHi"@, 0);
    lemma_texts_differ("time"@, "levelLo"@, 0);
    lemma_texts_differ("time"@, "lives"@, 0);
    lemma_texts_differ("time"@, "score"@, 0);
    lemma_texts_differ("time"@, "scrolling"@, 0);
    lemma_texts_differ("xscrollHi"@, "x_pos"@, 1);
    lemma_texts_differ("xscrollHi"@, "coins"@, 0);
    lemma_texts_differ("xscrollHi"@, "levelHi"@, 0);
    lemma_texts_differ("xscrollHi"@, "levelLo"@, 0);
    lemma_texts_differ("xscrollHi"@, "lives"@, 0);
    lemma_texts_differ("xscrollHi"@, "score"@, 0);
    lemma_texts_differ("xscrollHi"@, "scrolling"@, 0);
    lemma_texts_differ("xscrollHi"@, "time"@, 0);
    lemma_texts_differ("xscrollLo"@, "x_pos"@, 1);
    lemma_texts_differ("xscrollLo"@, "coins"@, 0);
    lemma_texts_differ("xscrollLo"@, "levelHi"@, 0);
    lemma_texts_differ("xscrollLo"@, "levelLo"@, 0);
    lemma_texts_differ("xscrollLo"@, "lives"@, 0);
    lemma_texts_differ("xscrollLo"@, "score"@, 0);
    lemma_texts_differ("xscrollLo"@, "scrolling"@, 0);
    lemma_texts_differ("xscrollLo"@, "time"@, 0);
    lemma_texts_differ("xscrollLo"@, "xscrollHi"@, 7);
}

/// Each named info key reads its game variable from RAM, in every state
/// whose variables are in step with RAM: "x_pos" the player's page and x
/// byte, "coins" the coin count, "levelHi"/"levelLo" the signed world and
/// level bytes, "lives" the signed lives byte, "score" the six BCD score
/// digits, "scrolling" the signed scroll-lock byte, "time" the three BCD
/// timer digits, "xscrollHi"/"xscrollLo" the scroll bytes.
pub proof fn lemma_named_info_reads_ram(e: NesEmulator)
    requires
        e.info_synced(),
    ensures
        ({
            let snap = snapshot_of(e);
            let r = e.ram;
            &&& snapshot_value(snap, info_key_named("x_pos"@).unwrap()) == r[0x6d] as int * 256 + r[0x86] as int
            &&& snapshot_value(snap, info_key_named("coins"@).unwrap()) == r[0x75e]
            &&& snapshot_value(snap, info_key_named("levelHi"@).unwrap()) == signed_byte(r[0x75f])
            &&& snapshot_value(snap, info_key_named("levelLo"@).unwrap()) == signed_byte(r[0x75c])
            &&& snapshot_value(snap, info_key_named("lives"@).unwrap()) == signed_byte(r[0x75a])
            &&& snapshot_value(snap, info_key_named("score"@).unwrap()) == crate::fceu::bcd_value(
                r@.subrange(0x7dd, 0x7e3),
            )
            &&& snapshot_value(snap, info_key_named("scrolling"@).unwrap()) == signed_byte(r[0x778])
            &&& snapshot_value(snap, info_key_named("time"@).unwrap()) == crate::fceu::bcd_value(
                r@.subrange(0x7f8, 0x7fb),
            )
            &&& snapshot_value(snap, info_key_named("xscrollHi"@).unwrap()) == r[0x71a]
            &&& snapshot_value(snap, info_key_named("xscrollLo"@).unwrap()) == r[0x71c]
        }),
{
    e.lemma_info_matches_ram();
    lemma_info_key_name_roundtrip(InfoKey::XPos);
    lemma_info_key_name_roundtrip(InfoKey::Coins);
    lemma_info_key_name_roundtrip(InfoKey::LevelHi);
    lemma_info_key_name_roundtrip(InfoKey::LevelLo);
    lemma_info_key_name_roundtrip(InfoKey::Lives);
    lemma_info_key_name_roundtrip(InfoKey::Score);
    lemma_info_key_name_roundtrip(InfoKey::Scrolling);
    lemma_info_key_name_roundtrip(InfoKey::Time);
    lemma_info_key_name_roundtrip(InfoKey::XScrollHi);
    lemma_info_key_name_roundtrip(InfoKey::XScrollLo);
}

/// A name that is found is the name of the key it finds.
pub proof fn lemma_info_key_named_roundtrip(name: Seq<char>)
    ensures
        info_key_named(name) matches Some(key) ==> info_key_name(key) == name,
{
}

/// A name that is found is the name of the operator it finds.
pub proof fn lemma_done_op_named_roundtrip(name: Seq<char>)
    ensures
        done_op_named(name) matches Some(op) ==> done_op_name(op) == name,
{
}

/// Each rule operator is found again by its name.
pub proof fn lemma_done_op_name_roundtrip(op: DoneOnInfoOp)
    ensures
        done_op_named(done_op_name(op)) == Some(op),
{
    reveal_strlit("change");
    reveal_strlit("increase");
    reveal_strlit("decrease");
    lemma_texts_differ("increase"@, "change"@, 0);
    lemma_texts_differ("decrease"@, "change"@, 0);
    lemma_texts_differ("decrease"@, "increase"@, 0);
}


/// The fixed 84x84 gray writer and the general area resize agree: on the
/// same rendered 240x192 window, resizing with a plan from 240x192 to 84x84
/// gives exactly the bytes of the fixed writer.
pub proof fn lemma_default_area_matches_plan(
    plan: AreaResizePlan,
    native: Seq<u8>,
    fixed: Seq<u8>,
    planned: Seq<u8>,
)
    requires
        plan.wf(),
        plan.src_width == 240,
        plan.src_height == 192,
        plan.dst_width == 84,
        plan.dst_height == 84,
        fixed.len() == 84 * 84,
        forall|i: int|
            0 <= i < 84 * 84 ==> #[trigger] fixed[i] as int == area_mean(native, 0, 240, 192, 84, 84, i % 84, i / 84),
        planned.len() == 84 * 84,
        forall|c: int, i: int|
            0 <= c < 1 && 0 <= i < plan.dst_width * plan.dst_height ==> #[trigger] planned[c * (plan.dst_width
                * plan.dst_height) + i] as int == area_mean(
                native,
                c * (plan.src_width * plan.src_height),
                plan.src_width as int,
                plan.src_height as int,
                plan.dst_width as int,
                plan.dst_height as int,
                i % plan.dst_width as int,
                i / plan.dst_width as int,
            ),
    ensures
        fixed == planned,
{
    assert forall|i: int| 0 <= i < 84 * 84 implies fixed[i] == planned[i] by {
        assert(planned[0 * (84 * 84) + i] as int == area_mean(native, 0int * (240 * 192), 240, 192, 84, 84, i % 84, i / 84));
    }
    assert(fixed =~= planned);
}


/// Whether two byte strings are equal.
fn same_bytes(a: &[u8], b: &[u8]) -> (same: bool)
    ensures
        same == (a@ == b@),
{
    if a.len() != b.len() {
        return false;
    }
    for i in 0..a.len()
        invariant
            a@.len() == b@.len(),
            forall|j: int| 0 <= j < i ==> #[trigger] a@[j] == b@[j],
    {
        if a[i] != b[i] {
            return false;
        }
    }
    assert(a@ =~= b@);
    true
}

/// The class of each saved state: the index of the first state with the
/// same bytes. Lanes whose states are in one class hold identical
/// emulators after a reset.
pub fn state_classes(data: &Vec<Vec<u8>>) -> (classes: Vec<usize>)
    ensures
        classes@.len() == data@.len(),
        forall|s: int|
            0 <= s < data@.len() ==> {
                let c = #[trigger] classes@[s] as int;
                &&& 0 <= c <= s
                &&& data@[c]@ == data@[s]@
                &&& forall|t: int| 0 <= t < c ==> data@[t]@ != data@[s]@
            },
{
    let mut classes: Vec<usize> = Vec::new();
    for s in 0..data.len()
        invariant
            classes@.len() == s,
            s <= data@.len(),
            forall|r: int|
                0 <= r < s ==> {
                    let c = #[trigger] classes@[r] as int;
                    &&& 0 <= c <= r
                    &&& data@[c]@ == data@[r]@
                    &&& forall|t: int| 0 <= t < c ==> data@[t]@ != data@[r]@
                },
    {
        let mut c: usize = 0;
        while c < s && !same_bytes(data[c].as_slice(), data[s].as_slice())
            invariant
                c <= s < data@.len(),
                forall|t: int| 0 <= t < c ==> data@[t]@ != data@[s as int]@,
            decreases s - c,
        {
            c += 1;
        }
        classes.push(c);
    }
    classes
}

/// The lanes whose episode ended, terminated or truncated, in increasing
/// order; these are the lanes an autoreset resets.
pub fn done_lanes(terminated: &[bool], truncated: &[bool]) -> (lanes: Vec<usize>)
    requires
        terminated@.len() == truncated@.len(),
    ensures
        forall|k: int| 0 <= k < lanes@.len() ==> #[trigger] lanes@[k] < terminated@.len(),
        forall|k: int| 0 <= k < lanes@.len() ==> terminated@[#[trigger] lanes@[k] as int] || truncated@[lanes@[k] as int],
        forall|k: int, l: int| 0 <= k < l < lanes@.len() ==> #[trigger] lanes@[k] < #[trigger] lanes@[l],
        forall|i: int|
            0 <= i < terminated@.len() && (terminated@[i] || truncated@[i]) ==> exists|k: int|
                0 <= k < lanes@.len() && #[trigger] lanes@[k] == i,
{
    let mut lanes: Vec<usize> = Vec::new();
    for i in 0..terminated.len()
        invariant
            terminated@.len() == truncated@.len(),
            forall|k: int| 0 <= k < lanes@.len() ==> #[trigger] lanes@[k] < i,
            forall|k: int| 0 <= k < lanes@.len() ==> terminated@[#[trigger] lanes@[k] as int] || truncated@[lanes@[k] as int],
            forall|k: int, l: int| 0 <= k < l < lanes@.len() ==> #[trigger] lanes@[k] < #[trigger] lanes@[l],
            forall|j: int|
                0 <= j < i && (terminated@[j] || truncated@[j]) ==> exists|k: int|
                    0 <= k < lanes@.len() && #[trigger] lanes@[k] == j,
    {
        if terminated[i] || truncated[i] {
            let ghost before = lanes@;
            lanes.push(i);
            proof {
                assert forall|j: int|
                    0 <= j < i + 1 && (terminated@[j] || truncated@[j]) implies exists|k: int|
                        0 <= k < lanes@.len() && #[trigger] lanes@[k] == j by {
                    if j == i {
                        assert(lanes@[before.len() as int] == j);
                    } else {
                        let k = choose|k: int| 0 <= k < before.len() && #[trigger] before[k] == j;
                        assert(lanes@[k] == j);
                    }
                }
            }
        }
    }
    lanes
}

/// Lane groups over `n` lanes: each group non-empty, every lane in range,
/// and no lane listed twice, within a group or across groups.
pub open spec fn lane_groups_ok(groups: Seq<Vec<usize>>, n: int) -> bool {
    &&& forall|g: int| 0 <= g < groups.len() ==> #[trigger] groups[g]@.len() > 0
    &&& forall|g: int, k: int| 0 <= g < groups.len() && 0 <= k < groups[g]@.len() ==> #[trigger] groups[g]@[k] < n
    &&& forall|g1: int, k1: int, g2: int, k2: int|
        0 <= g1 < groups.len() && 0 <= k1 < groups[g1]@.len() && 0 <= g2 < groups.len() && 0 <= k2
            < groups[g2]@.len() && (g1 != g2 || k1 != k2) ==> #[trigger] groups[g1]@[k1] != #[trigger] groups[g2]@[k2]
}

/// Lane `j` is a peer (not the first lane) of some group.
pub open spec fn is_peer(groups: Seq<Vec<usize>>, j: int) -> bool {
    exists|g: int, k: int| 0 <= g < groups.len() && 1 <= k < groups[g]@.len() && #[trigger] groups[g]@[k] == j
}

/// Gives every peer of each group the entry of the group's first lane; the
/// other entries stay.
pub fn copy_to_peers<T: Copy>(groups: &Vec<Vec<usize>>, values: &mut [T])
    requires
        lane_groups_ok(groups@, old(values)@.len() as int),
    ensures
        final(values)@.len() == old(values)@.len(),
        forall|g: int, k: int|
            0 <= g < groups@.len() && 0 <= k < groups@[g]@.len() ==> final(values)@[#[trigger] groups@[g]@[k] as int]
                == old(values)@[groups@[g]@[0] as int],
        forall|j: int| 0 <= j < old(values)@.len() && !is_peer(groups@, j) ==> #[trigger] final(values)@[j] == old(values)@[j],
{
    let ghost old_values = values@;
    let ghost gs = groups@;
    let n = values.len();
    for g in 0..groups.len()
        invariant
            gs == groups@,
            lane_groups_ok(gs, old_values.len() as int),
            n == old_values.len(),
            values@.len() == n,
            forall|g2: int, k2: int|
                0 <= g2 < g && 0 <= k2 < gs[g2]@.len() ==> values@[#[trigger] gs[g2]@[k2] as int] == old_values[gs[g2]@[0] as int],
            forall|j: int|
                0 <= j < n && values@[j] != old_values[j] ==> exists|g2: int, k2: int|
                    0 <= g2 < g && 1 <= k2 < gs[g2]@.len() && #[trigger] gs[g2]@[k2] == j,
    {
        let group = &groups[g];
        let first = group[0];
        proof {
            if values@[first as int] != old_values[first as int] {
                let (g2, k2) = choose|g2: int, k2: int|
                    0 <= g2 < g && 1 <= k2 < gs[g2]@.len() && #[trigger] gs[g2]@[k2] == first as int;
                assert(gs[g2]@[k2] != gs[g as int]@[0]);
            }
        }
        let leader = values[first];
        for k in 1..group.len()
            invariant
                gs == groups@,
                g < gs.len(),
                group == gs[g as int],
                first == group@[0],
                lane_groups_ok(gs, old_values.len() as int),
                n == old_values.len(),
                values@.len() == n,
                leader == old_values[first as int],
                forall|g2: int, k2: int|
                    0 <= g2 < g && 0 <= k2 < gs[g2]@.len() ==> values@[#[trigger] gs[g2]@[k2] as int] == old_values[gs[g2]@[0] as int],
                forall|k2: int| 1 <= k2 < k ==> values@[#[trigger] group@[k2] as int] == leader,
                forall|j: int|
                    0 <= j < n && values@[j] != old_values[j] ==> exists|g2: int, k2: int|
                        ((0 <= g2 < g && 1 <= k2 < gs[g2]@.len()) || (g2 == g && 1 <= k2 < k)) && #[trigger] gs[g2]@[k2] == j,
        {
            let lane = group[k];
            let ghost before = values@;
            values[lane] = leader;
            proof {
                assert forall|g2: int, k2: int|
                    0 <= g2 < g && 0 <= k2 < gs[g2]@.len() implies values@[#[trigger] gs[g2]@[k2] as int] == old_values[gs[g2]@[0] as int] by {
                    assert(gs[g2]@[k2] != gs[g as int]@[k as int]);
                }
                assert forall|k2: int| 1 <= k2 < k + 1 implies values@[#[trigger] group@[k2] as int] == leader by {
                    if k2 < k {
                        assert(gs[g as int]@[k2] != gs[g as int]@[k as int]);
                    }
                }
                assert forall|j: int|
                    0 <= j < n && values@[j] != old_values[j] implies exists|g2: int, k2: int|
                        ((0 <= g2 < g && 1 <= k2 < gs[g2]@.len()) || (g2 == g && 1 <= k2 < k + 1)) && #[trigger] gs[g2]@[k2] == j by {
                    if j == lane as int {
                        assert(gs[g as int]@[k as int] == j);
                    } else {
                        assert(before[j] != old_values[j]);
                        let (g2, k2) = choose|g2: int, k2: int|
                            ((0 <= g2 < g && 1 <= k2 < gs[g2]@.len()) || (g2 == g && 1 <= k2 < k)) && #[trigger] gs[g2]@[k2] == j;
                        assert(gs[g2]@[k2] == j);
                    }
                }
            }
        }
        proof {
            assert forall|g2: int, k2: int|
                0 <= g2 < g + 1 && 0 <= k2 < gs[g2]@.len() implies values@[#[trigger] gs[g2]@[k2] as int] == old_values[gs[g2]@[0] as int] by {
                if g2 == g && k2 == 0 {
                    if values@[first as int] != old_values[first as int] {
                        let (g3, k3) = choose|g3: int, k3: int|
                            ((0 <= g3 < g && 1 <= k3 < gs[g3]@.len()) || (g3 == g && 1 <= k3 < group@.len())) && #[trigger] gs[g3]@[k3] == first as int;
                        assert(gs[g3]@[k3] != gs[g as int]@[0]);
                    }
                }
            }
        }
    }
    proof {
        assert forall|j: int| 0 <= j < old_values.len() && !is_peer(gs, j) implies #[trigger] values@[j] == old_values[j] by {
            if values@[j] != old_values[j] {
                let (g2, k2) = choose|g2: int, k2: int|
                    0 <= g2 < gs.len() && 1 <= k2 < gs[g2]@.len() && #[trigger] gs[g2]@[k2] == j;
                assert(is_peer(gs, j));
            }
        }
    }
}

/// A byte of lane `a`'s block lies outside the block of any other lane.
proof fn lemma_lane_blocks_disjoint(a: int, b: int, stride: int, i: int, n: int)
    requires
        0 <= a < n,
        0 <= b < n,
        a != b,
        0 <= i < stride,
    ensures
        !(b * stride <= a * stride + i < (b + 1) * stride),
        0 <= a * stride + i < (a + 1) * stride <= n * stride,
{
    assert((a + 1) * stride <= n * stride) by (nonlinear_arith)
        requires
            a < n,
            0 <= stride,
    ;
    if a < b {
        assert(a * stride + i < b * stride) by (nonlinear_arith)
            requires
                a < b,
                0 <= i < stride,
        ;
    } else {
        assert((b + 1) * stride <= a * stride) by (nonlinear_arith)
            requires
                b < a,
                0 <= stride,
        ;
    }
    assert(a * stride + i < (a + 1) * stride) by (nonlinear_arith)
        requires
            i < stride,
    ;
    assert(0 <= a * stride) by (nonlinear_arith)
        requires
            0 <= a,
            0 <= stride,
    ;
}

/// Byte `i` of lane `lane`'s block of `stride` bytes.
pub open spec fn lane_byte(s: Seq<u8>, stride: int, lane: int, i: int) -> u8 {
    s[lane * stride + i]
}

/// Gives every peer of each group the observation block (`obs_stride`
/// bytes per lane) of the group's first lane; every other byte stays.
pub fn copy_obs_to_peers(groups: &Vec<Vec<usize>>, obs: &mut [u8], obs_stride: usize, n_lanes: usize)
    requires
        lane_groups_ok(groups@, n_lanes as int),
        n_lanes * obs_stride <= old(obs)@.len(),
    ensures
        final(obs)@.len() == old(obs)@.len(),
        forall|g: int, k: int, i: int|
            0 <= g < groups@.len() && 0 <= k < groups@[g]@.len() && 0 <= i < obs_stride ==> #[trigger] lane_byte(final(obs)@, obs_stride as int, groups@[g]@[k] as int, i) == lane_byte(old(obs)@, obs_stride as int, groups@[g]@[0] as int, i),
        forall|lane: int, i: int|
            0 <= lane < n_lanes && 0 <= i < obs_stride && !is_peer(groups@, lane) ==> #[trigger] lane_byte(final(obs)@, obs_stride as int, lane as int, i) == lane_byte(old(obs)@, obs_stride as int, lane as int, i),
        forall|j: int| n_lanes * obs_stride <= j < old(obs)@.len() ==> #[trigger] final(obs)@[j] == old(obs)@[j],
{
    let ghost old_obs = obs@;
    let ghost gs = groups@;
    let ghost st = obs_stride as int;
    for g in 0..groups.len()
        invariant
            gs == groups@,
            st == obs_stride,
            lane_groups_ok(gs, n_lanes as int),
            n_lanes * obs_stride <= old_obs.len(),
            obs@.len() == old_obs.len(),
            forall|g2: int, k2: int, i: int|
                0 <= g2 < g && 0 <= k2 < gs[g2]@.len() && 0 <= i < st ==> #[trigger] lane_byte(obs@, st as int, gs[g2]@[k2] as int, i)
                    == lane_byte(old_obs, st as int, gs[g2]@[0] as int, i),
            forall|lane: int, i: int|
                0 <= lane < n_lanes && 0 <= i < st && lane_byte(obs@, st as int, lane as int, i) != lane_byte(old_obs, st as int, lane as int, i) ==> exists|
                    g2: int,
                    k2: int,
                | 0 <= g2 < g && 1 <= k2 < gs[g2]@.len() && #[trigger] gs[g2]@[k2] == lane,
            forall|j: int| n_lanes * st <= j < old_obs.len() ==> #[trigger] obs@[j] == old_obs[j],
    {
        let group = &groups[g];
        let first = group[0];
        for k in 1..group.len()
            invariant
                gs == groups@,
                st == obs_stride,
                g < gs.len(),
                group == gs[g as int],
                first == group@[0],
                lane_groups_ok(gs, n_lanes as int),
                n_lanes * obs_stride <= old_obs.len(),
                obs@.len() == old_obs.len(),
                forall|g2: int, k2: int, i: int|
                    0 <= g2 < g && 0 <= k2 < gs[g2]@.len() && 0 <= i < st ==> #[trigger] lane_byte(obs@, st as int, gs[g2]@[k2] as int, i)
                        == lane_byte(old_obs, st as int, gs[g2]@[0] as int, i),
                forall|i: int| 0 <= i < st ==> #[trigger] lane_byte(obs@, st as int, first as int, i) == lane_byte(old_obs, st as int, first as int, i),
                forall|k2: int, i: int|
                    1 <= k2 < k && 0 <= i < st ==> #[trigger] lane_byte(obs@, st as int, group@[k2] as int, i) == lane_byte(old_obs, st as int, first as int, i),
                forall|lane: int, i: int|
                    0 <= lane < n_lanes && 0 <= i < st && lane_byte(obs@, st as int, lane as int, i) != lane_byte(old_obs, st as int, lane as int, i) ==> exists|
                        g2: int,
                        k2: int,
                    | ((0 <= g2 < g && 1 <= k2 < gs[g2]@.len()) || (g2 == g && 1 <= k2 < k)) && #[trigger] gs[g2]@[k2]
                        == lane,
                forall|j: int| n_lanes * st <= j < old_obs.len() ==> #[trigger] obs@[j] == old_obs[j],
        {
            let lane = group[k];
            let ghost before = obs@;
            assert(first != lane) by {
                assert(gs[g as int]@[0] != gs[g as int]@[k as int]);
            }
            assert((first + 1) * obs_stride <= n_lanes * obs_stride && (lane + 1) * obs_stride <= n_lanes * obs_stride)
                by (nonlinear_arith)
                requires
                    first < n_lanes,
                    lane < n_lanes,
            ;
            copy_obs_lane(obs, obs_stride, first, lane);
            proof {
                assert forall|j: int| n_lanes * st <= j < old_obs.len() implies #[trigger] obs@[j] == old_obs[j] by {
                    assert(!(lane * st <= j < (lane + 1) * st));
                    assert(obs@[j] == before[j]);
                }
                assert forall|i: int| 0 <= i < st implies #[trigger] lane_byte(obs@, st as int, first as int, i) == lane_byte(old_obs, st as int, first as int, i) by {
                    lemma_lane_blocks_disjoint(first as int, lane as int, st, i, n_lanes as int);
                    assert(lane_byte(obs@, st as int, first as int, i) == lane_byte(before, st as int, first as int, i));
                }
                assert forall|g2: int, k2: int, i: int|
                    0 <= g2 < g && 0 <= k2 < gs[g2]@.len() && 0 <= i < st implies #[trigger] lane_byte(obs@, st as int, gs[g2]@[k2] as int, i) == lane_byte(old_obs, st as int, gs[g2]@[0] as int, i) by {
                    assert(gs[g2]@[k2] != gs[g as int]@[k as int]);
                    lemma_lane_blocks_disjoint(gs[g2]@[k2] as int, lane as int, st, i, n_lanes as int);
                    assert(lane_byte(obs@, st as int, gs[g2]@[k2] as int, i) == lane_byte(before, st as int, gs[g2]@[k2] as int, i));
                }
                assert forall|k2: int, i: int| 1 <= k2 < k + 1 && 0 <= i < st implies #[trigger] lane_byte(obs@, st as int, group@[k2] as int, i) == lane_byte(old_obs, st as int, first as int, i) by {
                    if k2 < k {
                        assert(gs[g as int]@[k2] != gs[g as int]@[k as int]);
                        lemma_lane_blocks_disjoint(group@[k2] as int, lane as int, st, i, n_lanes as int);
                        assert(lane_byte(obs@, st as int, group@[k2] as int, i) == lane_byte(before, st as int, group@[k2] as int, i));
                    } else {
                        assert(lane_byte(obs@, st as int, lane as int, i) == lane_byte(before, st as int, first as int, i));
                    }
                }
                assert forall|l: int, i: int|
                    0 <= l < n_lanes && 0 <= i < st && lane_byte(obs@, st as int, l as int, i) != lane_byte(old_obs, st as int, l as int, i) implies exists|
                        g2: int,
                        k2: int,
                    | ((0 <= g2 < g && 1 <= k2 < gs[g2]@.len()) || (g2 == g && 1 <= k2 < k + 1)) && #[trigger] gs[g2]@[k2]
                        == l by {
                    if l == lane as int {
                        assert(gs[g as int]@[k as int] == l);
                    } else {
                        lemma_lane_blocks_disjoint(l, lane as int, st, i, n_lanes as int);
                        assert(lane_byte(obs@, st as int, l as int, i) == lane_byte(before, st as int, l as int, i));
                        let (g2, k2) = choose|g2: int, k2: int|
                            ((0 <= g2 < g && 1 <= k2 < gs[g2]@.len()) || (g2 == g && 1 <= k2 < k)) && #[trigger] gs[g2]@[k2]
                                == l;
                        assert(gs[g2]@[k2] == l);
                    }
                }
            }
        }
    }
    proof {
        assert forall|lane: int, i: int|
            0 <= lane < n_lanes && 0 <= i < st && !is_peer(gs, lane) implies #[trigger] lane_byte(obs@, st as int, lane as int, i) == lane_byte(old_obs, st as int, lane as int, i) by {
            if lane_byte(obs@, st as int, lane as int, i) != lane_byte(old_obs, st as int, lane as int, i) {
                let (g2, k2) = choose|g2: int, k2: int|
                    0 <= g2 < gs.len() && 1 <= k2 < gs[g2]@.len() && #[trigger] gs[g2]@[k2] == lane;
                assert(is_peer(gs, lane));
            }
        }
    }
}

/// Whether every lane of each group was given the same action as the
/// group's first lane.
pub fn synced_group_actions_are_uniform(groups: &Vec<Vec<usize>>, actions: &[u8]) -> (uniform: bool)
    requires
        forall|g: int|
            0 <= g < groups@.len() ==> #[trigger] groups@[g]@.len() > 0 && forall|k: int|
                0 <= k < groups@[g]@.len() ==> #[trigger] groups@[g]@[k] < actions@.len(),
    ensures
        uniform == forall|g: int, k: int|
            0 <= g < groups@.len() && 0 <= k < groups@[g]@.len() ==> actions@[#[trigger] groups@[g]@[k] as int]
                == actions@[groups@[g]@[0] as int],
{
    for g in 0..groups.len()
        invariant
            forall|h: int|
                0 <= h < groups@.len() ==> #[trigger] groups@[h]@.len() > 0 && forall|k: int|
                    0 <= k < groups@[h]@.len() ==> #[trigger] groups@[h]@[k] < actions@.len(),
            forall|h: int, k: int|
                0 <= h < g && 0 <= k < groups@[h]@.len() ==> actions@[#[trigger] groups@[h]@[k] as int]
                    == actions@[groups@[h]@[0] as int],
    {
        let group = &groups[g];
        let first_action = actions[group[0]];
        for k in 1..group.len()
            invariant
                g < groups@.len(),
                group == groups@[g as int],
                group@.len() > 0,
                forall|k2: int| 0 <= k2 < group@.len() ==> #[trigger] group@[k2] < actions@.len(),
                first_action == actions@[group@[0] as int],
                forall|j: int| 0 <= j < k ==> actions@[#[trigger] group@[j] as int] == first_action,
        {
            if actions[group[k]] != first_action {
                assert(actions@[groups@[g as int]@[k as int] as int] != actions@[groups@[g as int]@[0] as int]);
                return false;
            }
        }
    }
    true
}

/// Groups the lanes that hold a saved state (class `>= 0`) by class: one
/// group per class, in the order of its first lane, each listing its lanes
/// in order. When no group has more than one lane there is nothing to
/// share, and no groups are returned.
#[verifier::spinoff_prover]
#[verifier::rlimit(60)]
pub fn group_lanes_by_class(classes: &[i64]) -> (groups: Vec<Vec<usize>>)
    ensures
        forall|g: int|
            0 <= g < groups@.len() ==> {
                let grp = #[trigger] groups@[g]@;
                &&& grp.len() > 0
                &&& forall|k: int| 0 <= k < grp.len() ==> #[trigger] grp[k] < classes@.len()
                &&& forall|k: int| 0 <= k < grp.len() ==> classes@[#[trigger] grp[k] as int] >= 0
                &&& forall|k: int| 0 <= k < grp.len() ==> classes@[#[trigger] grp[k] as int] == classes@[grp[0] as int]
                &&& forall|k: int, l: int| 0 <= k < l < grp.len() ==> #[trigger] grp[k] < #[trigger] grp[l]
            },
        forall|g: int, h: int|
            0 <= g < h < groups@.len() ==> classes@[#[trigger] groups@[g]@[0] as int] != classes@[
                #[trigger] groups@[h]@[0] as int],
        groups@.len() > 0 ==> (forall|lane: int|
            0 <= lane < classes@.len() && classes@[lane] >= 0 ==> exists|g: int, k: int|
                0 <= g < groups@.len() && 0 <= k < groups@[g]@.len() && #[trigger] groups@[g]@[k] == lane),
        groups@.len() > 0 ==> exists|g: int| 0 <= g < groups@.len() && #[trigger] groups@[g]@.len() > 1,
        forall|g: int, h: int|
            0 <= g < h < groups@.len() ==> #[trigger] groups@[g]@[0] < #[trigger] groups@[h]@[0],
        groups@.len() > 0 <==> has_shared_class(classes@),
        lane_groups_ok(groups@, classes@.len() as int),
{
    let mut groups: Vec<Vec<usize>> = Vec::new();
    for lane in 0..classes.len()
        invariant
            forall|g: int|
                0 <= g < groups@.len() ==> {
                    let grp = #[trigger] groups@[g]@;
                    &&& grp.len() > 0
                    &&& forall|k: int| 0 <= k < grp.len() ==> #[trigger] grp[k] < lane
                    &&& forall|k: int| 0 <= k < grp.len() ==> classes@[#[trigger] grp[k] as int] >= 0
                    &&& forall|k: int| 0 <= k < grp.len() ==> classes@[#[trigger] grp[k] as int] == classes@[grp[0] as int]
                    &&& forall|k: int, l: int| 0 <= k < l < grp.len() ==> #[trigger] grp[k] < #[trigger] grp[l]
                },
            forall|g: int, h: int|
                0 <= g < h < groups@.len() ==> classes@[#[trigger] groups@[g]@[0] as int] != classes@[
                    #[trigger] groups@[h]@[0] as int],
            forall|g: int, h: int|
                0 <= g < h < groups@.len() ==> #[trigger] groups@[g]@[0] < #[trigger] groups@[h]@[0],
            forall|l: int|
                0 <= l < lane && classes@[l] >= 0 ==> exists|g: int, k: int|
                    0 <= g < groups@.len() && 0 <= k < groups@[g]@.len() && #[trigger] groups@[g]@[k] == l,
    {
        let class = classes[lane];
        if class >= 0 {
            let mut found: usize = groups.len();
            for g in 0..groups.len()
                invariant
                    found == groups@.len() || (found < g && classes@[groups@[found as int]@[0] as int] == class),
                    found == groups@.len() ==> forall|h: int|
                        0 <= h < g ==> classes@[#[trigger] groups@[h]@[0] as int] != class,
                    forall|h: int| 0 <= h < groups@.len() ==> #[trigger] groups@[h]@.len() > 0,
                    forall|h: int| 0 <= h < groups@.len() ==> #[trigger] groups@[h]@[0] < classes@.len(),
            {
                if found == groups.len() && classes[groups[g][0]] == class {
                    found = g;
                }
            }
            let ghost old_groups = groups@;
            if found < groups.len() {
                let mut grp = groups[found].clone();
                assert(grp@ == old_groups[found as int]@);
                grp.push(lane);
                groups.set(found, grp);
                proof {
                    assert forall|l: int|
                        0 <= l < lane + 1 && classes@[l] >= 0 implies exists|g: int, k: int|
                            0 <= g < groups@.len() && 0 <= k < groups@[g]@.len() && #[trigger] groups@[g]@[k] == l by {
                        if l < lane {
                            let (g, k) = choose|g: int, k: int|
                                0 <= g < old_groups.len() && 0 <= k < old_groups[g]@.len() && #[trigger] old_groups[g]@[k] == l;
                            assert(groups@[g]@[k] == l);
                        } else {
                            assert(groups@[found as int]@[groups@[found as int]@.len() - 1] == l);
                        }
                    }
                    assert forall|g: int, h: int|
                        0 <= g < h < groups@.len() implies classes@[#[trigger] groups@[g]@[0] as int] != classes@[
                            #[trigger] groups@[h]@[0] as int] by {
                        assert(groups@[g]@[0] == old_groups[g]@[0]);
                        assert(groups@[h]@[0] == old_groups[h]@[0]);
                    }
                    assert forall|g: int, h: int|
                        0 <= g < h < groups@.len() implies #[trigger] groups@[g]@[0] < #[trigger] groups@[h]@[0] by {
                        assert(groups@[g]@[0] == old_groups[g]@[0]);
                        assert(groups@[h]@[0] == old_groups[h]@[0]);
                    }
                }
            } else {
                let mut grp: Vec<usize> = Vec::new();
                grp.push(lane);
                groups.push(grp);
                proof {
                    assert forall|l: int|
                        0 <= l < lane + 1 && classes@[l] >= 0 implies exists|g: int, k: int|
                            0 <= g < groups@.len() && 0 <= k < groups@[g]@.len() && #[trigger] groups@[g]@[k] == l by {
                        if l < lane {
                            let (g, k) = choose|g: int, k: int|
                                0 <= g < old_groups.len() && 0 <= k < old_groups[g]@.len() && #[trigger] old_groups[g]@[k] == l;
                            assert(groups@[g]@[k] == l);
                        } else {
                            assert(groups@[old_groups.len() as int]@[0] == l);
                        }
                    }
                }
            }
        }
    }
    let mut shared = false;
    for g in 0..groups.len()
        invariant
            shared == exists|h: int| 0 <= h < g && #[trigger] groups@[h]@.len() > 1,
    {
        if groups[g].len() > 1 {
            shared = true;
        }
    }
    proof {
        lemma_shared_group_iff(classes@, groups@);
        lemma_class_groups_ok(classes@, groups@);
    }
    if shared {
        groups
    } else {
        Vec::new()
    }
}

/// Some two lanes hold a saved state of one class.
pub open spec fn has_shared_class(classes: Seq<i64>) -> bool {
    exists|a: int, b: int|
        0 <= a < b < classes.len() && classes[a] >= 0 && #[trigger] classes[a] == #[trigger] classes[b]
}

/// Groups by class list no lane twice: within a group lanes increase, and
/// groups of different classes share no lane.
proof fn lemma_class_groups_ok(classes: Seq<i64>, groups: Seq<Vec<usize>>)
    requires
        forall|g: int|
            0 <= g < groups.len() ==> {
                let grp = #[trigger] groups[g]@;
                &&& grp.len() > 0
                &&& forall|k: int| 0 <= k < grp.len() ==> #[trigger] grp[k] < classes.len()
                &&& forall|k: int| 0 <= k < grp.len() ==> classes[#[trigger] grp[k] as int] >= 0
                &&& forall|k: int| 0 <= k < grp.len() ==> classes[#[trigger] grp[k] as int] == classes[grp[0] as int]
                &&& forall|k: int, l: int| 0 <= k < l < grp.len() ==> #[trigger] grp[k] < #[trigger] grp[l]
            },
        forall|g: int, h: int|
            0 <= g < h < groups.len() ==> classes[#[trigger] groups[g]@[0] as int] != classes[
                #[trigger] groups[h]@[0] as int],
    ensures
        lane_groups_ok(groups, classes.len() as int),
{
    assert forall|g: int, k: int| 0 <= g < groups.len() && 0 <= k < groups[g]@.len() implies #[trigger] groups[g]@[k]
        < classes.len() by {
        let grp = groups[g]@;
        assert(grp[k] < classes.len());
    }
    assert forall|g1: int, k1: int, g2: int, k2: int|
        0 <= g1 < groups.len() && 0 <= k1 < groups[g1]@.len() && 0 <= g2 < groups.len() && 0 <= k2
            < groups[g2]@.len() && (g1 != g2 || k1 != k2) implies #[trigger] groups[g1]@[k1] != #[trigger] groups[g2]@[k2] by {
        let a = groups[g1]@;
        let b = groups[g2]@;
        if g1 == g2 {
            if k1 < k2 {
                assert(a[k1] < a[k2]);
            } else {
                assert(a[k2] < a[k1]);
            }
        } else {
            assert(classes[a[k1] as int] == classes[a[0] as int]);
            assert(classes[b[k2] as int] == classes[b[0] as int]);
            if g1 < g2 {
                assert(classes[groups[g1]@[0] as int] != classes[groups[g2]@[0] as int]);
            } else {
                assert(classes[groups[g2]@[0] as int] != classes[groups[g1]@[0] as int]);
            }
        }
    }
}

/// Of a grouping of the lanes by class, some group has more than one lane
/// exactly when some two lanes hold a saved state of one class.
proof fn lemma_shared_group_iff(classes: Seq<i64>, groups: Seq<Vec<usize>>)
    requires
        forall|g: int|
            0 <= g < groups.len() ==> {
                let grp = #[trigger] groups[g]@;
                &&& grp.len() > 0
                &&& forall|k: int| 0 <= k < grp.len() ==> #[trigger] grp[k] < classes.len()
                &&& forall|k: int| 0 <= k < grp.len() ==> classes[#[trigger] grp[k] as int] >= 0
                &&& forall|k: int| 0 <= k < grp.len() ==> classes[#[trigger] grp[k] as int] == classes[grp[0] as int]
                &&& forall|k: int, l: int| 0 <= k < l < grp.len() ==> #[trigger] grp[k] < #[trigger] grp[l]
            },
        forall|g: int, h: int|
            0 <= g < h < groups.len() ==> classes[#[trigger] groups[g]@[0] as int] != classes[
                #[trigger] groups[h]@[0] as int],
        forall|lane: int|
            0 <= lane < classes.len() && classes[lane] >= 0 ==> exists|g: int, k: int|
                0 <= g < groups.len() && 0 <= k < groups[g]@.len() && #[trigger] groups[g]@[k] == lane,
    ensures
        (exists|g: int| 0 <= g < groups.len() && #[trigger] groups[g]@.len() > 1) <==> has_shared_class(classes),
{
    if exists|g: int| 0 <= g < groups.len() && #[trigger] groups[g]@.len() > 1 {
        let g = choose|g: int| 0 <= g < groups.len() && #[trigger] groups[g]@.len() > 1;
        let grp = groups[g]@;
        assert(grp[0] < grp[1]);
        assert(classes[grp[1] as int] == classes[grp[0] as int]);
        assert(classes[grp[0] as int] >= 0);
        assert(has_shared_class(classes));
    } else if has_shared_class(classes) {
        let (a, b) = choose|a: int, b: int|
            0 <= a < b < classes.len() && classes[a] >= 0 && #[trigger] classes[a] == #[trigger] classes[b];
        let (ga, ka) = choose|g: int, k: int|
            0 <= g < groups.len() && 0 <= k < groups[g]@.len() && #[trigger] groups[g]@[k] == a;
        let (gb, kb) = choose|g: int, k: int|
            0 <= g < groups.len() && 0 <= k < groups[g]@.len() && #[trigger] groups[g]@[k] == b;
        assert(classes[groups[ga]@[ka] as int] == classes[groups[ga]@[0] as int]);
        assert(classes[groups[gb]@[kb] as int] == classes[groups[gb]@[0] as int]);
        if ga < gb {
            assert(classes[groups[ga]@[0] as int] != classes[groups[gb]@[0] as int]);
        } else if gb < ga {
            assert(classes[groups[gb]@[0] as int] != classes[groups[ga]@[0] as int]);
        } else {
            assert(groups[ga]@.len() > 1);
        }
    }
}


/// Sharing one emulator among identical lanes is exact: a lane holding a
/// copy of the shared emulator, given the same action, ends in the same
/// state with the same reward, end flag and fired rules, and its
/// observation frame is the one the shared lane rendered.
pub proof fn lemma_shared_lane_exact(
    config: VecEnvConfig,
    shared: NesEmulator,
    copy: NesEmulator,
    action_id: u8,
    baseline: InfoSnapshot,
    rules: Seq<DoneOnInfoRule>,
    shared_frame: Seq<u8>,
    copy_frame: Seq<u8>,
)
    requires
        config.wf(),
        copy == shared,
        config.frame_ok(
            advance_spec(shared, action_of(action_id), config.frame_skip as nat, baseline, rules).0.ppu,
            shared_frame,
        ),
        config.frame_ok(
            advance_spec(copy, action_of(action_id), config.frame_skip as nat, baseline, rules).0.ppu,
            copy_frame,
        ),
    ensures
        advance_spec(copy, action_of(action_id), config.frame_skip as nat, baseline, rules) == advance_spec(
            shared,
            action_of(action_id),
            config.frame_skip as nat,
            baseline,
            rules,
        ),
        copy_frame == shared_frame,
{
    let t = advance_spec(shared, action_of(action_id), config.frame_skip as nat, baseline, rules);
    lemma_frame_ok_unique(config, t.0.ppu, shared_frame, copy_frame);
}


/// How a batch step runs: every lane shares the first lane's emulator and
/// it alone is stepped, each lane group's first lane is stepped for the
/// group, or every lane is stepped on its own.
#[derive(Clone, Copy, Debug, PartialEq, Eq, Structural)]
pub enum StepMode {
    Broadcast,
    Groups,
    Lanes,
}

/// What a batch step does before stepping: whether the shared first lane
/// is copied into every lane, whether each group's first lane is copied
/// into its group (and whether that is because the group actions
/// diverged), and how the lanes are then stepped.
#[derive(Clone, Copy, Debug, PartialEq, Eq, Structural)]
pub struct StepPlan {
    pub materialize_lanes: bool,
    pub materialize_groups: bool,
    pub group_miss: bool,
    pub mode: StepMode,
}

/// Every action equals the first one.
pub open spec fn all_actions_equal(actions: Seq<u8>) -> bool {
    forall|i: int| 0 <= i < actions.len() ==> #[trigger] actions[i] == actions[0]
}

/// Every lane of each group has its group's first action.
pub open spec fn group_actions_equal(groups: Seq<Vec<usize>>, actions: Seq<u8>) -> bool {
    forall|g: int, k: int|
        0 <= g < groups.len() && 0 <= k < groups[g]@.len() ==> actions[#[trigger] groups[g]@[k] as int]
            == actions[groups[g]@[0] as int]
}

/// The plan of a batch step. Lanes that share an emulator are split up
/// first when rules are watched (each lane keeps its own fired rules) and
/// when the actions diverge; a shared batch with equal actions steps the
/// first lane only, a grouped batch whose groups act uniformly steps each
/// group's first lane, and everything else steps every lane.
pub open spec fn step_plan_spec(
    synced_lanes: bool,
    num_envs: int,
    has_rules: bool,
    groups: Seq<Vec<usize>>,
    actions: Seq<u8>,
) -> StepPlan {
    let shared = synced_lanes && num_envs > 1;
    if shared && !has_rules {
        if all_actions_equal(actions) {
            StepPlan { materialize_lanes: false, materialize_groups: false, group_miss: false, mode: StepMode::Broadcast }
        } else {
            StepPlan { materialize_lanes: true, materialize_groups: false, group_miss: false, mode: StepMode::Lanes }
        }
    } else if shared {
        StepPlan { materialize_lanes: true, materialize_groups: false, group_miss: false, mode: StepMode::Lanes }
    } else if groups.len() > 0 && has_rules {
        StepPlan { materialize_lanes: false, materialize_groups: true, group_miss: false, mode: StepMode::Lanes }
    } else if groups.len() > 0 {
        if group_actions_equal(groups, actions) {
            StepPlan { materialize_lanes: false, materialize_groups: false, group_miss: false, mode: StepMode::Groups }
        } else {
            StepPlan { materialize_lanes: false, materialize_groups: true, group_miss: true, mode: StepMode::Lanes }
        }
    } else {
        StepPlan { materialize_lanes: false, materialize_groups: false, group_miss: false, mode: StepMode::Lanes }
    }
}


/// A step plan shares an emulator only when that is exact: every lane
/// runs the shared first lane (broadcast) only when lanes are synced, there
/// are no rules and every action equals the first; groups run their first
/// lane only when there are no rules and each group's actions agree. When
/// synced lanes are not broadcast they are copied out first; when groups
/// exist and are not stepped as groups they are copied out first, a group
/// miss being the case where their actions disagreed.
pub proof fn lemma_plan_sound(
    synced_lanes: bool,
    num_envs: int,
    has_rules: bool,
    groups: Seq<Vec<usize>>,
    actions: Seq<u8>,
)
    ensures
        ({
            let p = step_plan_spec(synced_lanes, num_envs, has_rules, groups, actions);
            let shared = synced_lanes && num_envs > 1;
            &&& p.mode == StepMode::Broadcast ==> shared && !has_rules && (forall|i: int|
                0 <= i < actions.len() ==> #[trigger] actions[i] == actions[0])
            &&& p.mode == StepMode::Groups ==> !shared && groups.len() > 0 && !has_rules && (forall|g: int, k: int|
                0 <= g < groups.len() && 0 <= k < groups[g]@.len() ==> actions[#[trigger] groups[g]@[k] as int]
                    == actions[groups[g]@[0] as int])
            &&& shared && p.mode != StepMode::Broadcast ==> p.materialize_lanes && p.mode == StepMode::Lanes
            &&& !shared && groups.len() > 0 && p.mode != StepMode::Groups ==> p.materialize_groups && p.mode
                == StepMode::Lanes
            &&& p.group_miss <==> (!shared && groups.len() > 0 && !has_rules && !(forall|g: int, k: int|
                0 <= g < groups.len() && 0 <= k < groups[g]@.len() ==> actions[#[trigger] groups[g]@[k] as int]
                    == actions[groups[g]@[0] as int]))
            &&& !shared && groups.len() == 0 ==> p == (StepPlan {
                materialize_lanes: false,
                materialize_groups: false,
                group_miss: false,
                mode: StepMode::Lanes,
            })
        }),
{
}
/// Decides how a batch step runs (see `step_plan_spec`).
pub fn plan_step(
    synced_lanes: bool,
    num_envs: usize,
    has_rules: bool,
    groups: &Vec<Vec<usize>>,
    actions: &[u8],
) -> (plan: StepPlan)
    requires
        synced_lanes && num_envs > 1 ==> actions@.len() > 0,
        forall|g: int|
            0 <= g < groups@.len() ==> #[trigger] groups@[g]@.len() > 0 && forall|k: int|
                0 <= k < groups@[g]@.len() ==> #[trigger] groups@[g]@[k] < actions@.len(),
    ensures
        plan == step_plan_spec(synced_lanes, num_envs as int, has_rules, groups@, actions@),
{
    let shared = synced_lanes && num_envs > 1;
    if shared && !has_rules {
        if actions_are_uniform(actions, actions[0]) {
            StepPlan { materialize_lanes: false, materialize_groups: false, group_miss: false, mode: StepMode::Broadcast }
        } else {
            StepPlan { materialize_lanes: true, materialize_groups: false, group_miss: false, mode: StepMode::Lanes }
        }
    } else if shared {
        StepPlan { materialize_lanes: true, materialize_groups: false, group_miss: false, mode: StepMode::Lanes }
    } else if groups.len() > 0 && has_rules {
        StepPlan { materialize_lanes: false, materialize_groups: true, group_miss: false, mode: StepMode::Lanes }
    } else if groups.len() > 0 {
        if synced_group_actions_are_uniform(groups, actions) {
            StepPlan { materialize_lanes: false, materialize_groups: false, group_miss: false, mode: StepMode::Groups }
        } else {
            StepPlan { materialize_lanes: false, materialize_groups: true, group_miss: true, mode: StepMode::Lanes }
        }
    } else {
        StepPlan { materialize_lanes: false, materialize_groups: false, group_miss: false, mode: StepMode::Lanes }
    }
}

} // verus!
