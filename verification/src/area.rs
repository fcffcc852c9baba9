use vstd::prelude::*;

verus! {

/// The first source row (or column) that output row (or column) `d` of an
/// area resize from `src` to `dst` lines averages.
pub open spec fn bin_start(d: int, src: int, dst: int) -> int {
    d * src / dst
}

/// One past the last source row (or column) that output row (or column)
/// `d` averages: the next bin's start, at least one past this bin's start,
/// at most `src`.
pub open spec fn bin_end(d: int, src: int, dst: int) -> int {
    let lo = bin_start(d, src, dst);
    let hi = (d + 1) * src / dst;
    let hi = if hi > lo + 1 {
        hi
    } else {
        lo + 1
    };
    if hi < src {
        hi
    } else {
        src
    }
}

/// The sum of the `n` bytes of `s` from `start` on.
pub open spec fn row_sum(s: Seq<u8>, start: int, n: int) -> int
    decreases n,
{
    if n <= 0 {
        0
    } else {
        row_sum(s, start, n - 1) + s[start + n - 1] as int
    }
}

/// The sum of the bytes of the block of columns `x0..x1` and rows `y0..y1`
/// of the image that starts at `off` in `s`, `stride` bytes per row.
pub open spec fn block_sum(s: Seq<u8>, off: int, stride: int, x0: int, x1: int, y0: int, y1: int) -> int
    decreases y1 - y0,
{
    if y1 <= y0 {
        0
    } else {
        block_sum(s, off, stride, x0, x1, y0, y1 - 1) + row_sum(s, off + (y1 - 1) * stride + x0, x1 - x0)
    }
}

/// Output pixel `(dx, dy)` of the area resize of the `sw x sh` image at
/// `off` in `s` to `dw x dh`: the mean, rounded down, of its source bin.
pub open spec fn area_mean(s: Seq<u8>, off: int, sw: int, sh: int, dw: int, dh: int, dx: int, dy: int) -> int {
    let x0 = bin_start(dx, sw, dw);
    let x1 = bin_end(dx, sw, dw);
    let y0 = bin_start(dy, sh, dh);
    let y1 = bin_end(dy, sh, dh);
    block_sum(s, off, sw, x0, x1, y0, y1) / ((x1 - x0) * (y1 - y0))
}

/// Every bin is a non-empty range inside the source.
pub proof fn lemma_bin_bounds(d: int, src: int, dst: int)
    requires
        0 <= d < dst,
        1 <= src,
    ensures
        0 <= bin_start(d, src, dst) < bin_end(d, src, dst) <= src,
{
    assert(0 <= d * src / dst < src) by (nonlinear_arith)
        requires
            0 <= d < dst,
            1 <= src,
    ;
}

/// A sum of `n` bytes is at most `255 * n`.
pub proof fn lemma_row_sum_bound(s: Seq<u8>, start: int, n: int)
    requires
        0 <= n,
    ensures
        0 <= row_sum(s, start, n) <= 255 * n,
    decreases n,
{
    if n > 0 {
        lemma_row_sum_bound(s, start, n - 1);
    }
}

/// A block sum is at most 255 per byte of the block.
pub proof fn lemma_block_sum_bound(s: Seq<u8>, off: int, stride: int, x0: int, x1: int, y0: int, y1: int)
    requires
        x0 <= x1,
        y0 <= y1,
    ensures
        0 <= block_sum(s, off, stride, x0, x1, y0, y1) <= 255 * ((x1 - x0) * (y1 - y0)),
    decreases y1 - y0,
{
    if y1 > y0 {
        lemma_block_sum_bound(s, off, stride, x0, x1, y0, y1 - 1);
        lemma_row_sum_bound(s, off + (y1 - 1) * stride + x0, x1 - x0);
        assert((x1 - x0) * (y1 - 1 - y0) + (x1 - x0) == (x1 - x0) * (y1 - y0)) by (nonlinear_arith);
    }
}

/// The mean of a non-empty block of bytes is a byte.
pub proof fn lemma_block_mean_fits(s: Seq<u8>, off: int, stride: int, x0: int, x1: int, y0: int, y1: int)
    requires
        x0 < x1,
        y0 < y1,
    ensures
        0 <= block_sum(s, off, stride, x0, x1, y0, y1) / ((x1 - x0) * (y1 - y0)) <= 255,
{
    lemma_block_sum_bound(s, off, stride, x0, x1, y0, y1);
    let n = (x1 - x0) * (y1 - y0);
    let b = block_sum(s, off, stride, x0, x1, y0, y1);
    assert(n >= 1) by (nonlinear_arith)
        requires
            x0 < x1,
            y0 < y1,
            n == (x1 - x0) * (y1 - y0),
    ;
    assert(0 <= b / n <= 255) by (nonlinear_arith)
        requires
            0 <= b <= 255 * n,
            n >= 1,
    ;
}

/// The sum of the block of columns `x0..x1` and rows `y0..y1` of the image
/// at `offset` in `src`, `stride` bytes per row.
pub fn area_sum(src: &[u8], offset: usize, stride: usize, x0: usize, x1: usize, y0: usize, y1: usize) -> (sum: u32)
    requires
        x0 < x1 <= stride,
        y0 < y1,
        offset + y1 * stride <= src@.len(),
        255 * ((x1 - x0) * (y1 - y0)) <= 0xffff_ffff,
    ensures
        sum == block_sum(src@, offset as int, stride as int, x0 as int, x1 as int, y0 as int, y1 as int),
{
    let ghost s = src@;
    let ghost area = (x1 - x0) * (y1 - y0);
    let len = src.len();
    let mut sum: u32 = 0;
    proof {
        lemma_block_sum_bound(s, offset as int, stride as int, x0 as int, x1 as int, y0 as int, y1 as int);
    }
    for sy in y0..y1
        invariant
            x0 < x1 <= stride,
            y0 < y1,
            offset + y1 * stride <= s.len(),
            s == src@,
            len == s.len(),
            area == (x1 - x0) * (y1 - y0),
            255 * area <= 0xffff_ffff,
            sum == block_sum(s, offset as int, stride as int, x0 as int, x1 as int, y0 as int, sy as int),
    {
        assert(sy * stride + stride <= y1 * stride) by (nonlinear_arith)
            requires
                sy < y1,
        ;
        let src_row = offset + sy * stride;
        proof {
            lemma_block_sum_bound(s, offset as int, stride as int, x0 as int, x1 as int, y0 as int, sy as int);
            assert((x1 - x0) * (sy - y0) + (x1 - x0) <= area) by (nonlinear_arith)
                requires
                    sy < y1,
                    y0 <= sy,
                    area == (x1 - x0) * (y1 - y0),
                    x0 < x1,
            ;
        }
        for sx in x0..x1
            invariant
                x0 < x1 <= stride,
                y0 <= sy < y1,
                src_row == offset + sy * stride,
                src_row + stride <= s.len(),
                s == src@,
                len == s.len(),
                255 * area <= 0xffff_ffff,
                block_sum(s, offset as int, stride as int, x0 as int, x1 as int, y0 as int, sy as int) <= 255
                    * ((x1 - x0) * (sy - y0)),
                (x1 - x0) * (sy - y0) + (x1 - x0) <= area,
                sum == block_sum(s, offset as int, stride as int, x0 as int, x1 as int, y0 as int, sy as int)
                    + row_sum(s, src_row + x0, sx - x0),
        {
            proof {
                lemma_row_sum_bound(s, src_row + x0, sx - x0);
            }
            sum += src[src_row + sx] as u32;
        }
    }
    sum
}

/// Start and end of bin `d` of an area resize from `src` to `dst` lines.
pub fn area_bin(d: usize, src: usize, dst: usize) -> (r: (usize, usize))
    requires
        d < dst,
        dst * src <= usize::MAX,
    ensures
        r.0 == bin_start(d as int, src as int, dst as int),
        r.1 == bin_end(d as int, src as int, dst as int),
        r.0 <= r.1 <= src,
        src >= 1 ==> r.0 < r.1,
{
    if src >= 1 {
        proof {
            lemma_bin_bounds(d as int, src as int, dst as int);
        }
    } else {
        assert((d * src) as int / dst as int == 0 && ((d + 1) * src) as int / dst as int == 0) by (nonlinear_arith)
            requires
                src == 0,
                d < dst,
        ;
    }
    assert((d + 1) * src <= dst * src && d * src <= (d + 1) * src) by (nonlinear_arith)
        requires
            d < dst,
    ;
    let lo = (d * src) / dst;
    let hi = ((d + 1) * src) / dst;
    let hi = if hi > lo + 1 {
        hi
    } else {
        lo + 1
    };
    let hi = if hi < src {
        hi
    } else {
        src
    };
    (lo, hi)
}


/// Downscaling bins tile the source: the first starts at 0, the last ends
/// at `src`, each is non-empty and ends where the next starts. When
/// upscaling, each bin is the single source line `d * src / dst`.
pub proof fn lemma_bins_tile(d: int, src: int, dst: int)
    requires
        0 <= d < dst,
        1 <= src,
    ensures
        bin_start(0, src, dst) == 0,
        dst <= src ==> bin_end(dst - 1, src, dst) == src,
        dst <= src && d + 1 < dst ==> bin_end(d, src, dst) == bin_start(d + 1, src, dst),
        bin_start(d, src, dst) < bin_end(d, src, dst),
        d + 1 < dst ==> bin_start(d, src, dst) <= bin_start(d + 1, src, dst),
        src < dst ==> bin_end(d, src, dst) == bin_start(d, src, dst) + 1,
{
    lemma_bin_bounds(d, src, dst);
    lemma_bin_bounds(dst - 1, src, dst);
    assert((dst - 1 + 1) * src / dst == src) by (nonlinear_arith)
        requires
            dst >= 1,
    ;
    assert(0 * src / dst == 0) by (nonlinear_arith)
        requires
            dst >= 1,
    ;
    let lo = d * src / dst;
    let hi = (d + 1) * src / dst;
    assert(d * src <= (d + 1) * src) by (nonlinear_arith)
        requires
            src >= 1,
            d >= 0,
    ;
    assert(lo <= hi) by (nonlinear_arith)
        requires
            d * src <= (d + 1) * src,
            dst >= 1,
            lo == d * src / dst,
            hi == (d + 1) * src / dst,
    ;
    if dst <= src {
        assert(hi >= lo + 1) by (nonlinear_arith)
            requires
                dst <= src,
                dst >= 1,
                d >= 0,
                lo == d * src / dst,
                hi == (d + 1) * src / dst,
        {
            assert((d + 1) * src == d * src + src);
            assert(d * src + src >= d * src + dst);
            assert((d * src + dst) / dst == d * src / dst + 1);
        }
        assert(hi <= src) by (nonlinear_arith)
            requires
                d + 1 <= dst,
                dst >= 1,
                src >= 1,
                hi == (d + 1) * src / dst,
        {
            assert((d + 1) * src <= dst * src);
            assert(dst * src / dst == src);
        }
        if d + 1 == dst {
            assert(hi == src) by (nonlinear_arith)
                requires
                    d + 1 == dst,
                    dst >= 1,
                    hi == (d + 1) * src / dst,
            ;
        }
    } else {
        assert(hi <= lo + 1) by (nonlinear_arith)
            requires
                src < dst,
                dst >= 1,
                d >= 0,
                lo == d * src / dst,
                hi == (d + 1) * src / dst,
        {
            assert((d + 1) * src == d * src + src);
            assert(d * src + src < d * src + dst);
        }
    }
}

/// The sum of a block whose bytes all equal `c` is `c` times its size,
/// so its area mean is `c`: resizing a flat image gives the same flat
/// image.
pub proof fn lemma_flat_block(s: Seq<u8>, off: int, stride: int, x0: int, x1: int, y0: int, y1: int, c: u8)
    requires
        x0 < x1,
        y0 < y1,
        forall|y: int, x: int|
            y0 <= y < y1 && x0 <= x < x1 ==> #[trigger] s[off + y * stride + x] == c,
    ensures
        block_sum(s, off, stride, x0, x1, y0, y1) == c * ((x1 - x0) * (y1 - y0)),
        block_sum(s, off, stride, x0, x1, y0, y1) / ((x1 - x0) * (y1 - y0)) == c,
    decreases y1 - y0,
{
    lemma_flat_row(s, off + (y1 - 1) * stride + x0, x1 - x0, c, off, stride, y1 - 1, x0);
    if y1 - 1 > y0 {
        lemma_flat_block(s, off, stride, x0, x1, y0, y1 - 1, c);
        assert(c * ((x1 - x0) * (y1 - 1 - y0)) + c * (x1 - x0) == c * ((x1 - x0) * (y1 - y0))) by (nonlinear_arith);
    } else {
        assert(y1 - y0 == 1);
        assert(block_sum(s, off, stride, x0, x1, y0, y1 - 1) == 0);
    }
    let n = (x1 - x0) * (y1 - y0);
    assert(n >= 1) by (nonlinear_arith)
        requires
            x0 < x1,
            y0 < y1,
            n == (x1 - x0) * (y1 - y0),
    ;
    assert(c * n / n == c) by (nonlinear_arith)
        requires
            n >= 1,
    ;
}

proof fn lemma_flat_row(s: Seq<u8>, start: int, n: int, c: u8, off: int, stride: int, y: int, x0: int)
    requires
        0 <= n,
        start == off + y * stride + x0,
        forall|k: int| 0 <= k < n ==> #[trigger] s[off + y * stride + (x0 + k)] == c,
    ensures
        row_sum(s, start, n) == c * n,
    decreases n,
{
    if n > 0 {
        lemma_flat_row(s, start, n - 1, c, off, stride, y, x0);
        assert(s[off + y * stride + (x0 + (n - 1))] == c);
        assert(start + n - 1 == off + y * stride + (x0 + (n - 1)));
        assert(s[start + n - 1] == c);
        assert(row_sum(s, start, n) == row_sum(s, start, n - 1) + s[start + n - 1] as int);
        assert(c * (n - 1) + c == c * n) by (nonlinear_arith);
    } else {
        assert(c * n == 0) by (nonlinear_arith)
            requires
                n == 0,
        ;
    }
}

} // verus!
