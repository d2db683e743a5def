//! The adaptive-threshold stage: flatten to single-channel luma, then
//! binarize each pixel against the mean of its local block.

use vstd::prelude::*;
use crate::buffer::PixelBuffer;
use crate::denoise::clampi;

verus! {

/// Radius of the block a pixel is compared against: the block is the
/// (2 · radius + 1)² window clamped to the image.
pub const BLOCK_RADIUS: usize = 10;

/// Luma of pixel `p` of a three-channel sequence, by the integer
/// grayscale weights 2126 / 7152 / 722 out of 10000.
pub open spec fn luma_at(data: Seq<u8>, p: int) -> u8 {
    ((2126 * data[3 * p] + 7152 * data[3 * p + 1] + 722 * data[3 * p + 2]) / 10000) as u8
}

/// Single-channel luma image of a three-channel sample sequence with
/// `n_px` pixels.
pub open spec fn luma_of(data: Seq<u8>, n_px: int) -> Seq<u8> {
    Seq::new(n_px as nat, |p: int| luma_at(data, p))
}

/// Sum of the single-channel row `y` over columns `x0..=x1`.
pub open spec fn row_sum(g: Seq<u8>, w: int, y: int, x0: int, x1: int) -> int
    decreases x1 - x0 + 1,
{
    if x0 > x1 {
        0
    } else {
        g[y * w + x0] + row_sum(g, w, y, x0 + 1, x1)
    }
}

/// Sum of the single-channel rectangle with rows `y0..=y1` and columns
/// `x0..=x1`.
pub open spec fn rect_sum(g: Seq<u8>, w: int, x0: int, x1: int, y0: int, y1: int) -> int
    decreases y1 - y0 + 1,
{
    if y0 > y1 {
        0
    } else {
        row_sum(g, w, y0, x0, x1) + rect_sum(g, w, x0, x1, y0 + 1, y1)
    }
}

/// Binarized sample at pixel `p`: 255 where the pixel reaches the mean
/// of its clamped block, else 0.
pub open spec fn threshold_at(g: Seq<u8>, w: int, h: int, p: int) -> u8 {
    let y = p / w;
    let x = p % w;
    let x0 = clampi(x - BLOCK_RADIUS, w - 1);
    let x1 = clampi(x + BLOCK_RADIUS, w - 1);
    let y0 = clampi(y - BLOCK_RADIUS, h - 1);
    let y1 = clampi(y + BLOCK_RADIUS, h - 1);
    let count = (x1 - x0 + 1) * (y1 - y0 + 1);
    let mean = rect_sum(g, w, x0, x1, y0, y1) / count;
    if g[p] >= mean {
        255
    } else {
        0
    }
}

/// The adaptive-threshold stage over a whole single-channel sequence.
pub open spec fn thresholded(g: Seq<u8>, w: int, h: int) -> Seq<u8>
    recommends
        g.len() == w * h,
{
    Seq::new(g.len(), |p: int| threshold_at(g, w, h, p))
}

/// Row sums lie between 0 and 255 per column.
proof fn lemma_row_sum_bounds(g: Seq<u8>, w: int, y: int, x0: int, x1: int)
    ensures
        0 <= row_sum(g, w, y, x0, x1),
        x1 - x0 + 1 >= 0 ==> row_sum(g, w, y, x0, x1) <= 255 * (x1 - x0 + 1),
    decreases x1 - x0 + 1,
{
    if x0 > x1 {
    } else {
        lemma_row_sum_bounds(g, w, y, x0 + 1, x1);
    }
}

/// Rectangle sums lie between 0 and 255 per cell, stated for blocks at
/// most 21 columns wide.
proof fn lemma_rect_sum_bounds(g: Seq<u8>, w: int, x0: int, x1: int, y0: int, y1: int)
    requires
        x1 - x0 + 1 <= 21,
    ensures
        0 <= rect_sum(g, w, x0, x1, y0, y1),
        rect_sum(g, w, x0, x1, y0, y1) <= 5355 * (if y1 - y0 + 1 >= 0 {
            y1 - y0 + 1
        } else {
            0
        }),
    decreases y1 - y0 + 1,
{
    if y0 > y1 {
    } else {
        lemma_row_sum_bounds(g, w, y0, x0, x1);
        lemma_rect_sum_bounds(g, w, x0, x1, y0 + 1, y1);
    }
}

/// Flatten an RGB buffer to its single-channel luma image.
pub fn to_luma(buf: &PixelBuffer) -> (out: PixelBuffer)
    requires
        buf.wf(),
        buf.channels == 3,
    ensures
        out.wf(),
        out.width == buf.width,
        out.height == buf.height,
        out.channels == 1,
        out.data@ == luma_of(buf.data@, buf.width * buf.height),
{
    proof {
        crate::buffer::lemma_grid_mul_bounds(buf.width as int, buf.height as int, 3);
    }
    let n_px: usize = buf.width * buf.height;
    let mut data: Vec<u8> = Vec::new();
    let mut p: usize = 0;
    while p < n_px
        invariant
            buf.wf(),
            buf.channels == 3,
            n_px == buf.width * buf.height,
            3 * n_px == buf.data.len(),
            p <= n_px,
            data@.len() == p,
            forall|j: int| 0 <= j < p ==> #[trigger] data@[j] == luma_at(buf.data@, j),
        decreases n_px - p,
    {
        let i: usize = 3 * p;
        let t: u32 = 2126 * (buf.data[i] as u32) + 7152 * (buf.data[i + 1] as u32) + 722 * (
        buf.data[i + 2] as u32);
        proof {
            assert(t / 10000 < 256) by (nonlinear_arith)
                requires
                    t <= 2550000,
            ;
        }
        let l: u8 = (t / 10000) as u8;
        data.push(l);
        p = p + 1;
    }
    proof {
        assert(data@ =~= luma_of(buf.data@, buf.width * buf.height));
    }
    PixelBuffer { width: buf.width, height: buf.height, channels: 1, data }
}

/// Binarize a single-channel buffer: each pixel becomes 255 where it
/// reaches the mean of its clamped block, else 0.
pub fn adaptive_threshold(g: &PixelBuffer) -> (out: PixelBuffer)
    requires
        g.wf(),
        g.channels == 1,
    ensures
        out.wf(),
        out.width == g.width,
        out.height == g.height,
        out.channels == 1,
        out.data@ == thresholded(g.data@, g.width as int, g.height as int),
{
    let w: usize = g.width;
    let h: usize = g.height;
    proof {
        assert(g.data.len() == w * h) by (nonlinear_arith)
            requires
                g.data.len() == w * h * 1,
        ;
    }
    let n_px: usize = g.data.len();
    let mut data: Vec<u8> = Vec::new();
    let mut p: usize = 0;
    while p < n_px
        invariant
            g.wf(),
            g.channels == 1,
            w == g.width,
            h == g.height,
            n_px == g.data.len(),
            n_px == w * h,
            p <= n_px,
            data@.len() == p,
            forall|j: int|
                0 <= j < p ==> #[trigger] data@[j] == threshold_at(
                    g.data@,
                    w as int,
                    h as int,
                    j,
                ),
        decreases n_px - p,
    {
        proof {
            assert(0 < w && 0 < h && p / w < h && p % w < w) by (nonlinear_arith)
                requires
                    0 <= p < n_px,
                    n_px == w * h,
            ;
        }
        let y: usize = p / w;
        let x: usize = p % w;
        let x0: usize = if x >= BLOCK_RADIUS {
            x - BLOCK_RADIUS
        } else {
            0
        };
        let x1: usize = if w - 1 - x <= BLOCK_RADIUS {
            w - 1
        } else {
            x + BLOCK_RADIUS
        };
        let y0: usize = if y >= BLOCK_RADIUS {
            y - BLOCK_RADIUS
        } else {
            0
        };
        let y1: usize = if h - 1 - y <= BLOCK_RADIUS {
            h - 1
        } else {
            y + BLOCK_RADIUS
        };
        proof {
            assert(x0 == clampi(x - BLOCK_RADIUS, w - 1));
            assert(x1 == clampi(x + BLOCK_RADIUS, w - 1));
            assert(y0 == clampi(y - BLOCK_RADIUS, h - 1));
            assert(y1 == clampi(y + BLOCK_RADIUS, h - 1));
            lemma_rect_sum_bounds(g.data@, w as int, x0 as int, x1 as int, y0 as int, y1 as int);
        }
        let mut acc: u32 = 0;
        let mut yy: usize = y0;
        while yy <= y1
            invariant
                g.wf(),
                g.channels == 1,
                w == g.width,
                h == g.height,
                n_px == g.data.len(),
                n_px == w * h,
                x0 <= x1 < w,
                y0 <= yy <= y1 + 1,
                y1 < h,
                x1 - x0 <= 20,
                y1 - y0 <= 20,
                acc + rect_sum(g.data@, w as int, x0 as int, x1 as int, yy as int, y1 as int)
                    == rect_sum(g.data@, w as int, x0 as int, x1 as int, y0 as int, y1 as int),
                0 <= rect_sum(g.data@, w as int, x0 as int, x1 as int, yy as int, y1 as int),
                rect_sum(g.data@, w as int, x0 as int, x1 as int, y0 as int, y1 as int) <= 112455,
                acc <= 112455,
            decreases y1 + 1 - yy,
        {
            let mut row: u32 = 0;
            let mut xx: usize = x0;
            proof {
                lemma_row_sum_bounds(g.data@, w as int, yy as int, x0 as int, x1 as int);
                lemma_rect_sum_bounds(
                    g.data@,
                    w as int,
                    x0 as int,
                    x1 as int,
                    yy as int + 1,
                    y1 as int,
                );
            }
            while xx <= x1
                invariant
                    g.wf(),
                    g.channels == 1,
                    w == g.width,
                    n_px == g.data.len(),
                    n_px == w * h,
                    x0 <= xx <= x1 + 1,
                    x1 < w,
                    yy < h,
                    x1 - x0 <= 20,
                    row + row_sum(g.data@, w as int, yy as int, xx as int, x1 as int) == row_sum(
                        g.data@,
                        w as int,
                        yy as int,
                        x0 as int,
                        x1 as int,
                    ),
                    0 <= row_sum(g.data@, w as int, yy as int, xx as int, x1 as int),
                    row_sum(g.data@, w as int, yy as int, x0 as int, x1 as int) <= 5355,
                    row <= 5355,
                decreases x1 + 1 - xx,
            {
                proof {
                    crate::buffer::lemma_idx_in_bounds(
                        w as int,
                        h as int,
                        1,
                        xx as int,
                        yy as int,
                        0,
                    );
                    lemma_row_sum_bounds(
                        g.data@,
                        w as int,
                        yy as int,
                        xx as int + 1,
                        x1 as int,
                    );
                }
                let v: u8 = g.data[yy * w + xx];
                row = row + v as u32;
                xx = xx + 1;
            }
            acc = acc + row;
            yy = yy + 1;
        }
        proof {
            assert(1 <= (x1 - x0 + 1) * (y1 - y0 + 1) <= 441) by (nonlinear_arith)
                requires
                    x0 <= x1,
                    y0 <= y1,
                    x1 - x0 <= 20,
                    y1 - y0 <= 20,
            ;
        }
        let count: u32 = ((x1 - x0 + 1) * (y1 - y0 + 1)) as u32;
        let mean: u32 = acc / count;
        let v: u8 = g.data[p];
        let b: u8 = if v as u32 >= mean {
            255
        } else {
            0
        };
        data.push(b);
        p = p + 1;
    }
    proof {
        assert(data@ =~= thresholded(g.data@, g.width as int, g.height as int));
    }
    PixelBuffer { width: g.width, height: g.height, channels: 1, data }
}

} // verus!
