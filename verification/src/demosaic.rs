//! Sub-sampled Bayer demosaicing: each 2×2 sensor quad becomes one RGB
//! output pixel, halving the resolution in each dimension.

use vstd::prelude::*;
use crate::buffer::PixelBuffer;

verus! {

/// A sensor frame: a `width` × `height` grid of 16-bit samples laid out
/// row by row, one sample per photosite, in the Bayer arrangement with
/// red top-left, green top-right and bottom-left, blue bottom-right of
/// every even-aligned 2×2 quad.
pub struct RawFrame {
    pub width: usize,
    pub height: usize,
    pub data: Vec<u16>,
}

impl RawFrame {
    /// One sample slot per photosite.
    pub open spec fn wf(&self) -> bool {
        self.data.len() == self.width * self.height
    }

    pub fn new(width: usize, height: usize, data: Vec<u16>) -> (r: Option<Self>)
        ensures
            match r {
                Some(f) => f.wf() && f.width == width && f.height == height && f.data@ == data@,
                None => data.len() != width as int * height as int,
            },
    {
        if width != 0 && data.len() / width == height && data.len() % width == 0 {
            proof {
                vstd::arithmetic::div_mod::lemma_fundamental_div_mod(
                    data.len() as int,
                    width as int,
                );
                assert(data.len() == width as int * height as int);
            }
            Some(RawFrame { width, height, data })
        } else if width == 0 && data.len() == 0 {
            Some(RawFrame { width, height, data })
        } else {
            proof {
                if width != 0 && data.len() == width as int * height as int {
                    vstd::arithmetic::div_mod::lemma_fundamental_div_mod_converse(
                        data.len() as int,
                        width as int,
                        height as int,
                        0,
                    );
                }
            }
            None
        }
    }
}

/// Channel `c` of the output pixel at `(x, y)`: the 2×2 quad at sensor
/// coordinate `(2x, 2y)` gives red from its top-left sample scaled down
/// to 8 bits, green from the sum of its two green samples scaled down
/// by 9 bits (average, then rescale), and blue from its bottom-right
/// sample scaled down to 8 bits.
pub open spec fn demosaic_at(data: Seq<u16>, w: int, x: int, y: int, c: int) -> u8 {
    let idx = (2 * y) * w + 2 * x;
    if c == 0 {
        (data[idx] / 256) as u8
    } else if c == 1 {
        ((data[idx + 1] + data[idx + w]) / 512) as u8
    } else {
        (data[idx + w + 1] / 256) as u8
    }
}

/// Decode a sensor frame into an RGB buffer at half the native linear
/// resolution in each dimension.
pub fn demosaic_half(frame: &RawFrame) -> (out: PixelBuffer)
    requires
        frame.wf(),
    ensures
        out.wf(),
        out.channels == 3,
        out.width == frame.width / 2,
        out.height == frame.height / 2,
        forall|x: int, y: int, c: int|
            0 <= x < out.width && 0 <= y < out.height && 0 <= c < 3 ==> out.at(x, y, c)
                == demosaic_at(frame.data@, frame.width as int, x, y, c),
{
    let w: usize = frame.width;
    let out_w: usize = w / 2;
    let out_h: usize = frame.height / 2;
    proof {
        lemma_half_grid_fits(w as int, frame.height as int);
    }
    let mut data: Vec<u8> = Vec::new();
    let mut y: usize = 0;
    while y < out_h
        invariant
            frame.wf(),
            w == frame.width,
            out_w == w / 2,
            out_h == frame.height / 2,
            out_w * out_h * 3 <= usize::MAX,
            y <= out_h,
            data@.len() == y * (out_w * 3),
            forall|x2: int, y2: int, c: int|
                0 <= x2 < out_w && 0 <= y2 < y && 0 <= c < 3 ==> #[trigger] data@[(y2 * out_w + x2)
                    * 3 + c] == demosaic_at(frame.data@, w as int, x2, y2, c),
        decreases out_h - y,
    {
        let mut x: usize = 0;
        proof {
            assert(y * (out_w * 3) + out_w * 3 <= out_h * (out_w * 3)) by (nonlinear_arith)
                requires
                    0 <= y < out_h,
                    0 <= out_w,
            ;
            assert(out_h * (out_w * 3) == out_w * out_h * 3) by (nonlinear_arith);
        }
        while x < out_w
            invariant
                frame.wf(),
                w == frame.width,
                out_w == w / 2,
                out_h == frame.height / 2,
                y < out_h,
                x <= out_w,
                y * (out_w * 3) + out_w * 3 <= out_w * out_h * 3 <= usize::MAX,
                data@.len() == y * (out_w * 3) + x * 3,
                forall|x2: int, y2: int, c: int|
                    0 <= x2 < out_w && 0 <= y2 < y && 0 <= c < 3 ==> #[trigger] data@[(y2 * out_w
                        + x2) * 3 + c] == demosaic_at(frame.data@, w as int, x2, y2, c),
                forall|x2: int, c: int|
                    0 <= x2 < x && 0 <= c < 3 ==> #[trigger] data@[(y * out_w + x2) * 3 + c]
                        == demosaic_at(frame.data@, w as int, x2, y as int, c),
            decreases out_w - x,
        {
            proof {
                assert(2 * (w as int / 2) <= w as int && 2 * (frame.height as int / 2)
                    <= frame.height as int);
                lemma_quad_in_bounds(
                    w as int,
                    frame.height as int,
                    out_w as int,
                    out_h as int,
                    x as int,
                    y as int,
                );
            }
            let idx: usize = (y * 2) * w + x * 2;
            let r16: u16 = frame.data[idx];
            let g1: u16 = frame.data[idx + 1];
            let g2: u16 = frame.data[idx + w];
            let b16: u16 = frame.data[idx + w + 1];
            let gsum: u32 = g1 as u32 + g2 as u32;
            let r8: u8 = (r16 >> 8) as u8;
            let g8: u8 = (gsum >> 9) as u8;
            let b8: u8 = (b16 >> 8) as u8;
            proof {
                assert(r16 >> 8 == r16 / 256 && r16 / 256 < 256) by (bit_vector);
                assert(b16 >> 8 == b16 / 256 && b16 / 256 < 256) by (bit_vector);
                assert(gsum <= 131070 ==> (gsum >> 9 == gsum / 512 && gsum / 512 < 256))
                    by (bit_vector);
                assert(data@.len() == (y * out_w + x) * 3) by (nonlinear_arith)
                    requires
                        data@.len() == y * (out_w * 3) + x * 3,
                ;
            }
            let ghost prev = data@;
            data.push(r8);
            data.push(g8);
            data.push(b8);
            proof {
                assert forall|x2: int, y2: int, c: int|
                    0 <= x2 < out_w && 0 <= y2 < y && 0 <= c < 3 implies #[trigger] data@[(y2
                    * out_w + x2) * 3 + c] == demosaic_at(frame.data@, w as int, x2, y2, c) by {
                    assert(0 <= (y2 * out_w + x2) * 3 + c && (y2 * out_w + x2) * 3 + c < y * (out_w
                        * 3)) by (nonlinear_arith)
                        requires
                            0 <= x2 < out_w,
                            0 <= y2 < y,
                            0 <= c < 3,
                            0 <= out_w,
                    ;
                    assert(data@[(y2 * out_w + x2) * 3 + c] == prev[(y2 * out_w + x2) * 3 + c]);
                }
                assert forall|x2: int, c: int|
                    0 <= x2 < x + 1 && 0 <= c < 3 implies #[trigger] data@[(y as int * out_w + x2)
                    * 3 + c] == demosaic_at(frame.data@, w as int, x2, y as int, c) by {
                    if x2 < x {
                        assert((y as int * out_w + x2) * 3 + c < (y as int * out_w + x) * 3);
                        assert(data@[(y as int * out_w + x2) * 3 + c] == prev[(y as int * out_w
                            + x2) * 3 + c]);
                    } else {
                        assert((y as int * out_w + x) * 3 == prev.len());
                        if c == 0 {
                            assert(data@[prev.len() as int] == r8);
                        } else if c == 1 {
                            assert(data@[prev.len() as int + 1] == g8);
                        } else {
                            assert(data@[prev.len() as int + 2] == b8);
                        }
                    }
                }
            }
            x = x + 1;
        }
        proof {
            assert forall|x2: int, y2: int, c: int|
                0 <= x2 < out_w && 0 <= y2 < y + 1 && 0 <= c < 3 implies #[trigger] data@[(y2
                * out_w + x2) * 3 + c] == demosaic_at(frame.data@, w as int, x2, y2, c) by {
                if y2 == y {
                    assert(data@[(y as int * out_w + x2) * 3 + c] == demosaic_at(
                        frame.data@,
                        w as int,
                        x2,
                        y as int,
                        c,
                    ));
                }
            }
            assert((y + 1) * (out_w * 3) == y * (out_w * 3) + out_w * 3) by (nonlinear_arith);
        }
        y = y + 1;
    }
    proof {
        assert(data@.len() == out_h * (out_w * 3));
        assert(out_h * (out_w * 3) == out_w * out_h * 3) by (nonlinear_arith);
    }
    let out = PixelBuffer { width: out_w, height: out_h, channels: 3, data };
    proof {
        assert forall|x: int, y2: int, c: int|
            0 <= x < out.width && 0 <= y2 < out.height && 0 <= c < 3 implies out.at(x, y2, c)
            == demosaic_at(frame.data@, frame.width as int, x, y2, c) by {
            assert(out.data@[(y2 * out_w + x) * 3 + c] == demosaic_at(
                frame.data@,
                w as int,
                x,
                y2,
                c,
            ));
        }
    }
    out
}

/// The quarter-size RGB output of a sensor grid fits in memory whenever
/// the grid itself does.
proof fn lemma_half_grid_fits(w: int, h: int)
    requires
        0 <= w,
        0 <= h,
        w * h <= usize::MAX,
    ensures
        (w / 2) * (h / 2) * 3 <= usize::MAX,
{
    assert((w / 2) * (h / 2) * 3 <= w * h) by (nonlinear_arith)
        requires
            0 <= w,
            0 <= h,
    ;
}

/// All four samples of the 2×2 quad read for output pixel `(x, y)` lie
/// inside the sensor grid.
proof fn lemma_quad_in_bounds(w: int, h: int, out_w: int, out_h: int, x: int, y: int)
    requires
        2 * out_w <= w,
        2 * out_h <= h,
        0 <= x < out_w,
        0 <= y < out_h,
    ensures
        0 <= (2 * y) * w + 2 * x,
        (2 * y) * w + 2 * x + w + 1 < w * h,
        (y * 2) * w + x * 2 == (2 * y) * w + 2 * x,
{
    assert(0 <= (2 * y) * w + 2 * x && (2 * y) * w + 2 * x + w + 1 < w * h) by (nonlinear_arith)
        requires
            2 * out_w <= w,
            2 * out_h <= h,
            0 <= x < out_w,
            0 <= y < out_h,
    ;
}

} // verus!
