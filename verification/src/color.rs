//! The fused color-adjust stage: brightness and contrast per channel,
//! then saturation around the recomputed per-pixel luma.

use vstd::prelude::*;
use crate::buffer::PixelBuffer;
use crate::buffer::lemma_grid_mul_bounds;
use crate::options::ProcessOptions;

verus! {

/// Divide a value carrying `scale` fractional resolution back down to
/// whole units, flooring, and clamp the result into 0..=255.
pub open spec fn clamp_unit(t: int, scale: int) -> u8
    recommends
        scale >= 1,
{
    if t <= 0 {
        0
    } else if t >= 255 * scale {
        255
    } else {
        (t / scale) as u8
    }
}

/// Brightness/contrast transform of one channel value, in milli units:
/// clamp((v - 128) * contrast + 128 + brightness * 255, 0, 255), with
/// the two gains scaled by 1000.
pub open spec fn bc_channel(v: u8, contrast_milli: int, brightness_milli: int) -> u8 {
    clamp_unit((v - 128) * contrast_milli + 128 * 1000 + brightness_milli * 255, 1000)
}

/// Luma of a pixel in milli units, with the broadcast weights
/// 0.299 / 0.587 / 0.114 scaled by 1000.
pub open spec fn luma_milli(r: u8, g: u8, b: u8) -> int {
    299 * r + 587 * g + 114 * b
}

/// Saturation transform of one channel value around the pixel's luma:
/// clamp(L + (v - L) * saturation, 0, 255), with the luma in milli
/// units and the gain scaled by 1000.
pub open spec fn sat_channel(v: u8, l_milli: int, saturation_milli: int) -> u8 {
    clamp_unit(l_milli * 1000 + (1000 * v - l_milli) * saturation_milli, 1000000)
}

/// The full color adjustment of one RGB pixel: brightness/contrast on
/// each channel, then, unless the saturation gain is neutral,
/// saturation around the luma of the already adjusted channels.
pub open spec fn adjust_rgb(r: u8, g: u8, b: u8, o: ProcessOptions) -> (u8, u8, u8) {
    let r1 = bc_channel(r, o.contrast_milli as int, o.brightness_milli as int);
    let g1 = bc_channel(g, o.contrast_milli as int, o.brightness_milli as int);
    let b1 = bc_channel(b, o.contrast_milli as int, o.brightness_milli as int);
    if o.saturation_milli == 1000 {
        (r1, g1, b1)
    } else {
        let l = luma_milli(r1, g1, b1);
        (
            sat_channel(r1, l, o.saturation_milli as int),
            sat_channel(g1, l, o.saturation_milli as int),
            sat_channel(b1, l, o.saturation_milli as int),
        )
    }
}

/// Value of the color-adjusted sample at flat index `i` of a
/// three-channel sample sequence.
pub open spec fn adjusted_at(data: Seq<u8>, o: ProcessOptions, i: int) -> u8 {
    let p = i / 3;
    let rgb = adjust_rgb(data[3 * p], data[3 * p + 1], data[3 * p + 2], o);
    if i % 3 == 0 {
        rgb.0
    } else if i % 3 == 1 {
        rgb.1
    } else {
        rgb.2
    }
}

/// The color-adjust stage over a whole three-channel sample sequence.
pub open spec fn color_adjusted(data: Seq<u8>, o: ProcessOptions) -> Seq<u8>
    recommends
        data.len() % 3 == 0,
{
    Seq::new(data.len(), |i: int| adjusted_at(data, o, i))
}

/// Brightness/contrast of one channel value.
pub fn bc_channel_exec(v: u8, options: &ProcessOptions) -> (r: u8)
    requires
        options.wf(),
    ensures
        r == bc_channel(v, options.contrast_milli as int, options.brightness_milli as int),
{
    let vc: i64 = v as i64 - 128;
    let c: i64 = options.contrast_milli as i64;
    let b: i64 = options.brightness_milli as i64;
    proof {
        assert(-384000 <= vc * c <= 381000) by (nonlinear_arith)
            requires
                -128 <= vc <= 127,
                0 <= c <= 3000,
        ;
    }
    let t: i64 = vc * c + 128000 + b * 255;
    if t <= 0 {
        0
    } else if t >= 255000 {
        255
    } else {
        ((t as u64) / 1000) as u8
    }
}

/// Saturation of one channel value around a fixed luma.
pub fn sat_channel_exec(v: u8, l_milli: u32, saturation_milli: i32) -> (r: u8)
    requires
        l_milli <= 255000,
        0 <= saturation_milli <= 2000,
    ensures
        r == sat_channel(v, l_milli as int, saturation_milli as int),
{
    let l: i64 = l_milli as i64;
    let s: i64 = saturation_milli as i64;
    let d: i64 = 1000 * (v as i64) - l;
    proof {
        assert(-510000000 <= d * s <= 510000000) by (nonlinear_arith)
            requires
                -255000 <= d <= 255000,
                0 <= s <= 2000,
        ;
    }
    let t: i64 = l * 1000 + d * s;
    if t <= 0 {
        0
    } else if t >= 255000000 {
        255
    } else {
        ((t as u64) / 1000000) as u8
    }
}

/// The full color adjustment of one RGB pixel.
pub fn adjust_pixel(r: u8, g: u8, b: u8, options: &ProcessOptions) -> (out: (u8, u8, u8))
    requires
        options.wf(),
    ensures
        out == adjust_rgb(r, g, b, *options),
{
    let r1 = bc_channel_exec(r, options);
    let g1 = bc_channel_exec(g, options);
    let b1 = bc_channel_exec(b, options);
    if options.saturation_milli == 1000 {
        (r1, g1, b1)
    } else {
        let l: u32 = 299 * (r1 as u32) + 587 * (g1 as u32) + 114 * (b1 as u32);
        (
            sat_channel_exec(r1, l, options.saturation_milli),
            sat_channel_exec(g1, l, options.saturation_milli),
            sat_channel_exec(b1, l, options.saturation_milli),
        )
    }
}

/// One full pass over an RGB buffer applying the color adjustment to
/// every pixel.
pub fn color_adjust(buf: &PixelBuffer, options: &ProcessOptions) -> (out: PixelBuffer)
    requires
        buf.wf(),
        buf.channels == 3,
        options.wf(),
    ensures
        out.wf(),
        out.width == buf.width,
        out.height == buf.height,
        out.channels == 3,
        out.data@ == color_adjusted(buf.data@, *options),
{
    proof {
        lemma_grid_mul_bounds(buf.width as int, buf.height as int, 3);
    }
    let n_px: usize = buf.width * buf.height;
    let mut data: Vec<u8> = Vec::new();
    let mut p: usize = 0;
    while p < n_px
        invariant
            buf.wf(),
            buf.channels == 3,
            options.wf(),
            3 * n_px == buf.data.len(),
            p <= n_px,
            data@.len() == 3 * p,
            forall|i: int|
                0 <= i < data@.len() ==> #[trigger] data@[i] == adjusted_at(
                    buf.data@,
                    *options,
                    i,
                ),
        decreases n_px - p,
    {
        let i: usize = 3 * p;
        let (r, g, b) = adjust_pixel(buf.data[i], buf.data[i + 1], buf.data[i + 2], options);
        proof {
            let i0 = 3 * (p as int);
            assert(i0 / 3 == p && i0 % 3 == 0 && (i0 + 1) / 3 == p && (i0 + 1) % 3 == 1 && (i0 + 2)
                / 3 == p && (i0 + 2) % 3 == 2) by (nonlinear_arith)
                requires
                    0 <= p,
                    i0 == 3 * p,
            ;
        }
        data.push(r);
        data.push(g);
        data.push(b);
        p = p + 1;
    }
    proof {
        assert(data@ =~= color_adjusted(buf.data@, *options));
    }
    PixelBuffer { width: buf.width, height: buf.height, channels: 3, data }
}

/// The contrast transform fixes the midpoint: with brightness zero,
/// channel value 128 maps to 128 for every contrast gain.
pub proof fn lemma_contrast_midpoint(contrast_milli: int)
    requires
        0 <= contrast_milli <= 3000,
    ensures
        bc_channel(128, contrast_milli, 0) == 128,
{
    assert((128 - 128) * contrast_milli + 128 * 1000 + 0 * 255 == 128000);
    assert(clamp_unit(128000, 1000) == 128);
}

/// A neutral configuration leaves every pixel unchanged: the color
/// adjustment is the identity.
pub proof fn lemma_color_neutral_identity(r: u8, g: u8, b: u8, o: ProcessOptions)
    requires
        o.wf(),
        o.color_neutral(),
    ensures
        adjust_rgb(r, g, b, o) == (r, g, b),
{
    assert(bc_channel(r, 1000, 0) == r) by {
        assert((r - 128) * 1000 + 128 * 1000 + 0 * 255 == 1000 * r) by (nonlinear_arith);
        assert(clamp_unit(1000 * r, 1000) == r) by {
            if 0 < 1000 * r < 255 * 1000 {
                assert(1000 * r / 1000 == r) by (nonlinear_arith);
            }
        }
    }
    assert(bc_channel(g, 1000, 0) == g) by {
        assert((g - 128) * 1000 + 128 * 1000 + 0 * 255 == 1000 * g) by (nonlinear_arith);
        assert(clamp_unit(1000 * g, 1000) == g) by {
            if 0 < 1000 * g < 255 * 1000 {
                assert(1000 * g / 1000 == g) by (nonlinear_arith);
            }
        }
    }
    assert(bc_channel(b, 1000, 0) == b) by {
        assert((b - 128) * 1000 + 128 * 1000 + 0 * 255 == 1000 * b) by (nonlinear_arith);
        assert(clamp_unit(1000 * b, 1000) == b) by {
            if 0 < 1000 * b < 255 * 1000 {
                assert(1000 * b / 1000 == b) by (nonlinear_arith);
            }
        }
    }
}

} // verus!
