//! The filter pipeline: color adjust, then denoise, then adaptive
//! threshold, each stage a full pass over the buffer, in that fixed
//! order.

use vstd::prelude::*;
use crate::buffer::PixelBuffer;
use crate::color::color_adjust;
use crate::color::color_adjusted;
use crate::denoise::denoise;
use crate::denoise::median_filtered;
use crate::options::ProcessOptions;
use crate::threshold::adaptive_threshold;
use crate::threshold::luma_of;
use crate::threshold::thresholded;
use crate::threshold::to_luma;

verus! {

/// The samples produced by running the configured stages over a
/// three-channel image: the color adjustment unless it is neutral,
/// the median filter when denoise is on, and finally — when adaptive
/// threshold is on — the flatten to luma and the binarization, which
/// discard any color information the earlier stages produced.
pub open spec fn pipeline_spec(data: Seq<u8>, w: int, h: int, o: ProcessOptions) -> Seq<u8> {
    let after_color = if o.color_neutral() {
        data
    } else {
        color_adjusted(data, o)
    };
    let after_denoise = if o.denoise {
        median_filtered(after_color, w, h)
    } else {
        after_color
    };
    if o.adaptive_threshold {
        thresholded(luma_of(after_denoise, w * h), w, h)
    } else {
        after_denoise
    }
}

/// Run the configured filter stages over an RGB buffer. The result is
/// single-channel exactly when adaptive threshold is on, and the
/// buffer passes through unchanged when no stage is configured.
pub fn apply_filters(buf: PixelBuffer, options: &ProcessOptions) -> (r: PixelBuffer)
    requires
        buf.wf(),
        buf.channels == 3,
        options.wf(),
    ensures
        r.wf(),
        r.width == buf.width,
        r.height == buf.height,
        r.channels == (if options.adaptive_threshold {
            1int
        } else {
            3int
        }),
        r.data@ == pipeline_spec(buf.data@, buf.width as int, buf.height as int, *options),
        options.is_neutral() ==> r.data@ == buf.data@,
{
    let neutral_color = options.brightness_milli == 0 && options.contrast_milli == 1000
        && options.saturation_milli == 1000;
    let stage1 = if !neutral_color {
        color_adjust(&buf, options)
    } else {
        buf
    };
    let stage2 = if options.denoise {
        denoise(&stage1)
    } else {
        stage1
    };
    if options.adaptive_threshold {
        let luma = to_luma(&stage2);
        adaptive_threshold(&luma)
    } else {
        stage2
    }
}

} // verus!
