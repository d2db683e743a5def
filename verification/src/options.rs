//! Image adjustment parameters and filter toggles.

use vstd::prelude::*;

verus! {

/// Configuration for one batch, shared read-only by every work item.
///
/// The three gains are fixed-point values in thousandths (milli units):
/// `brightness_milli` covers -1000..=1000 and stands for an offset of
/// -1.0..=1.0 (scaled by 255 when applied), `contrast_milli` covers
/// 0..=3000 for a gain of 0.0..=3.0 around the midpoint 128, and
/// `saturation_milli` covers 0..=2000 for a gain of 0.0..=2.0 around
/// the per-pixel luma. 1000 is neutral for contrast and saturation,
/// 0 is neutral for brightness.
#[derive(Clone, Copy, PartialEq, Eq, Structural, Debug)]
pub struct ProcessOptions {
    pub brightness_milli: i32,
    pub contrast_milli: i32,
    pub saturation_milli: i32,
    /// Enables the binarization stage and forces single-channel output.
    pub adaptive_threshold: bool,
    /// Enables the 3×3 median filter stage.
    pub denoise: bool,
}

impl ProcessOptions {
    /// The gains lie in their documented ranges.
    pub open spec fn wf(&self) -> bool {
        &&& -1000 <= self.brightness_milli <= 1000
        &&& 0 <= self.contrast_milli <= 3000
        &&& 0 <= self.saturation_milli <= 2000
    }

    /// The color-adjust stage would leave every pixel unchanged and is
    /// skipped entirely.
    pub open spec fn color_neutral(&self) -> bool {
        &&& self.brightness_milli == 0
        &&& self.contrast_milli == 1000
        &&& self.saturation_milli == 1000
    }

    /// No stage runs at all: the pipeline is the identity.
    pub open spec fn is_neutral(&self) -> bool {
        self.color_neutral() && !self.adaptive_threshold && !self.denoise
    }

    /// The configuration that changes nothing.
    pub fn neutral() -> (r: Self)
        ensures
            r.wf(),
            r.is_neutral(),
    {
        ProcessOptions {
            brightness_milli: 0,
            contrast_milli: 1000,
            saturation_milli: 1000,
            adaptive_threshold: false,
            denoise: false,
        }
    }

    pub fn new(
        brightness_milli: i32,
        contrast_milli: i32,
        saturation_milli: i32,
        adaptive_threshold: bool,
        denoise: bool,
    ) -> (r: Self)
        requires
            -1000 <= brightness_milli <= 1000,
            0 <= contrast_milli <= 3000,
            0 <= saturation_milli <= 2000,
        ensures
            r.wf(),
            r == (ProcessOptions {
                brightness_milli,
                contrast_milli,
                saturation_milli,
                adaptive_threshold,
                denoise,
            }),
    {
        ProcessOptions {
            brightness_milli,
            contrast_milli,
            saturation_milli,
            adaptive_threshold,
            denoise,
        }
    }
}

} // verus!
