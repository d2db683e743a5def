//! Batch image-processing core: sub-sampled RAW demosaicing, a fused
//! per-pixel filter pipeline (brightness/contrast/saturation, median
//! denoise, adaptive threshold), and the progress protocol of the batch
//! orchestrator.

pub mod buffer;
pub mod color;
pub mod demosaic;
pub mod denoise;
pub mod naming;
pub mod options;
pub mod pipeline;
pub mod progress;
pub mod threshold;
