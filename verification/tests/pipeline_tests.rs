use cliobulk_core::buffer::PixelBuffer;
use cliobulk_core::color::adjust_pixel;
use cliobulk_core::color::bc_channel_exec;
use cliobulk_core::options::ProcessOptions;
use cliobulk_core::pipeline::apply_filters;

fn rgb_buffer(width: usize, height: usize, data: Vec<u8>) -> PixelBuffer {
    assert_eq!(data.len(), width * height * 3);
    PixelBuffer { width, height, channels: 3, data }
}

#[test]
fn neutral_options_are_identity() {
    let data: Vec<u8> = vec![
        10, 20, 30, 40, 50, 60, //
        70, 80, 90, 100, 110, 120,
    ];
    let buf = rgb_buffer(2, 2, data.clone());
    let out = apply_filters(buf, &ProcessOptions::neutral());
    assert_eq!(out.width, 2);
    assert_eq!(out.height, 2);
    assert_eq!(out.channels, 3);
    assert_eq!(out.data, data);
}

#[test]
fn contrast_fixes_midpoint() {
    let opts = ProcessOptions::new(0, 2000, 1000, false, false);
    assert_eq!(bc_channel_exec(128, &opts), 128);
    let buf = rgb_buffer(1, 1, vec![128, 128, 128]);
    let out = apply_filters(buf, &opts);
    assert_eq!(out.data, vec![128, 128, 128]);
}

#[test]
fn contrast_scales_around_midpoint() {
    let opts = ProcessOptions::new(0, 2000, 1000, false, false);
    // (100 - 128) * 2 + 128 = 72; (200 - 128) * 2 + 128 = 272, clamped.
    assert_eq!(bc_channel_exec(100, &opts), 72);
    assert_eq!(bc_channel_exec(200, &opts), 255);
    assert_eq!(bc_channel_exec(0, &opts), 0);
}

#[test]
fn brightness_adds_scaled_offset() {
    // brightness 0.5 adds 127.5 before flooring: 100 + 127.5 = 227.5.
    let opts = ProcessOptions::new(500, 1000, 1000, false, false);
    assert_eq!(bc_channel_exec(100, &opts), 227);
    let dark = ProcessOptions::new(-1000, 1000, 1000, false, false);
    assert_eq!(bc_channel_exec(200, &dark), 0);
}

#[test]
fn saturation_moves_channels_away_from_luma() {
    // Luma of (200, 100, 50) in milli units is 124200; gain 1.5 gives
    // 237.9, 87.9 and 12.9 before flooring.
    let opts = ProcessOptions::new(0, 1000, 1500, false, false);
    let (r, g, b) = adjust_pixel(200, 100, 50, &opts);
    assert_eq!((r, g, b), (237, 87, 12));
}

#[test]
fn saturation_zero_flattens_to_luma() {
    let opts = ProcessOptions::new(0, 1000, 0, false, false);
    let (r, g, b) = adjust_pixel(200, 100, 50, &opts);
    // Every channel collapses to the luma 124.2, floored.
    assert_eq!((r, g, b), (124, 124, 124));
}

#[test]
fn threshold_forces_single_channel_without_denoise() {
    let buf = rgb_buffer(2, 2, vec![50; 12]);
    let opts = ProcessOptions::new(0, 1000, 1000, true, false);
    let out = apply_filters(buf, &opts);
    assert_eq!(out.channels, 1);
    assert_eq!(out.data.len(), 4);
}

#[test]
fn threshold_forces_single_channel_with_denoise() {
    let buf = rgb_buffer(2, 2, vec![50; 12]);
    let opts = ProcessOptions::new(0, 1000, 1000, true, true);
    let out = apply_filters(buf, &opts);
    assert_eq!(out.channels, 1);
    assert_eq!(out.data.len(), 4);
}

#[test]
fn empty_buffer_survives_every_stage() {
    let buf = rgb_buffer(0, 0, Vec::new());
    let opts = ProcessOptions::new(250, 1500, 500, true, true);
    let out = apply_filters(buf, &opts);
    assert_eq!(out.channels, 1);
    assert!(out.data.is_empty());
}

#[test]
fn one_pixel_runs_through_all_stages_exactly() {
    // Brightness 0.5, contrast 2, saturation 0, then threshold:
    // channels become (19, 255, 59), flatten to their luma 162, and a
    // single pixel always reaches the mean of its own block.
    let buf = rgb_buffer(1, 1, vec![10, 200, 30]);
    let opts = ProcessOptions::new(500, 2000, 0, true, false);
    let out = apply_filters(buf, &opts);
    assert_eq!(out.channels, 1);
    assert_eq!(out.data, vec![255]);
}

#[test]
fn color_stage_values_compose_exactly() {
    // Same gains without the threshold stage.
    let buf = rgb_buffer(1, 1, vec![10, 200, 30]);
    let opts = ProcessOptions::new(500, 2000, 0, false, false);
    let out = apply_filters(buf, &opts);
    // After brightness/contrast: (19, 255, 59); saturation 0 collapses
    // each channel to the luma (299·19 + 587·255 + 114·59) / 1000 = 162.
    assert_eq!(out.data, vec![162, 162, 162]);
}

#[test]
fn uniform_buffer_thresholds_to_white() {
    // Every pixel equals the mean of its block, so every pixel passes.
    let buf = rgb_buffer(3, 2, vec![90; 18]);
    let opts = ProcessOptions::new(0, 1000, 1000, true, false);
    let out = apply_filters(buf, &opts);
    assert_eq!(out.data, vec![255; 6]);
}
