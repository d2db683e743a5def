use cliobulk_core::buffer::PixelBuffer;
use cliobulk_core::threshold::adaptive_threshold;
use cliobulk_core::threshold::to_luma;

fn rgb_buffer(width: usize, height: usize, data: Vec<u8>) -> PixelBuffer {
    assert_eq!(data.len(), width * height * 3);
    PixelBuffer { width, height, channels: 3, data }
}

fn gray_buffer(width: usize, height: usize, data: Vec<u8>) -> PixelBuffer {
    assert_eq!(data.len(), width * height);
    PixelBuffer { width, height, channels: 1, data }
}

#[test]
fn luma_uses_integer_grayscale_weights() {
    let buf = rgb_buffer(
        5,
        1,
        vec![
            255, 0, 0, //
            0, 255, 0, //
            0, 0, 255, //
            255, 255, 255, //
            0, 0, 0,
        ],
    );
    let out = to_luma(&buf);
    assert_eq!(out.channels, 1);
    // 2126·255/10000 = 54, 7152·255/10000 = 182, 722·255/10000 = 18.
    assert_eq!(out.data, vec![54, 182, 18, 255, 0]);
}

#[test]
fn single_pixel_reaches_its_own_mean() {
    let out = adaptive_threshold(&gray_buffer(1, 1, vec![7]));
    assert_eq!(out.data, vec![255]);
}

#[test]
fn pixels_compare_against_block_mean() {
    // Both pixels share the block {0, 255}; its mean is 127.
    let out = adaptive_threshold(&gray_buffer(2, 1, vec![0, 255]));
    assert_eq!(out.data, vec![0, 255]);
}

#[test]
fn uniform_image_thresholds_to_white() {
    let out = adaptive_threshold(&gray_buffer(4, 3, vec![9; 12]));
    assert_eq!(out.data, vec![255; 12]);
}

#[test]
fn mean_comparison_is_exact_at_the_boundary() {
    // All three pixels share the block {1, 2, 3}; its mean floors to 2.
    let out = adaptive_threshold(&gray_buffer(3, 1, vec![1, 2, 3]));
    assert_eq!(out.data, vec![0, 255, 255]);
}
