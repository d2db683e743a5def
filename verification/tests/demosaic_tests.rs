use cliobulk_core::demosaic::demosaic_half;
use cliobulk_core::demosaic::RawFrame;

#[test]
fn output_dimensions_are_halved() {
    let frame = RawFrame::new(6, 4, vec![0u16; 24]).unwrap();
    let out = demosaic_half(&frame);
    assert_eq!((out.width, out.height, out.channels), (3, 2, 3));
    assert_eq!(out.data.len(), 18);
}

#[test]
fn odd_dimensions_round_down() {
    let frame = RawFrame::new(5, 3, vec![0u16; 15]).unwrap();
    let out = demosaic_half(&frame);
    assert_eq!((out.width, out.height), (2, 1));
    let tiny = RawFrame::new(1, 1, vec![42u16]).unwrap();
    let none = demosaic_half(&tiny);
    assert_eq!((none.width, none.height), (0, 0));
    assert!(none.data.is_empty());
}

#[test]
fn bayer_quad_follows_shift_formulas() {
    // One 2×2 quad: R = 0x1234 >> 8, G = (0x2000 + 0x3000) >> 9,
    // B = 0xFFFF >> 8.
    let frame = RawFrame::new(2, 2, vec![0x1234, 0x2000, 0x3000, 0xFFFF]).unwrap();
    let out = demosaic_half(&frame);
    assert_eq!((out.width, out.height), (1, 1));
    assert_eq!(out.data, vec![0x12, 40, 0xFF]);
}

#[test]
fn quads_are_read_at_even_coordinates() {
    // A 4×2 sensor makes two output pixels side by side.
    let frame = RawFrame::new(
        4,
        2,
        vec![
            256, 512, 1024, 2048, //
            512, 768, 2048, 4096,
        ],
    )
    .unwrap();
    let out = demosaic_half(&frame);
    assert_eq!((out.width, out.height), (2, 1));
    // First quad: r = 256 >> 8 = 1, g = (512 + 512) >> 9 = 2, b = 768 >> 8 = 3.
    // Second quad: r = 1024 >> 8 = 4, g = (2048 + 2048) >> 9 = 8, b = 4096 >> 8 = 16.
    assert_eq!(out.data, vec![1, 2, 3, 4, 8, 16]);
}

#[test]
fn mismatched_sample_count_is_rejected() {
    assert!(RawFrame::new(4, 4, vec![0u16; 15]).is_none());
    assert!(RawFrame::new(0, 4, vec![0u16; 1]).is_none());
    assert!(RawFrame::new(4, 4, vec![0u16; 16]).is_some());
}
