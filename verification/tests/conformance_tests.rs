//! The denoise, luma and threshold stages against the image-processing
//! crates whose behavior they reproduce, on deterministic pseudo-random
//! images.

use cliobulk_core::buffer::PixelBuffer;
use cliobulk_core::denoise::denoise;
use cliobulk_core::threshold::adaptive_threshold;
use cliobulk_core::threshold::to_luma;
use image::DynamicImage;
use image::GrayImage;
use image::RgbImage;

fn pseudo_random_bytes(n: usize, mut seed: u32) -> Vec<u8> {
    let mut out = Vec::with_capacity(n);
    for _ in 0..n {
        seed = seed.wrapping_mul(1664525).wrapping_add(1013904223);
        out.push((seed >> 24) as u8);
    }
    out
}

#[test]
fn denoise_matches_median_filter() {
    let (w, h) = (7usize, 5usize);
    let data = pseudo_random_bytes(w * h * 3, 1);
    let buf = PixelBuffer { width: w, height: h, channels: 3, data: data.clone() };
    let ours = denoise(&buf);
    let img = RgbImage::from_raw(w as u32, h as u32, data).unwrap();
    let theirs = imageproc::filter::median_filter(&img, 1, 1);
    assert_eq!(ours.data, theirs.into_raw());
}

#[test]
fn luma_matches_grayscale_conversion() {
    let (w, h) = (6usize, 4usize);
    let data = pseudo_random_bytes(w * h * 3, 2);
    let buf = PixelBuffer { width: w, height: h, channels: 3, data: data.clone() };
    let ours = to_luma(&buf);
    let img = RgbImage::from_raw(w as u32, h as u32, data).unwrap();
    let theirs = DynamicImage::ImageRgb8(img).to_luma8();
    assert_eq!(ours.data, theirs.into_raw());
}

#[test]
fn threshold_matches_adaptive_threshold() {
    let (w, h) = (9usize, 6usize);
    let data = pseudo_random_bytes(w * h, 3);
    let buf = PixelBuffer { width: w, height: h, channels: 1, data: data.clone() };
    let ours = adaptive_threshold(&buf);
    let img = GrayImage::from_raw(w as u32, h as u32, data).unwrap();
    let theirs = imageproc::contrast::adaptive_threshold(&img, 10);
    assert_eq!(ours.data, theirs.into_raw());
}

#[test]
fn threshold_matches_on_an_image_larger_than_the_block() {
    let (w, h) = (30usize, 25usize);
    let data = pseudo_random_bytes(w * h, 4);
    let buf = PixelBuffer { width: w, height: h, channels: 1, data: data.clone() };
    let ours = adaptive_threshold(&buf);
    let img = GrayImage::from_raw(w as u32, h as u32, data).unwrap();
    let theirs = imageproc::contrast::adaptive_threshold(&img, 10);
    assert_eq!(ours.data, theirs.into_raw());
}

#[test]
fn denoise_matches_median_filter_on_a_larger_image() {
    let (w, h) = (16usize, 11usize);
    let data = pseudo_random_bytes(w * h * 3, 5);
    let buf = PixelBuffer { width: w, height: h, channels: 3, data: data.clone() };
    let ours = denoise(&buf);
    let img = RgbImage::from_raw(w as u32, h as u32, data).unwrap();
    let theirs = imageproc::filter::median_filter(&img, 1, 1);
    assert_eq!(ours.data, theirs.into_raw());
}
