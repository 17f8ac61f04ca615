use iced_servo::image::{swap_channels, DEFAULT_HEIGHT, DEFAULT_WIDTH};
use iced_servo::{unpremultiply_rgba, ImageInfo, PixelFormat};

#[test]
fn unpremultiply_exact_values() {
    // r = (128*255 + 64) / 128 = 255 (clamped from 255.5), g = 128, b = 64
    assert_eq!(unpremultiply_rgba(&[128, 64, 32, 128]), vec![255, 128, 64, 128]);
    // c = (100*255 + 100) / 200 = 128
    assert_eq!(unpremultiply_rgba(&[100, 0, 200, 200]), vec![128, 0, 255, 200]);
}

#[test]
fn unpremultiply_transparent_becomes_zero() {
    assert_eq!(unpremultiply_rgba(&[10, 20, 30, 0]), vec![0, 0, 0, 0]);
}

#[test]
fn unpremultiply_opaque_unchanged_and_partial_dropped() {
    let out = unpremultiply_rgba(&[1, 2, 3, 255, 9, 9]);
    assert_eq!(out, vec![1, 2, 3, 255]);
    for c in 0..=255u8 {
        assert_eq!(unpremultiply_rgba(&[c, c, c, 255]), vec![c, c, c, 255]);
    }
    assert!(unpremultiply_rgba(&[]).is_empty());
}

#[test]
fn bgra_is_reordered() {
    let info = ImageInfo::new(vec![1, 2, 3, 4, 5, 6, 7, 8], PixelFormat::Bgra, 2, 1);
    assert_eq!(info.pixels(), &vec![3, 2, 1, 4, 7, 6, 5, 8]);
    assert_eq!(info.image_width(), 2);
    assert_eq!(info.image_height(), 1);
}

#[test]
fn rgba_is_kept() {
    let info = ImageInfo::new(vec![1, 2, 3, 4], PixelFormat::Rgba, 1, 1);
    assert_eq!(info.pixels(), &vec![1, 2, 3, 4]);
    let shader = ImageInfo::from_shader_pixels(vec![9, 8, 7, 6], 1, 1);
    assert_eq!(shader.pixels(), &vec![9, 8, 7, 6]);
}

#[test]
fn swap_twice_is_identity() {
    let p = vec![10, 20, 30, 40, 50, 60, 70, 80];
    assert_eq!(swap_channels(swap_channels(p.clone())), p);
}

#[test]
fn blank_frame_white() {
    let b = ImageInfo::blank(2, 3);
    assert_eq!((b.image_width(), b.image_height()), (2, 3));
    assert_eq!(b.pixels().len(), 24);
    assert!(b.pixels().iter().all(|&x| x == 255));
    let z = ImageInfo::blank(0, 5);
    assert_eq!((z.image_width(), z.image_height()), (0, 5));
    assert!(z.pixels().is_empty());
}

#[test]
fn blank_frame_too_large_falls_back() {
    let b = ImageInfo::blank(u32::MAX, u32::MAX);
    if (usize::MAX as u128) < (u32::MAX as u128) * (u32::MAX as u128) * 4 {
        assert_eq!((b.image_width(), b.image_height()), (1, 1));
        assert_eq!(b.pixels(), &vec![255, 255, 255, 255]);
    }
}

#[test]
fn default_frame() {
    let d = ImageInfo::default();
    assert_eq!((d.image_width(), d.image_height()), (DEFAULT_WIDTH, DEFAULT_HEIGHT));
    assert_eq!(d.pixels().len(), 800 * 800 * 4);
}
