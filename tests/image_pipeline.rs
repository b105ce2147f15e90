use hyprland_preview_share_picker::buffer::Buffer;
use hyprland_preview_share_picker::error::Error;
use hyprland_preview_share_picker::image::{Image, ImageKind, PixelBuffer, Transforms};

/// A native image `width` by `height` whose pixel (x, y) is (blue, green, red, pad) =
/// (x, y, x + 10 * y, 255).
fn xrgb(width: u32, height: u32) -> Image {
    let mut data = Vec::new();
    for y in 0..height {
        for x in 0..width {
            data.extend_from_slice(&[x as u8, y as u8, (x + 10 * y) as u8, 255]);
        }
    }
    Image { buffer: ImageKind::Xrgb(PixelBuffer { width, height, data }) }
}

fn pixels(img: &Image) -> (u32, u32, Vec<u8>, bool) {
    match &img.buffer {
        ImageKind::Rgb(p) => (p.width, p.height, p.data.clone(), true),
        ImageKind::Xrgb(p) => (p.width, p.height, p.data.clone(), false),
    }
}

fn pixel_at(img: &Image, x: u32, y: u32) -> Vec<u8> {
    let (w, _, data, rgb) = pixels(img);
    let c = if rgb { 3 } else { 4 };
    let start = ((y * w + x) * c) as usize;
    data[start..start + c as usize].to_vec()
}

#[test]
fn transform_normal_is_identity() {
    let img = xrgb(3, 2);
    let before = pixels(&img);
    let ratio = img.aspect_ratio();
    let after = img.transform(Transforms::Normal);
    assert_eq!(pixels(&after), before);
    assert_eq!(after.aspect_ratio(), ratio);
}

#[test]
fn transform_normal180_twice_restores() {
    let img = xrgb(3, 2);
    let before = pixels(&img);
    let once = img.transform(Transforms::Normal180);
    assert_ne!(pixels(&once), before);
    assert_eq!(pixel_at(&once, 0, 0), vec![2, 1, 12, 255]);
    let twice = once.transform(Transforms::Normal180);
    assert_eq!(pixels(&twice), before);
    assert_eq!(twice.aspect_ratio(), (3, 2));
}

#[test]
fn transform_normal90_then_normal270_restores() {
    let img = xrgb(3, 2);
    let before = pixels(&img);
    let turned = img.transform(Transforms::Normal90);
    assert_eq!(turned.aspect_ratio(), (2, 3));
    let back = turned.transform(Transforms::Normal270);
    assert_eq!(pixels(&back), before);
    assert_eq!(back.aspect_ratio(), (3, 2));
}

#[test]
fn transform_normal90_moves_pixels_clockwise() {
    // source (x, y) lands at (height - 1 - y, x)
    let turned = xrgb(3, 2).transform(Transforms::Normal90);
    assert_eq!((turned.width(), turned.height()), (2, 3));
    assert_eq!(pixel_at(&turned, 1, 0), vec![0, 0, 0, 255]);
    assert_eq!(pixel_at(&turned, 0, 0), vec![0, 1, 10, 255]);
    assert_eq!(pixel_at(&turned, 0, 2), vec![2, 1, 12, 255]);
}

#[test]
fn transform_normal270_moves_pixels_counterclockwise() {
    // source (x, y) lands at (y, width - 1 - x)
    let turned = xrgb(3, 2).transform(Transforms::Normal270);
    assert_eq!((turned.width(), turned.height()), (2, 3));
    assert_eq!(pixel_at(&turned, 0, 2), vec![0, 0, 0, 255]);
    assert_eq!(pixel_at(&turned, 1, 0), vec![2, 1, 12, 255]);
}

#[test]
fn transform_flipped_mirrors_rows() {
    let flipped = xrgb(3, 2).transform(Transforms::Flipped);
    assert_eq!(pixel_at(&flipped, 0, 0), vec![0, 1, 10, 255]);
    assert_eq!(pixel_at(&flipped, 2, 1), vec![2, 0, 2, 255]);
}

#[test]
fn transform_flipped90_flips_then_rotates() {
    let img = xrgb(3, 2).transform(Transforms::Flipped90);
    let expected = xrgb(3, 2).transform(Transforms::Flipped).transform(Transforms::Normal90);
    assert_eq!(pixels(&img), pixels(&expected));
    assert_eq!(img.aspect_ratio(), (2, 3));
    // flipped then turned: source (x, y) lands at (y, x)
    assert_eq!(pixel_at(&img, 1, 2), vec![2, 1, 12, 255]);
}

#[test]
fn transform_flipped180_and_flipped270() {
    let a = xrgb(3, 2).transform(Transforms::Flipped180);
    assert_eq!(pixel_at(&a, 0, 0), vec![2, 0, 2, 255]);
    let b = xrgb(3, 2).transform(Transforms::Flipped270);
    let expected = xrgb(3, 2).transform(Transforms::Flipped).transform(Transforms::Normal270);
    assert_eq!(pixels(&b), pixels(&expected));
}

#[test]
fn into_rgb_reorders_and_drops_padding() {
    let img = Image { buffer: ImageKind::Xrgb(PixelBuffer { width: 2, height: 1, data: vec![1, 2, 3, 4, 5, 6, 7, 8] }) };
    let rgb = img.into_rgb().unwrap();
    assert_eq!(pixels(&rgb), (2, 1, vec![3, 2, 1, 7, 6, 5], true));
}

#[test]
fn into_rgb_is_idempotent() {
    let once = xrgb(3, 2).into_rgb().unwrap();
    let first = pixels(&once);
    let twice = once.into_rgb().unwrap();
    assert_eq!(pixels(&twice), first);
}

#[test]
fn into_rgb_rejects_wrong_byte_count() {
    let img = Image { buffer: ImageKind::Xrgb(PixelBuffer { width: 2, height: 1, data: vec![1, 2, 3, 4, 5, 6, 7] }) };
    assert!(matches!(img.into_rgb(), Err(Error::ConversionError)));
}

#[test]
fn resize_gives_exact_size() {
    let mut img = xrgb(4, 4);
    img.resize(2, 3);
    let (w, h, data, rgb) = pixels(&img);
    assert_eq!((w, h, data.len(), rgb), (2, 3, 24, false));
}

#[test]
fn resize_to_fit_tall_image() {
    let mut img = xrgb(10, 30);
    img.resize_to_fit(4);
    assert_eq!((img.width(), img.height()), (4, 12));
}

#[test]
fn resize_to_fit_wide_image() {
    let mut img = xrgb(30, 10);
    img.resize_to_fit(4);
    assert_eq!((img.width(), img.height()), (12, 4));
}

#[test]
fn resize_to_fit_rounds_down() {
    let mut img = xrgb(7, 10);
    img.resize_to_fit(3);
    assert_eq!((img.width(), img.height()), (3, 4));
}

#[test]
fn resize_to_fit_leaves_square_image() {
    let mut img = xrgb(20, 20);
    let before = pixels(&img);
    img.resize_to_fit(5);
    assert_eq!(pixels(&img), before);
}

#[test]
fn resize_to_fit_leaves_small_image() {
    let mut img = xrgb(3, 8);
    let before = pixels(&img);
    img.resize_to_fit(5);
    assert_eq!(pixels(&img), before);
}

#[test]
fn resize_to_fit_never_grows_nor_vanishes() {
    for (w, h) in [(1u32, 9u32), (9, 1), (2, 50), (50, 2), (13, 17), (17, 13)] {
        for size in 1..20u32 {
            let mut img = xrgb(w, h);
            img.resize_to_fit(size);
            assert!(img.width() >= 1 && img.width() <= w);
            assert!(img.height() >= 1 && img.height() <= h);
        }
    }
}

#[test]
fn aspect_ratio_follows_grid() {
    let img = xrgb(4, 2);
    let (w, h) = img.aspect_ratio();
    assert_eq!(w as f64 / h as f64, 2.0);
}

#[test]
fn image_from_buffer() {
    let buffer = Buffer::new(2, 1, 8, 1).unwrap();
    let img = Image::new(buffer, vec![9, 8, 7, 0, 6, 5, 4, 0]).unwrap();
    assert_eq!(pixels(&img), (2, 1, vec![9, 8, 7, 0, 6, 5, 4, 0], false));
    let rgb = img.into_rgb().unwrap();
    assert_eq!(pixels(&rgb), (2, 1, vec![7, 8, 9, 4, 5, 6], true));
}

#[test]
fn image_from_short_read_fails() {
    let buffer = Buffer::new(2, 1, 8, 1).unwrap();
    assert!(matches!(Image::new(buffer, vec![1, 2, 3]), Err(Error::BufferRead)));
}
