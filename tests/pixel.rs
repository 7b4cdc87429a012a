use rrt::types::{Pixel, PixelU8, NUM_COLOR_MAX};

#[test]
fn from_rgb8_keeps_channels() {
    let p = PixelU8::from_rgb8(1, 2, 3);
    assert_eq!((p.red8(), p.green8(), p.blue8()), (1, 2, 3));
}

#[test]
fn black_is_zero() {
    let p = PixelU8::black();
    assert_eq!((p.red8(), p.green8(), p.blue8()), (0, 0, 0));
}

#[test]
fn add_sums_channels() {
    let p = PixelU8::from_rgb8(1, 2, 3).add(PixelU8::from_rgb8(4, 5, NUM_COLOR_MAX - 3));
    assert_eq!((p.red8(), p.green8(), p.blue8()), (5, 7, 255));
}

#[test]
fn accumulate_sums_channels() {
    let mut p = PixelU8::from_rgb8(200, 0, 17);
    p.accumulate(PixelU8::from_rgb8(55, 1, 3));
    assert_eq!((p.red8(), p.green8(), p.blue8()), (255, 1, 20));
}

#[test]
fn black_is_neutral_for_accumulation() {
    let mut p = PixelU8::black();
    p.accumulate(PixelU8::from_rgb8(9, 8, 7));
    assert!(p == PixelU8::from_rgb8(9, 8, 7));
}

#[test]
fn from_copies_another_pixel() {
    let q = PixelU8::from_rgb8(12, 34, 56);
    let p = PixelU8::from(&q);
    assert_eq!((p.red8(), p.green8(), p.blue8()), (12, 34, 56));
}

#[test]
fn text_of_pixel() {
    assert_eq!(
        PixelU8::from_rgb8(1, 20, 255).to_string(),
        "Pixel8(r=1, g=20, b=255)"
    );
    assert_eq!(PixelU8::black().to_string(), "Pixel8(r=0, g=0, b=0)");
}
