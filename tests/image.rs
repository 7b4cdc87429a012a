use rrt::ppm::{Error, Image};
use rrt::types::{Pixel, PixelU8};

fn rgb(p: &PixelU8) -> (u8, u8, u8) {
    (p.red8(), p.green8(), p.blue8())
}

#[test]
fn new_image_is_black_with_given_shape() {
    let img: Image<PixelU8> = Image::new(3, 2);
    assert_eq!(img.get_width(), 3);
    assert_eq!(img.get_height(), 2);
    for y in 0..2 {
        for x in 0..3 {
            assert_eq!(rgb(&img.get_pixel(x, y)), (0, 0, 0));
        }
    }
}

#[test]
fn set_pixel_changes_only_that_pixel() {
    let mut img: Image<PixelU8> = Image::new(2, 2);
    img.set_pixel(1, 0, PixelU8::from_rgb8(10, 20, 30));
    assert_eq!(rgb(&img.get_pixel(1, 0)), (10, 20, 30));
    assert_eq!(rgb(&img.get_pixel(0, 0)), (0, 0, 0));
    assert_eq!(rgb(&img.get_pixel(0, 1)), (0, 0, 0));
    assert_eq!(rgb(&img.get_pixel(1, 1)), (0, 0, 0));
}

#[test]
fn iter_walks_rows_in_order() {
    let mut img: Image<PixelU8> = Image::new(3, 2);
    img.set_pixel(2, 0, PixelU8::from_rgb8(1, 1, 1));
    img.set_pixel(0, 1, PixelU8::from_rgb8(2, 2, 2));
    let mut it = img.iter();
    let mut seen = Vec::new();
    while let Some((x, y, p)) = it.next() {
        seen.push((x, y, p.red8()));
    }
    assert_eq!(
        seen,
        vec![(0, 0, 0), (1, 0, 0), (2, 0, 1), (0, 1, 2), (1, 1, 0), (2, 1, 0)]
    );
}

#[test]
fn iter_of_empty_image_yields_nothing() {
    let img: Image<PixelU8> = Image::new(0, 5);
    let mut it = img.iter();
    assert!(it.next().is_none());
}

#[test]
fn iter_mut_fills_every_pixel() {
    let mut img: Image<PixelU8> = Image::new(2, 3);
    {
        let mut it = img.iter_mut();
        while let Some((x, y)) = it.next() {
            it.set(PixelU8::from_rgb8(x as u8, y as u8, 7));
        }
    }
    for y in 0..3 {
        for x in 0..2 {
            assert_eq!(rgb(&img.get_pixel(x, y)), (x as u8, y as u8, 7));
        }
    }
}

#[test]
fn add_assign_adds_pixelwise() {
    let mut a: Image<PixelU8> = Image::new(2, 1);
    let mut b: Image<PixelU8> = Image::new(2, 1);
    a.set_pixel(0, 0, PixelU8::from_rgb8(1, 2, 3));
    a.set_pixel(1, 0, PixelU8::from_rgb8(100, 0, 250));
    b.set_pixel(0, 0, PixelU8::from_rgb8(10, 20, 30));
    b.set_pixel(1, 0, PixelU8::from_rgb8(155, 0, 5));
    a.add_assign(b);
    assert_eq!(rgb(&a.get_pixel(0, 0)), (11, 22, 33));
    assert_eq!(rgb(&a.get_pixel(1, 0)), (255, 0, 255));
}

#[test]
fn ppm_of_two_pixels() {
    let mut img: Image<PixelU8> = Image::new(2, 1);
    img.set_pixel(0, 0, PixelU8::from_rgb8(255, 0, 9));
    img.set_pixel(1, 0, PixelU8::from_rgb8(10, 128, 0));
    let text = String::from_utf8(img.to_ppm()).unwrap();
    assert_eq!(text, "P3\n2 1\n255\n255 0 9\n10 128 0\n");
}

#[test]
fn ppm_of_empty_image_is_header_only() {
    let img: Image<PixelU8> = Image::new(300, 0);
    let text = String::from_utf8(img.to_ppm()).unwrap();
    assert_eq!(text, "P3\n300 0\n255\n");
}

#[test]
fn ppm_has_one_line_per_pixel_in_row_order() {
    let width: u32 = 100;
    let height: u32 = 100;
    let mut img: Image<PixelU8> = Image::new(width, height);
    for x in 0..width {
        for y in 0..height {
            img.set_pixel(x, y, PixelU8::from_rgb8(x as u8, y as u8, 0));
        }
    }
    let text = String::from_utf8(img.to_ppm()).unwrap();
    let lines: Vec<&str> = text.lines().collect();
    assert_eq!(lines.len(), 3 + 100 * 100);
    assert_eq!(lines[0], "P3");
    assert_eq!(lines[1], "100 100");
    assert_eq!(lines[2], "255");
    assert_eq!(lines[3], "0 0 0");
    assert_eq!(lines[3 + 1], "1 0 0");
    assert_eq!(lines[3 + 100], "0 1 0");
    assert_eq!(lines[3 + 99 + 99 * 100], "99 99 0");
}

#[test]
fn io_error_converts() {
    let e = Error::from(std::io::Error::new(std::io::ErrorKind::Other, "disk full"));
    assert!(matches!(e, Error::IOError(_)));
}
