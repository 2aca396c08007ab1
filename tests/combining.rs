use stegsolve::combine::{combine, output_fits, ImageCombiner};
use stegsolve::grid::{Pixel, PixelGrid};
use stegsolve::stereo::StereoTransform;

fn grid(width: u32, height: u32, pixels: Vec<Pixel>) -> PixelGrid {
    PixelGrid::from_pixels(width, height, pixels).unwrap()
}

fn pair() -> PixelGrid {
    grid(2, 1, vec![Pixel::new(10, 20, 30, 255), Pixel::new(200, 100, 50, 0)])
}

#[test]
fn saturating_add_with_itself() {
    let out = combine(&pair(), &pair(), 3);
    assert_eq!(out.pixels, vec![Pixel::new(20, 40, 60, 255), Pixel::new(255, 200, 100, 255)]);
}

#[test]
fn xor_with_itself_is_black() {
    let out = combine(&pair(), &pair(), 0);
    assert_eq!((out.width, out.height), (2, 1));
    assert!(out.pixels.iter().all(|p| *p == Pixel::new(0, 0, 0, 255)));
}

#[test]
fn every_component_mode_on_one_pixel() {
    let a = grid(1, 1, vec![Pixel::new(200, 12, 100, 9)]);
    let b = grid(1, 1, vec![Pixel::new(100, 10, 200, 9)]);
    let expect: [(u8, u8, u8); 11] = [
        (200 ^ 100, 12 ^ 10, 100 ^ 200),
        (200 | 100, 12 | 10, 100 | 200),
        (200 & 100, 12 & 10, 100 & 200),
        (255, 22, 255),
        (44, 22, 44),
        (100, 2, 0),
        (100, 2, 156),
        (78, 0, 78),
        (32, 120, 32),
        (200, 12, 200),
        (100, 10, 100),
    ];
    for (mode, (r, g, bl)) in expect.iter().enumerate() {
        let out = combine(&a, &b, mode as u32);
        assert_eq!(out.pixels[0], Pixel::new(*r, *g, *bl, 255), "mode {}", mode);
    }
}

#[test]
fn component_modes_pad_with_transparent_black() {
    let a = grid(2, 1, vec![Pixel::new(1, 2, 3, 4), Pixel::new(5, 6, 7, 8)]);
    let b = grid(1, 2, vec![Pixel::new(10, 20, 30, 40), Pixel::new(50, 60, 70, 80)]);
    let out = combine(&a, &b, 1);
    assert_eq!((out.width, out.height), (2, 2));
    assert_eq!(
        out.pixels,
        vec![
            Pixel::new(11, 22, 31, 255),
            Pixel::new(5, 6, 7, 255),
            Pixel::new(50, 60, 70, 255),
            Pixel::new(0, 0, 0, 255),
        ]
    );
}

#[test]
fn horizontal_interlace_alternates_rows() {
    let a = grid(2, 2, vec![Pixel::new(1, 1, 1, 1), Pixel::new(2, 2, 2, 2), Pixel::new(3, 3, 3, 3), Pixel::new(4, 4, 4, 4)]);
    let b = grid(3, 1, vec![Pixel::new(9, 9, 9, 9), Pixel::new(8, 8, 8, 8), Pixel::new(7, 7, 7, 7)]);
    let out = combine(&a, &b, 11);
    assert_eq!((out.width, out.height), (2, 2));
    assert_eq!(out.pixels, vec![Pixel::new(1, 1, 1, 1), Pixel::new(2, 2, 2, 2), Pixel::new(9, 9, 9, 9), Pixel::new(8, 8, 8, 8)]);
}

#[test]
fn vertical_interlace_alternates_columns() {
    let a = grid(2, 2, vec![Pixel::new(1, 1, 1, 1), Pixel::new(2, 2, 2, 2), Pixel::new(3, 3, 3, 3), Pixel::new(4, 4, 4, 4)]);
    let b = grid(2, 1, vec![Pixel::new(9, 9, 9, 9), Pixel::new(8, 8, 8, 8)]);
    let out = combine(&a, &b, 12);
    assert_eq!((out.width, out.height), (4, 1));
    assert_eq!(
        out.pixels,
        vec![Pixel::new(1, 1, 1, 1), Pixel::new(9, 9, 9, 9), Pixel::new(2, 2, 2, 2), Pixel::new(8, 8, 8, 8)]
    );
}

#[test]
fn small_outputs_fit() {
    assert!(output_fits(&pair(), &pair(), 0));
    assert!(output_fits(&pair(), &pair(), 11));
    assert!(output_fits(&pair(), &pair(), 12));
}

#[test]
fn combiner_waits_for_second_image() {
    let mut c = ImageCombiner::new(pair());
    assert!(c.get_combined_image().is_none());
    c.forward();
    assert_eq!(c.get_transform_text(), "XOR");
    c.set_second_image(pair());
    c.backward();
    assert_eq!(c.get_transform_text(), "Vertical Interlace");
    c.forward();
    c.forward();
    assert_eq!(c.get_transform_text(), "OR");
    let out = c.get_combined_image().unwrap();
    assert_eq!(out.pixels[1], Pixel::new(200, 100, 50, 255));
}

#[test]
fn stereo_xors_with_shifted_columns() {
    let img = grid(3, 1, vec![Pixel::new(1, 2, 3, 9), Pixel::new(4, 5, 6, 9), Pixel::new(7, 8, 9, 9)]);
    let mut s = StereoTransform::new(img);
    assert_eq!(s.get_text(), "偏移量: 0");
    assert!(s.get_image().pixels.iter().all(|p| *p == Pixel::new(0, 0, 0, 255)));
    s.forward();
    assert_eq!(s.get_text(), "偏移量: 1");
    assert_eq!(s.get_image().pixels[0], Pixel::new(1 ^ 4, 2 ^ 5, 3 ^ 6, 255));
    assert_eq!(s.get_image().pixels[2], Pixel::new(7 ^ 1, 8 ^ 2, 9 ^ 3, 255));
    s.back();
    s.back();
    assert_eq!(s.get_text(), "偏移量: 2");
}

#[test]
fn raw_bytes_round_trip() {
    let raw: Vec<u8> = (0..16u8).collect();
    let g = PixelGrid::from_raw(2, 2, &raw).unwrap();
    assert_eq!(g.get_pixel(1, 0), Pixel::new(4, 5, 6, 7));
    assert_eq!(g.to_raw(), raw);
    assert!(PixelGrid::from_raw(3, 2, &raw).is_none());
    assert!(PixelGrid::from_pixels(1, 1, vec![]).is_none());
}
