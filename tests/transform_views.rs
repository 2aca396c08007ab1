use stegsolve::grid::{Pixel, PixelGrid};
use stegsolve::transform::{compute, compute_with, ColorMapCoefficients, Transform};

fn grid(width: u32, height: u32, pixels: Vec<Pixel>) -> PixelGrid {
    PixelGrid::from_pixels(width, height, pixels).unwrap()
}

fn sample() -> PixelGrid {
    grid(
        2,
        2,
        vec![
            Pixel::new(10, 20, 30, 255),
            Pixel::new(200, 100, 50, 0),
            Pixel::new(7, 7, 7, 128),
            Pixel::new(255, 0, 128, 1),
        ],
    )
}

fn coefficients() -> ColorMapCoefficients {
    ColorMapCoefficients { bm: 3, ba: 5, bx: 7, gm: 11, ga: 13, gx: 17, rm: 19, ra: 23, rx: 29 }
}

#[test]
fn identity_view_copies_pixels() {
    let src = sample();
    let out = compute(&src, 0);
    assert_eq!(out.pixels, src.pixels);
    assert_eq!((out.width, out.height), (2, 2));
}

#[test]
fn inversion_view_inverts_rgb_and_sets_alpha() {
    let out = compute(&sample(), 1);
    assert_eq!(out.pixels[0], Pixel::new(245, 235, 225, 255));
    assert_eq!(out.pixels[1], Pixel::new(55, 155, 205, 255));
}

#[test]
fn inversion_twice_restores_rgb() {
    let src = sample();
    let twice = compute(&compute(&src, 1), 1);
    for (p, q) in src.pixels.iter().zip(twice.pixels.iter()) {
        assert_eq!((p.r, p.g, p.b), (q.r, q.g, q.b));
        assert_eq!(q.a, 255);
    }
}

#[test]
fn deterministic_views_repeat_exactly() {
    let src = sample();
    for index in (0u32..38).chain(41..42) {
        assert_eq!(compute(&src, index).pixels, compute(&src, index).pixels);
    }
}

#[test]
fn bit_plane_is_black_and_white_with_matching_count() {
    let src = sample();
    for index in 2u32..34 {
        let bit = 33 - index;
        let out = compute(&src, index);
        let mut white = 0;
        let mut set = 0;
        for (p, q) in src.pixels.iter().zip(out.pixels.iter()) {
            let word = ((p.a as u32) << 24) | ((p.r as u32) << 16) | ((p.g as u32) << 8) | p.b as u32;
            let on = (word >> bit) & 1 == 1;
            assert!(*q == Pixel::new(255, 255, 255, 255) || *q == Pixel::new(0, 0, 0, 255));
            assert_eq!(*q == Pixel::new(255, 255, 255, 255), on);
            if on {
                set += 1;
            }
            if q.r == 255 {
                white += 1;
            }
        }
        assert_eq!(white, set);
    }
}

#[test]
fn alpha_plane_seven_reads_alpha_high_bit() {
    let out = compute(&sample(), 2);
    assert_eq!(out.pixels[0], Pixel::new(255, 255, 255, 255));
    assert_eq!(out.pixels[1], Pixel::new(0, 0, 0, 255));
    assert_eq!(out.pixels[2], Pixel::new(255, 255, 255, 255));
}

#[test]
fn full_alpha_view_shows_red_only() {
    let out = compute(&sample(), 34);
    assert_eq!(out.pixels[0], Pixel::new(255, 0, 0, 255));
    assert_eq!(out.pixels[1], Pixel::new(255, 0, 0, 255));
}

#[test]
fn full_channel_views_keep_one_channel() {
    let src = sample();
    assert_eq!(compute(&src, 35).pixels[0], Pixel::new(10, 0, 0, 255));
    assert_eq!(compute(&src, 36).pixels[0], Pixel::new(0, 20, 0, 255));
    assert_eq!(compute(&src, 37).pixels[0], Pixel::new(0, 0, 30, 255));
}

#[test]
fn random_view_follows_its_coefficients() {
    let src = sample();
    let c = coefficients();
    let out = compute_with(&src, 38, &c);
    let p = src.pixels[1];
    let v0 = ((((p.r as u32) * (c.bm as u32)) ^ c.bx as u32) + c.ba as u32) % 256;
    let v1 = ((((p.g as u32) * (c.gm as u32)) ^ c.gx as u32) + c.ga as u32) % 256;
    let v2 = ((((p.b as u32) * (c.rm as u32)) ^ c.rx as u32) + c.ra as u32) % 256;
    assert_eq!(out.pixels[1], Pixel::new(v2 as u8, v1 as u8, v0 as u8, 255));
    // (200 * 3) ^ 7 = 607, + 5 = 612, mod 256 = 100
    assert_eq!(out.pixels[1].b, 100);
}

#[test]
fn random_views_share_one_procedure() {
    let src = sample();
    let c = coefficients();
    let a = compute_with(&src, 38, &c);
    assert_eq!(a.pixels, compute_with(&src, 39, &c).pixels);
    assert_eq!(a.pixels, compute_with(&src, 40, &c).pixels);
}

#[test]
fn random_view_output_is_opaque() {
    let out = compute(&sample(), 39);
    assert!(out.pixels.iter().all(|p| p.a == 255));
}

#[test]
fn gray_view_marks_equal_components() {
    let out = compute(&sample(), 41);
    assert_eq!(out.pixels[0], Pixel::new(0, 0, 0, 255));
    assert_eq!(out.pixels[2], Pixel::new(255, 255, 255, 255));
}

#[test]
fn navigation_wraps_both_ways() {
    let mut t = Transform::new(sample());
    assert_eq!(t.get_text(), "正常图像");
    t.back();
    assert_eq!(t.get_text(), "灰度");
    t.forward();
    assert_eq!(t.get_image().pixels, sample().pixels);
    t.forward();
    assert_eq!(t.get_text(), "颜色反转 (Xor)");
    t.forward();
    assert_eq!(t.get_text(), "Alpha plane 7");
    for _ in 0..8 {
        t.forward();
    }
    assert_eq!(t.get_text(), "Red plane 7");
    for _ in 0..23 {
        t.forward();
    }
    assert_eq!(t.get_text(), "Blue plane 0");
    t.forward();
    assert_eq!(t.get_text(), "Full alpha");
    assert_eq!(t.get_image().pixels[0], Pixel::new(255, 0, 0, 255));
}

#[test]
fn empty_image_views_are_empty() {
    let src = grid(0, 0, vec![]);
    let out = compute(&src, 5);
    assert!(out.pixels.is_empty());
}

#[test]
fn forward_then_back_restores_view() {
    let mut t = Transform::new(sample());
    for _ in 0..5 {
        t.forward();
    }
    let before = t.get_image().pixels.clone();
    t.forward();
    t.back();
    assert_eq!(t.get_image().pixels, before);
    assert_eq!(t.get_text(), "Alpha plane 4");
}
