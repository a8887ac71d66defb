//! The overlay driver: region coverage, no-ops, cross-format composites,
//! dissolve determinism across whole calls.

use image_overlay::{overlay, AsRgba, BlendMode, Image, LumaA8, Rgba8, RgbaUnit};
use image_overlay::fixed::ONE;

fn filled_rgba8(w: u32, h: u32, p: Rgba8) -> Image<Rgba8> {
    Image::new_filled(w, h, p)
}

#[test]
fn no_overlap_is_a_no_op() {
    let before = Rgba8 { r: 1, g: 2, b: 3, a: 4 };
    let mut bottom = filled_rgba8(10, 10, before);
    let top = filled_rgba8(5, 5, Rgba8 { r: 9, g: 9, b: 9, a: 255 });
    overlay(&mut bottom, &top, 20, 20, BlendMode::Normal);
    assert!(bottom.pixels().iter().all(|p| *p == before));
}

#[test]
fn normal_overlay_covers_exactly_the_clipped_region() {
    let before = Rgba8 { r: 1, g: 2, b: 3, a: 255 };
    let fg = Rgba8 { r: 9, g: 9, b: 9, a: 255 };
    let mut bottom = filled_rgba8(10, 10, before);
    let top = filled_rgba8(5, 5, fg);
    overlay(&mut bottom, &top, 8, 8, BlendMode::Normal);
    for y in 0..10u32 {
        for x in 0..10u32 {
            let got = bottom.get_pixel(x, y);
            if x >= 8 && y >= 8 {
                assert_eq!(got, fg, "inside region at ({x}, {y})");
            } else {
                assert_eq!(got, before, "outside region at ({x}, {y})");
            }
        }
    }
}

#[test]
fn negative_offset_covers_top_left_corner() {
    let before = Rgba8 { r: 1, g: 2, b: 3, a: 255 };
    let fg = Rgba8 { r: 9, g: 9, b: 9, a: 255 };
    let mut bottom = filled_rgba8(10, 10, before);
    let top = filled_rgba8(5, 5, fg);
    overlay(&mut bottom, &top, -3, -3, BlendMode::Normal);
    for y in 0..10u32 {
        for x in 0..10u32 {
            let got = bottom.get_pixel(x, y);
            if x < 2 && y < 2 {
                assert_eq!(got, fg, "inside region at ({x}, {y})");
            } else {
                assert_eq!(got, before, "outside region at ({x}, {y})");
            }
        }
    }
}

#[test]
fn multiply_overlay_on_unit_pixels() {
    let h = ONE / 2;
    let mut bottom = Image::new(1, 1, vec![RgbaUnit::new(ONE, h, 0, ONE)]);
    let top = Image::new(1, 1, vec![RgbaUnit::new(h, h, h, ONE)]);
    overlay(&mut bottom, &top, 0, 0, BlendMode::Multiply);
    assert_eq!(bottom.get_pixel(0, 0), RgbaUnit::new(h, ONE / 4, 0, ONE));
}

#[test]
fn cross_format_overlay() {
    // A half-opaque 16-bit-gray-style foreground over an opaque color
    // background, Normal mode, checked against the per-pixel composite.
    let mut bottom = filled_rgba8(3, 3, Rgba8 { r: 200, g: 100, b: 0, a: 255 });
    let top = Image::new_filled(2, 2, LumaA8 { l: 255, a: 128 });
    let mut expected = Rgba8 { r: 200, g: 100, b: 0, a: 255 };
    image_overlay::blend::blend_normal(&mut expected, &LumaA8 { l: 255, a: 128 });
    overlay(&mut bottom, &top, 1, 1, BlendMode::Normal);
    for y in 0..3u32 {
        for x in 0..3u32 {
            let got = bottom.get_pixel(x, y);
            if x >= 1 && y >= 1 {
                assert_eq!(got, expected);
            } else {
                assert_eq!(got, Rgba8 { r: 200, g: 100, b: 0, a: 255 });
            }
        }
    }
}

#[test]
fn dissolve_overlay_is_bit_identical_across_calls() {
    let fg = LumaA8 { l: 250, a: 100 };
    let bg = Rgba8 { r: 10, g: 20, b: 30, a: 255 };
    let top = Image::new_filled(8, 8, fg);
    let top2 = Image::new_filled(8, 8, fg);
    let mut a = filled_rgba8(16, 16, bg);
    let mut b = filled_rgba8(16, 16, bg);
    overlay(&mut a, &top, 3, 3, BlendMode::Dissolve);
    overlay(&mut b, &top2, 3, 3, BlendMode::Dissolve);
    assert_eq!(a.pixels(), b.pixels());
    // A 100/255 alpha should scatter: some pixels replaced, some kept.
    assert!(a.pixels().iter().any(|p| p.a == 255 && p.r == 250));
    assert!(a.pixels().iter().any(|p| *p == bg));
}

#[test]
fn dissolve_draws_depend_on_position_order() {
    // The sweep consumes one draw per visited translucent pixel, row-major,
    // so shifting the overlay window changes which pixels get replaced in a
    // reproducible way.
    let fg = LumaA8 { l: 250, a: 100 };
    let top = Image::new_filled(8, 8, fg);
    let mut a = filled_rgba8(16, 16, Rgba8 { r: 0, g: 0, b: 0, a: 255 });
    let mut b = filled_rgba8(16, 16, Rgba8 { r: 0, g: 0, b: 0, a: 255 });
    overlay(&mut a, &top, 0, 0, BlendMode::Dissolve);
    overlay(&mut b, &top, 0, 0, BlendMode::Dissolve);
    assert_eq!(a.pixels(), b.pixels());
}

#[test]
fn overlay_entire_cover_with_opaque_top_replaces_all() {
    let fg = Rgba8 { r: 5, g: 6, b: 7, a: 255 };
    let mut bottom = filled_rgba8(4, 4, Rgba8 { r: 1, g: 1, b: 1, a: 1 });
    let top = filled_rgba8(4, 4, fg);
    overlay(&mut bottom, &top, 0, 0, BlendMode::Normal);
    assert!(bottom.pixels().iter().all(|p| *p == fg));
}
