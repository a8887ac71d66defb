//! Channel normalization: exact conversions, round trips, alpha flags.

use image_overlay::{AsRgba, NormRgba, Rgb8, Rgba8, Luma8, LumaA8, Rgb16, Rgba16, Luma16, LumaA16,
    RgbaUnit};
use image_overlay::fixed::ONE;

#[test]
fn rgba8_to_normalized_exact() {
    let p = Rgba8 { r: 255, g: 128, b: 0, a: 255 };
    let c = p.to_rgba();
    assert_eq!(c, NormRgba { r: ONE, g: 128 * 1028, b: 0, a: ONE });
}

#[test]
fn rgba16_to_normalized_exact() {
    let p = Rgba16 { r: 65535, g: 32768, b: 0, a: 65535 };
    let c = p.to_rgba();
    assert_eq!(c, NormRgba { r: ONE, g: 32768 * 4, b: 0, a: ONE });
}

#[test]
fn round_trip_rgba8() {
    for v in [0u8, 1, 7, 12, 128, 200, 254, 255] {
        let p = Rgba8 { r: v, g: v.wrapping_add(13), b: 255 - v, a: v };
        assert_eq!(Rgba8::from_rgba(p.to_rgba()), p);
    }
}

#[test]
fn round_trip_rgb8_and_luma8() {
    let p = Rgb8 { r: 3, g: 250, b: 77 };
    assert_eq!(Rgb8::from_rgba(p.to_rgba()), p);
    let l = Luma8 { l: 200 };
    assert_eq!(Luma8::from_rgba(l.to_rgba()), l);
    let la = LumaA8 { l: 17, a: 128 };
    assert_eq!(LumaA8::from_rgba(la.to_rgba()), la);
}

#[test]
fn round_trip_16_bit() {
    let p = Rgba16 { r: 0, g: 65535, b: 1000, a: 32768 };
    assert_eq!(Rgba16::from_rgba(p.to_rgba()), p);
    let q = Rgb16 { r: 12345, g: 0, b: 65535 };
    assert_eq!(Rgb16::from_rgba(q.to_rgba()), q);
    let l = Luma16 { l: 54321 };
    assert_eq!(Luma16::from_rgba(l.to_rgba()), l);
    let la = LumaA16 { l: 1, a: 65534 };
    assert_eq!(LumaA16::from_rgba(la.to_rgba()), la);
}

#[test]
fn round_trip_unit() {
    let p = RgbaUnit::new(0, ONE, 131070, 12345);
    assert_eq!(RgbaUnit::from_rgba(p.to_rgba()), p);
}

#[test]
fn luma_write_uses_bt709_weights() {
    // 0.2126 of full red, truncated twice (weights, then scale).
    let red = NormRgba { r: ONE, g: 0, b: 0, a: ONE };
    assert_eq!(Luma8::from_rgba(red), Luma8 { l: 54 });
    let gray = NormRgba { r: ONE / 2, g: ONE / 2, b: ONE / 2, a: ONE };
    assert_eq!(Luma8::from_rgba(gray), Luma8 { l: 127 });
}

#[test]
fn alpha_flags_on_raw_extremes() {
    assert!(Rgba8 { r: 0, g: 0, b: 0, a: 0 }.is_fully_transparent());
    assert!(!Rgba8 { r: 0, g: 0, b: 0, a: 1 }.is_fully_transparent());
    assert!(Rgba8 { r: 0, g: 0, b: 0, a: 255 }.is_fully_opacity());
    assert!(!Rgba8 { r: 0, g: 0, b: 0, a: 254 }.is_fully_opacity());
    assert!(LumaA16 { l: 9, a: 0 }.is_fully_transparent());
    assert!(LumaA16 { l: 9, a: 65535 }.is_fully_opacity());
    // Formats without alpha are always opaque, never transparent.
    assert!(Rgb8 { r: 0, g: 0, b: 0 }.is_fully_opacity());
    assert!(!Rgb8 { r: 0, g: 0, b: 0 }.is_fully_transparent());
    assert!(Luma16 { l: 0 }.is_fully_opacity());
}

#[test]
fn empty_pixels() {
    assert_eq!(Rgba8::empty(), Rgba8 { r: 0, g: 0, b: 0, a: 0 });
    assert_eq!(Rgb8::empty(), Rgb8 { r: 0, g: 0, b: 0 });
    assert_eq!(RgbaUnit::empty(), RgbaUnit::new(0, 0, 0, 0));
}

#[test]
fn luma_read_replicates() {
    let l = Luma16 { l: 300 };
    let c = l.to_rgba();
    assert_eq!(c, NormRgba { r: 1200, g: 1200, b: 1200, a: ONE });
}
