//! The compositing envelope: identities, short circuits, exact composites.

use image_overlay::blend::{blend_normal, blend_pixels};
use image_overlay::{AsRgba, BlendMode, Rgba8, Luma8, LumaA16, RgbaUnit};
use image_overlay::fixed::ONE;

const H: u32 = ONE / 2;
const Q: u32 = ONE / 4;

#[test]
fn transparent_foreground_is_identity_for_every_mode() {
    let modes = [
        BlendMode::Normal,
        BlendMode::Darken,
        BlendMode::Multiply,
        BlendMode::ColorBurn,
        BlendMode::LinearBurn,
        BlendMode::DarkerColor,
        BlendMode::Lighten,
        BlendMode::Screen,
        BlendMode::ColorDodge,
        BlendMode::LinearDodge,
        BlendMode::LighterColor,
        BlendMode::Overlay,
        BlendMode::SoftLight,
        BlendMode::HardLight,
        BlendMode::VividLight,
        BlendMode::LinearLight,
        BlendMode::PinLight,
        BlendMode::HardMix,
        BlendMode::Difference,
        BlendMode::Exclusion,
        BlendMode::Subtract,
        BlendMode::Divide,
        BlendMode::Hue,
        BlendMode::Saturation,
        BlendMode::Color,
        BlendMode::Luminosity,
    ];
    let fg = Rgba8 { r: 200, g: 100, b: 50, a: 0 };
    for mode in modes {
        let mut bg = Rgba8 { r: 10, g: 20, b: 30, a: 200 };
        blend_pixels(mode, &mut bg, &fg);
        assert_eq!(bg, Rgba8 { r: 10, g: 20, b: 30, a: 200 }, "mode {:?}", mode);
    }
}

#[test]
fn normal_opaque_foreground_copies_foreground() {
    let fg = Rgba8 { r: 5, g: 6, b: 7, a: 255 };
    let mut bg = Rgba8 { r: 90, g: 91, b: 92, a: 17 };
    blend_normal(&mut bg, &fg);
    assert_eq!(bg, Rgba8 { r: 5, g: 6, b: 7, a: 255 });
}

#[test]
fn normal_opaque_foreground_across_formats() {
    // A full-red opaque foreground written into a gray target goes through
    // the BT.709 luminance weights: 0.2126 truncates to 54 of 255.
    let fg = Rgba8 { r: 255, g: 0, b: 0, a: 255 };
    let mut bg = Luma8 { l: 200 };
    blend_normal(&mut bg, &fg);
    assert_eq!(bg, Luma8 { l: 54 });
}

#[test]
fn normal_transparent_background_copies_foreground() {
    let fg = LumaA16 { l: 32768, a: 32768 };
    let mut bg = Rgba8 { r: 1, g: 2, b: 3, a: 0 };
    blend_normal(&mut bg, &fg);
    // 32768 * 4 on the unit scale, back to 8 bits: 131072 / 1028 = 127.
    assert_eq!(bg, Rgba8 { r: 127, g: 127, b: 127, a: 127 });
}

#[test]
fn normal_general_composite_exact() {
    // Black at alpha 0.5 under white at alpha 0.5: alpha 0.75, channel 2/3.
    let fg = RgbaUnit::new(ONE, ONE, ONE, H);
    let mut bg = RgbaUnit::new(0, 0, 0, H);
    blend_normal(&mut bg, &fg);
    assert_eq!(bg, RgbaUnit::new(174760, 174760, 174760, 3 * (ONE / 4)));
}

#[test]
fn multiply_scenario_opaque() {
    // Background (1.0, 0.5, 0.0, 1.0), foreground (0.5, 0.5, 0.5, 1.0):
    // the compositor reduces to the plain per-channel product.
    let fg = RgbaUnit::new(H, H, H, ONE);
    let mut bg = RgbaUnit::new(ONE, H, 0, ONE);
    blend_pixels(BlendMode::Multiply, &mut bg, &fg);
    assert_eq!(bg, RgbaUnit::new(H, Q, 0, ONE));
}

#[test]
fn multiply_with_translucent_foreground() {
    // Opaque (1, 0.5, 0) under (0.5, 0.5, 0.5) at alpha 0.5.
    let fg = RgbaUnit::new(H, H, H, H);
    let mut bg = RgbaUnit::new(ONE, H, 0, ONE);
    blend_pixels(BlendMode::Multiply, &mut bg, &fg);
    assert_eq!(bg, RgbaUnit::new(3 * (ONE / 4), 98302, 0, ONE));
}

#[test]
fn formula_mode_with_transparent_background_copies_foreground() {
    let fg = Rgba8 { r: 40, g: 50, b: 60, a: 70 };
    let mut bg = Rgba8 { r: 1, g: 2, b: 3, a: 0 };
    blend_pixels(BlendMode::Screen, &mut bg, &fg);
    assert_eq!(bg, Rgba8 { r: 40, g: 50, b: 60, a: 70 });
}

#[test]
fn opaque_darken_and_lighten_reduce_to_min_max() {
    let fg = RgbaUnit::new(H, Q, ONE, ONE);
    let mut bg = RgbaUnit::new(Q, H, H, ONE);
    blend_pixels(BlendMode::Darken, &mut bg, &fg);
    assert_eq!(bg, RgbaUnit::new(Q, Q, H, ONE));

    let mut bg2 = RgbaUnit::new(Q, H, H, ONE);
    blend_pixels(BlendMode::Lighten, &mut bg2, &fg);
    assert_eq!(bg2, RgbaUnit::new(H, H, ONE, ONE));
}

#[test]
fn blend_mode_names_and_default() {
    assert_eq!(BlendMode::default(), BlendMode::Normal);
    assert_eq!(BlendMode::Normal.name(), "Normal");
    assert_eq!(BlendMode::Dissolve.name(), "Dissolve");
    assert_eq!(BlendMode::ColorBurn.name(), "ColorBurn");
    assert_eq!(BlendMode::Luminosity.name(), "Luminosity");
}
