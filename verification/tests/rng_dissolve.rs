//! The draw source against its reference generator, and dissolve behavior.

use image_overlay::rng::{Rng, FastUnsecurePrng};
use image_overlay::blend::blend_dissolve;
use image_overlay::{AsRgba, LumaA8, Rgba8};

#[test]
fn prng_matches_reference_generator() {
    // The library's generator must reproduce pcg_mwc's Mwc128XXA32 draw for
    // draw: same seeding, same stepping.
    for (k1, k2) in [(0u32, 0u32), (1, 2), (100, 100), (123456789, 987654321), (u32::MAX, 7)] {
        let mut ours = FastUnsecurePrng::new(k1, k2);
        let mut reference = pcg_mwc::Mwc128XXA32::new(k1, k2);
        for i in 0..64 {
            assert_eq!(ours.next_unit(), reference.next(), "seed ({k1}, {k2}), draw {i}");
        }
    }
}

#[test]
fn prng_same_seed_same_sequence() {
    let mut a = FastUnsecurePrng::new(640, 480);
    let mut b = FastUnsecurePrng::new(640, 480);
    for _ in 0..32 {
        assert_eq!(a.next_unit(), b.next_unit());
    }
}

#[test]
fn dissolve_transparent_foreground_is_identity() {
    let mut rng = FastUnsecurePrng::new(3, 4);
    let fg = LumaA8 { l: 200, a: 0 };
    let mut bg = Rgba8 { r: 9, g: 8, b: 7, a: 6 };
    blend_dissolve(&mut bg, &fg, &mut rng);
    assert_eq!(bg, Rgba8 { r: 9, g: 8, b: 7, a: 6 });
}

#[test]
fn dissolve_opaque_foreground_copies() {
    let mut rng = FastUnsecurePrng::new(3, 4);
    let fg = LumaA8 { l: 200, a: 255 };
    let mut bg = Rgba8 { r: 9, g: 8, b: 7, a: 6 };
    blend_dissolve(&mut bg, &fg, &mut rng);
    // 200 * 1028 on the unit scale, back to 8 bits, is 200 again.
    assert_eq!(bg, Rgba8 { r: 200, g: 200, b: 200, a: 255 });
}

#[test]
fn dissolve_translucent_foreground_all_or_nothing() {
    // Whatever the draw decides, the result is either the untouched
    // background or the foreground color at full opacity.
    let before = Rgba8 { r: 9, g: 8, b: 7, a: 6 };
    let mut rng = FastUnsecurePrng::new(11, 12);
    for _ in 0..32 {
        let fg = Rgba8 { r: 100, g: 110, b: 120, a: 128 };
        let mut bg = before;
        blend_dissolve(&mut bg, &fg, &mut rng);
        assert!(
            bg == before || bg == Rgba8 { r: 100, g: 110, b: 120, a: 255 },
            "unexpected dissolve result {:?}",
            bg
        );
    }
}

#[test]
fn dissolve_is_deterministic_per_seed() {
    let fg = Rgba8 { r: 100, g: 110, b: 120, a: 128 };
    let mut outcomes_a: Vec<Rgba8> = Vec::new();
    let mut outcomes_b: Vec<Rgba8> = Vec::new();
    let mut rng_a = FastUnsecurePrng::new(21, 42);
    let mut rng_b = FastUnsecurePrng::new(21, 42);
    for _ in 0..64 {
        let mut bg = Rgba8 { r: 1, g: 2, b: 3, a: 200 };
        blend_dissolve(&mut bg, &fg, &mut rng_a);
        outcomes_a.push(bg);
        let mut bg = Rgba8 { r: 1, g: 2, b: 3, a: 200 };
        blend_dissolve(&mut bg, &fg, &mut rng_b);
        outcomes_b.push(bg);
    }
    assert_eq!(outcomes_a, outcomes_b);
    // A half-transparent foreground should land on both sides eventually.
    assert!(outcomes_a.iter().any(|p| p.a == 255));
    assert!(outcomes_a.iter().any(|p| p.a == 200));
}
