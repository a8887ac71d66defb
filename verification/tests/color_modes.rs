//! Exact expected values for the composite-color blend formulas.

use image_overlay::blend::color::{
    hue, saturation, color, luminosity, darker_color, lighter_color,
};
use image_overlay::fixed::ONE;

const H: u32 = ONE / 2;
const Q: u32 = ONE / 4;
const TQ: u32 = 3 * (ONE / 4);

#[test]
fn darker_color_picks_smaller_luminance() {
    assert_eq!(darker_color((H, H, H), (Q, Q, Q)), (Q, Q, Q));
    assert_eq!(darker_color((Q, Q, Q), (H, H, H)), (Q, Q, Q));
    // Ties keep the background.
    assert_eq!(darker_color((H, H, H), (H, H, H)), (H, H, H));
}

#[test]
fn lighter_color_picks_larger_luminance() {
    assert_eq!(lighter_color((H, H, H), (Q, Q, Q)), (H, H, H));
    assert_eq!(lighter_color((Q, Q, Q), (H, H, H)), (H, H, H));
}

#[test]
fn color_identity_on_equal_triples() {
    let c = (H, Q, TQ);
    assert_eq!(color(c, c), c);
    let d = (0, ONE, 12345);
    assert_eq!(color(d, d), d);
}

#[test]
fn luminosity_identity_on_equal_triples() {
    let c = (H, Q, TQ);
    assert_eq!(luminosity(c, c), c);
    let d = (ONE, 0, 98765);
    assert_eq!(luminosity(d, d), d);
}

#[test]
fn hue_of_gray_background_is_gray() {
    // A gray background has zero saturation, so any foreground hue
    // collapses to the background's luminance.
    assert_eq!(hue((H, H, H), (ONE, 0, 0)), (H, H, H));
}

#[test]
fn saturation_of_gray_foreground_flattens() {
    // lum((1, 0, 0)) = 0.3 on the unit scale.
    assert_eq!(saturation((ONE, 0, 0), (H, H, H)), (78642, 78642, 78642));
}

#[test]
fn hue_takes_foreground_hue_at_background_saturation_and_luminance() {
    // sat(cb) = 0.5; set_sat((0, 1, 0), 0.5) = (0, 0.5, 0);
    // lum(cb) = (30 * 0.5 + 59 * 0.25) / 100 of the unit scale = 77986,
    // lum((0, 0.5, 0)) = 77331, so every channel shifts up by 655.
    assert_eq!(hue((H, Q, 0), (0, ONE, 0)), (655, H + 655, 655));
}

#[test]
fn saturation_takes_foreground_saturation() {
    // sat(cs) = 0.5; set_sat((0, 1, 0), 0.5) = (0, 0.5, 0);
    // lum(cb) = 154662, lum((0, 0.5, 0)) = 77331: shift up by 77331.
    assert_eq!(saturation((0, ONE, 0), (H, Q, 0)), (77331, H + 77331, 77331));
}

#[test]
fn color_raises_luminance_to_white() {
    assert_eq!(color((ONE, ONE, ONE), (H, H, H)), (ONE, ONE, ONE));
}

#[test]
fn color_clips_negative_channels() {
    // set_lum((1, 1, 0), lum((1, 0, 0)) = 78642) shifts by -154662 and
    // clips the negative minimum back to zero, rescaling toward the
    // luminance.
    assert_eq!(color((ONE, 0, 0), (ONE, ONE, 0)), (88362, 88362, 0));
}
