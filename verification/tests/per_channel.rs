//! Exact expected values for the separable blend formulas on the unit
//! scale: `ONE` stands for 1.0, `ONE / 2` for 0.5, `ONE / 4` for 0.25.

use image_overlay::blend::color_per_channel::{
    darken, multiply, color_burn, linear_burn, lighten, screen, color_dodge, linear_dodge,
    overlay, soft_light, hard_light, vivid_light, linear_light, pin_light, hard_mix, difference,
    exclusion, subtract, divide,
};
use image_overlay::fixed::ONE;

const H: u32 = ONE / 2;
const Q: u32 = ONE / 4;
const TQ: u32 = 3 * (ONE / 4);

#[test]
fn darken_takes_minimum() {
    assert_eq!(darken(H, Q), Q);
    assert_eq!(darken(Q, H), Q);
    assert_eq!(darken(0, ONE), 0);
}

#[test]
fn multiply_exact() {
    assert_eq!(multiply(H, H), Q);
    assert_eq!(multiply(ONE, 12345), 12345);
    assert_eq!(multiply(0, ONE), 0);
}

#[test]
fn color_burn_cases() {
    assert_eq!(color_burn(ONE, 0), ONE);
    assert_eq!(color_burn(100, 0), 0);
    assert_eq!(color_burn(H, H), 0);
    assert_eq!(color_burn(TQ, H), H);
}

#[test]
fn linear_burn_cases() {
    assert_eq!(linear_burn(TQ, H), Q);
    assert_eq!(linear_burn(Q, H), 0);
    assert_eq!(linear_burn(ONE, ONE), ONE);
}

#[test]
fn lighten_takes_maximum() {
    assert_eq!(lighten(H, Q), H);
    assert_eq!(lighten(Q, H), H);
}

#[test]
fn screen_exact() {
    assert_eq!(screen(H, H), TQ);
    assert_eq!(screen(0, 0), 0);
    assert_eq!(screen(ONE, H), ONE);
}

#[test]
fn color_dodge_cases() {
    assert_eq!(color_dodge(0, H), 0);
    assert_eq!(color_dodge(H, ONE), ONE);
    assert_eq!(color_dodge(Q, H), H);
    assert_eq!(color_dodge(TQ, H), ONE);
}

#[test]
fn linear_dodge_cases() {
    assert_eq!(linear_dodge(H, Q), TQ);
    assert_eq!(linear_dodge(TQ, H), ONE);
}

#[test]
fn overlay_swaps_hard_light() {
    assert_eq!(overlay(H, H), H);
    assert_eq!(overlay(Q, H), hard_light(H, Q));
}

#[test]
fn hard_light_cases() {
    assert_eq!(hard_light(H, Q), Q);
    assert_eq!(hard_light(H, TQ), TQ);
}

#[test]
fn soft_light_cases() {
    // 0.5 - (1 - 0.5) * 0.5 * (1 - 0.5), with per-step truncation.
    assert_eq!(soft_light(H, Q), H - 32767);
    // 0.25 + (0.5) * (d - 0.25) with d = 0.5 from the cubic branch.
    assert_eq!(soft_light(Q, TQ), Q + 32767);
    assert_eq!(soft_light(0, H), 0);
    assert_eq!(soft_light(ONE, ONE), ONE);
}

#[test]
fn vivid_light_cases() {
    assert_eq!(vivid_light(H, 0), 0);
    assert_eq!(vivid_light(H, Q), 0);
    assert_eq!(vivid_light(TQ, Q), H);
    assert_eq!(vivid_light(H, TQ), ONE);
    assert_eq!(vivid_light(H, ONE), ONE);
}

#[test]
fn linear_light_cases() {
    assert_eq!(linear_light(Q, TQ), TQ);
    assert_eq!(linear_light(Q, 0), 0);
    assert_eq!(linear_light(H, H), H);
}

#[test]
fn pin_light_cases() {
    assert_eq!(pin_light(H, Q), H);
    assert_eq!(pin_light(TQ, Q), H);
    assert_eq!(pin_light(Q, TQ), H);
}

#[test]
fn hard_mix_snaps_to_extremes() {
    assert_eq!(hard_mix(H, Q), 0);
    assert_eq!(hard_mix(TQ, Q), ONE);
    assert_eq!(hard_mix(ONE, 0), 0);
    assert_eq!(hard_mix(0, TQ), 0);
    assert_eq!(hard_mix(ONE, ONE), ONE);
    // At full blend the intermediate is pinned to 1 whatever the base.
    assert_eq!(hard_mix(0, ONE), ONE);
}

#[test]
fn difference_cases() {
    assert_eq!(difference(Q, TQ), H);
    assert_eq!(difference(TQ, Q), H);
    assert_eq!(difference(H, H), 0);
}

#[test]
fn exclusion_cases() {
    assert_eq!(exclusion(H, H), H);
    assert_eq!(exclusion(ONE, 0), ONE);
    assert_eq!(exclusion(ONE, ONE), 0);
}

#[test]
fn subtract_cases() {
    assert_eq!(subtract(TQ, Q), H);
    assert_eq!(subtract(Q, TQ), 0);
}

#[test]
fn divide_cases() {
    assert_eq!(divide(Q, H), H);
    assert_eq!(divide(H, Q), ONE);
    assert_eq!(divide(H, 0), ONE);
}

#[test]
fn range_closure_dense_sampling() {
    // Every formula stays in [0, ONE] across a grid including the
    // documented edge points 0, 0.25, 0.5 and 1.
    let pts: Vec<u32> = vec![0, 1, Q - 1, Q, Q + 1, H - 1, H, H + 1, TQ, ONE - 1, ONE];
    for &cb in &pts {
        for &cs in &pts {
            for r in [
                darken(cb, cs),
                multiply(cb, cs),
                color_burn(cb, cs),
                linear_burn(cb, cs),
                lighten(cb, cs),
                screen(cb, cs),
                color_dodge(cb, cs),
                linear_dodge(cb, cs),
                overlay(cb, cs),
                soft_light(cb, cs),
                hard_light(cb, cs),
                vivid_light(cb, cs),
                linear_light(cb, cs),
                pin_light(cb, cs),
                hard_mix(cb, cs),
                difference(cb, cs),
                exclusion(cb, cs),
                subtract(cb, cs),
                divide(cb, cs),
            ] {
                assert!(r <= ONE, "out of range at ({cb}, {cs}): {r}");
            }
        }
    }
}
