//! The alpha-compositing envelope around the blend formulas.
//!
//! One parameterized compositing skeleton serves every formula mode: read
//! both pixels, normalize, apply the per-channel or composite-color formula,
//! interpolate it against the raw foreground by background alpha, composite
//! premultiplied, and un-premultiply by the final alpha. `Normal` and
//! `Dissolve` have their own short-circuit algorithms.

use vstd::prelude::*;
use vstd::arithmetic::mul::lemma_mul_inequality;
use crate::fixed::{
    ONE, one, spec_mul_unit, spec_div_unit, mul_unit, div_unit, lemma_mul_unit_mono_left,
};
use crate::pixel::{NormRgba, AsRgba};
use crate::blend_mode::BlendMode;
use crate::rng::Rng;
use crate::blend::color;
use crate::blend::color_per_channel as pc;

verus! {

/// `alpha_final = as + ab * (1 - as)`.
pub open spec fn spec_alpha_final(fa: int, ba: int) -> int {
    fa + spec_mul_unit(ba, one() - fa)
}

fn alpha_final(fa: u32, ba: u32) -> (r: u32)
    requires
        fa <= ONE,
        ba <= ONE,
    ensures
        r == spec_alpha_final(fa as int, ba as int),
        r <= ONE,
{
    fa + mul_unit(ba, ONE - fa)
}

/// `mix = (1 - ab) Cs + ab Cr`, then the premultiplied over-composite
/// `mix as + Cb ab (1 - as)`.
pub open spec fn spec_mix(fg_c: int, fg_a: int, bg_c: int, bg_a: int, blended: int) -> int {
    let blend = spec_mul_unit(one() - bg_a, fg_c) + spec_mul_unit(bg_a, blended);
    let cs = spec_mul_unit(blend, fg_a);
    let cb = spec_mul_unit(bg_c, bg_a);
    cs + spec_mul_unit(cb, one() - fg_a)
}

fn mix(fg_c: u32, fg_a: u32, bg_c: u32, bg_a: u32, blended: u32) -> (r: u32)
    requires
        fg_c <= ONE,
        fg_a <= ONE,
        bg_c <= ONE,
        bg_a <= ONE,
        blended <= ONE,
    ensures
        r == spec_mix(fg_c as int, fg_a as int, bg_c as int, bg_a as int, blended as int),
        r <= spec_alpha_final(fg_a as int, bg_a as int),
{
    let blend = mul_unit(ONE - bg_a, fg_c) + mul_unit(bg_a, blended);
    proof {
        crate::fixed::lemma_mul_unit_bounds(bg_c as int, bg_a as int);
        lemma_mul_unit_mono_left(
            spec_mul_unit(bg_c as int, bg_a as int),
            bg_a as int,
            one() - fg_a,
        );
    }
    let cs = mul_unit(blend, fg_a);
    let cb = mul_unit(bg_c, bg_a);
    cs + mul_unit(cb, ONE - fg_a)
}

/// Whether a mode is one of the 19 separable per-channel formulas.
pub open spec fn is_separable(mode: BlendMode) -> bool {
    match mode {
        BlendMode::Darken => true,
        BlendMode::Multiply => true,
        BlendMode::ColorBurn => true,
        BlendMode::LinearBurn => true,
        BlendMode::Lighten => true,
        BlendMode::Screen => true,
        BlendMode::ColorDodge => true,
        BlendMode::LinearDodge => true,
        BlendMode::Overlay => true,
        BlendMode::SoftLight => true,
        BlendMode::HardLight => true,
        BlendMode::VividLight => true,
        BlendMode::LinearLight => true,
        BlendMode::PinLight => true,
        BlendMode::HardMix => true,
        BlendMode::Difference => true,
        BlendMode::Exclusion => true,
        BlendMode::Subtract => true,
        BlendMode::Divide => true,
        _ => false,
    }
}

/// Whether a mode is one of the 6 composite-color formulas.
pub open spec fn is_color_mode(mode: BlendMode) -> bool {
    match mode {
        BlendMode::DarkerColor => true,
        BlendMode::LighterColor => true,
        BlendMode::Hue => true,
        BlendMode::Saturation => true,
        BlendMode::Color => true,
        BlendMode::Luminosity => true,
        _ => false,
    }
}

/// The separable formula a mode stands for.
pub open spec fn spec_per_channel(mode: BlendMode, cb: int, cs: int) -> int {
    match mode {
        BlendMode::Darken => pc::spec_darken(cb, cs),
        BlendMode::Multiply => pc::spec_multiply(cb, cs),
        BlendMode::ColorBurn => pc::spec_color_burn(cb, cs),
        BlendMode::LinearBurn => pc::spec_linear_burn(cb, cs),
        BlendMode::Lighten => pc::spec_lighten(cb, cs),
        BlendMode::Screen => pc::spec_screen(cb, cs),
        BlendMode::ColorDodge => pc::spec_color_dodge(cb, cs),
        BlendMode::LinearDodge => pc::spec_linear_dodge(cb, cs),
        BlendMode::Overlay => pc::spec_overlay(cb, cs),
        BlendMode::SoftLight => pc::spec_soft_light(cb, cs),
        BlendMode::HardLight => pc::spec_hard_light(cb, cs),
        BlendMode::VividLight => pc::spec_vivid_light(cb, cs),
        BlendMode::LinearLight => pc::spec_linear_light(cb, cs),
        BlendMode::PinLight => pc::spec_pin_light(cb, cs),
        BlendMode::HardMix => pc::spec_hard_mix(cb, cs),
        BlendMode::Difference => pc::spec_difference(cb, cs),
        BlendMode::Exclusion => pc::spec_exclusion(cb, cs),
        BlendMode::Subtract => pc::spec_subtract(cb, cs),
        BlendMode::Divide => pc::spec_divide(cb, cs),
        _ => 0,
    }
}

/// Range closure: every separable formula maps unit-range inputs to a
/// unit-range result.
pub proof fn lemma_per_channel_range(mode: BlendMode, cb: int, cs: int)
    requires
        is_separable(mode),
        0 <= cb <= one(),
        0 <= cs <= one(),
    ensures
        0 <= spec_per_channel(mode, cb, cs) <= one(),
{
    match mode {
        BlendMode::Multiply => crate::fixed::lemma_mul_unit_bounds(cb, cs),
        BlendMode::Screen => pc::lemma_screen_range(cb, cs),
        BlendMode::Exclusion => pc::lemma_exclusion_range(cb, cs),
        BlendMode::SoftLight => pc::lemma_soft_light_range(cb, cs),
        BlendMode::HardLight => pc::lemma_hard_light_range(cb, cs),
        BlendMode::Overlay => pc::lemma_hard_light_range(cs, cb),
        _ => {},
    }
}

fn per_channel(mode: BlendMode, base: u32, blend: u32) -> (r: u32)
    requires
        is_separable(mode),
        base <= ONE,
        blend <= ONE,
    ensures
        r == spec_per_channel(mode, base as int, blend as int),
        r <= ONE,
{
    match mode {
        BlendMode::Darken => pc::darken(base, blend),
        BlendMode::Multiply => pc::multiply(base, blend),
        BlendMode::ColorBurn => pc::color_burn(base, blend),
        BlendMode::LinearBurn => pc::linear_burn(base, blend),
        BlendMode::Lighten => pc::lighten(base, blend),
        BlendMode::Screen => pc::screen(base, blend),
        BlendMode::ColorDodge => pc::color_dodge(base, blend),
        BlendMode::LinearDodge => pc::linear_dodge(base, blend),
        BlendMode::Overlay => pc::overlay(base, blend),
        BlendMode::SoftLight => pc::soft_light(base, blend),
        BlendMode::HardLight => pc::hard_light(base, blend),
        BlendMode::VividLight => pc::vivid_light(base, blend),
        BlendMode::LinearLight => pc::linear_light(base, blend),
        BlendMode::PinLight => pc::pin_light(base, blend),
        BlendMode::HardMix => pc::hard_mix(base, blend),
        BlendMode::Difference => pc::difference(base, blend),
        BlendMode::Exclusion => pc::exclusion(base, blend),
        BlendMode::Subtract => pc::subtract(base, blend),
        _ => pc::divide(base, blend),
    }
}

/// The composite-color formula a mode stands for.
pub open spec fn spec_color_mode(mode: BlendMode, cb: (int, int, int), cs: (int, int, int)) -> (
    int,
    int,
    int,
) {
    match mode {
        BlendMode::DarkerColor => color::spec_darker_color(cb, cs),
        BlendMode::LighterColor => color::spec_lighter_color(cb, cs),
        BlendMode::Hue => color::spec_hue(cb, cs),
        BlendMode::Saturation => color::spec_saturation(cb, cs),
        BlendMode::Color => color::spec_color(cb, cs),
        BlendMode::Luminosity => color::spec_luminosity(cb, cs),
        _ => (0, 0, 0),
    }
}

/// The blended color triple a formula mode produces from the normalized
/// background and foreground.
pub open spec fn spec_blended_triple(mode: BlendMode, b: NormRgba, f: NormRgba) -> (int, int, int) {
    if is_color_mode(mode) {
        spec_color_mode(
            mode,
            (b.r as int, b.g as int, b.b as int),
            (f.r as int, f.g as int, f.b as int),
        )
    } else {
        (
            spec_per_channel(mode, b.r as int, f.r as int),
            spec_per_channel(mode, b.g as int, f.g as int),
            spec_per_channel(mode, b.b as int, f.b as int),
        )
    }
}

fn blended_triple(mode: BlendMode, b: NormRgba, f: NormRgba) -> (t: (u32, u32, u32))
    requires
        is_separable(mode) || is_color_mode(mode),
        b.in_range(),
        f.in_range(),
    ensures
        (t.0 as int, t.1 as int, t.2 as int) == spec_blended_triple(mode, b, f),
        t.0 <= ONE,
        t.1 <= ONE,
        t.2 <= ONE,
{
    match mode {
        BlendMode::DarkerColor => color::darker_color((b.r, b.g, b.b), (f.r, f.g, f.b)),
        BlendMode::LighterColor => color::lighter_color((b.r, b.g, b.b), (f.r, f.g, f.b)),
        BlendMode::Hue => color::hue((b.r, b.g, b.b), (f.r, f.g, f.b)),
        BlendMode::Saturation => color::saturation((b.r, b.g, b.b), (f.r, f.g, f.b)),
        BlendMode::Color => color::color((b.r, b.g, b.b), (f.r, f.g, f.b)),
        BlendMode::Luminosity => color::luminosity((b.r, b.g, b.b), (f.r, f.g, f.b)),
        _ => (
            per_channel(mode, b.r, f.r),
            per_channel(mode, b.g, f.g),
            per_channel(mode, b.b, f.b),
        ),
    }
}

/// The Porter-Duff "over" composite of `Normal` mode, with its
/// short circuits: a transparent foreground changes nothing; a transparent
/// background or an opaque foreground copies the foreground.
pub open spec fn spec_blend_normal<P1: AsRgba, P2: AsRgba>(bg: P1, fg: P2) -> P1 {
    if fg.spec_transparent() {
        bg
    } else if bg.spec_transparent() || fg.spec_opaque() {
        P1::spec_from_rgba(fg.spec_to_rgba())
    } else {
        let b = bg.spec_to_rgba();
        let f = fg.spec_to_rgba();
        let af = spec_alpha_final(f.a as int, b.a as int);
        if af == 0 {
            P1::spec_empty()
        } else {
            P1::spec_from_rgba(
                NormRgba {
                    r: spec_normal_channel(f.r as int, f.a as int, b.r as int, b.a as int, af) as u32,
                    g: spec_normal_channel(f.g as int, f.a as int, b.g as int, b.a as int, af) as u32,
                    b: spec_normal_channel(f.b as int, f.a as int, b.b as int, b.a as int, af) as u32,
                    a: af as u32,
                },
            )
        }
    }
}

/// One channel of the `Normal` composite: `(Cs as + Cb ab (1 - as)) / alpha_final`.
pub open spec fn spec_normal_channel(fg_c: int, fg_a: int, bg_c: int, bg_a: int, af: int) -> int {
    let cs = spec_mul_unit(fg_c, fg_a);
    let cb = spec_mul_unit(spec_mul_unit(bg_c, bg_a), one() - fg_a);
    spec_div_unit(cs + cb, af)
}

fn normal_channel(fg_c: u32, fg_a: u32, bg_c: u32, bg_a: u32, af: u32) -> (r: u32)
    requires
        fg_c <= ONE,
        fg_a <= ONE,
        bg_c <= ONE,
        bg_a <= ONE,
        1 <= af,
        af == spec_alpha_final(fg_a as int, bg_a as int),
        af <= ONE,
    ensures
        r == spec_normal_channel(fg_c as int, fg_a as int, bg_c as int, bg_a as int, af as int),
        r <= ONE,
{
    let cs = mul_unit(fg_c, fg_a);
    let cb = mul_unit(mul_unit(bg_c, bg_a), ONE - fg_a);
    proof {
        lemma_mul_unit_mono_left(
            spec_mul_unit(bg_c as int, bg_a as int),
            bg_a as int,
            one() - fg_a,
        );
    }
    div_unit(cs + cb, af)
}

/// Overlay one pixel in `Normal` mode.
pub fn blend_normal<P1: AsRgba, P2: AsRgba>(bg: &mut P1, fg: &P2)
    ensures
        *final(bg) == spec_blend_normal(*old(bg), *fg),
{
    if fg.is_fully_transparent() {
        return ;
    }
    if bg.is_fully_transparent() || fg.is_fully_opacity() {
        *bg = P1::from_rgba(fg.to_rgba());
        return ;
    }
    let b = bg.to_rgba();
    let f = fg.to_rgba();
    let af = alpha_final(f.a, b.a);
    if af == 0 {
        *bg = P1::empty();
        return ;
    }
    let out = NormRgba {
        r: normal_channel(f.r, f.a, b.r, b.a, af),
        g: normal_channel(f.g, f.a, b.g, b.a, af),
        b: normal_channel(f.b, f.a, b.b, b.a, af),
        a: af,
    };
    *bg = P1::from_rgba(out);
}

/// The dissolve composite: a transparent foreground changes nothing, an
/// opaque one is copied; otherwise one uniform draw `u` decides — at
/// `u <= as` the foreground color replaces the background at full opacity,
/// else nothing changes. Exactly one draw is consumed in that case.
pub open spec fn spec_blend_dissolve<P1: AsRgba, P2: AsRgba, R: Rng>(bg: P1, fg: P2, rng: R) -> (
    P1,
    R,
) {
    if fg.spec_transparent() {
        (bg, rng)
    } else if fg.spec_opaque() {
        (P1::spec_from_rgba(fg.spec_to_rgba()), rng)
    } else {
        let f = fg.spec_to_rgba();
        let (u, r2) = rng.spec_next();
        if u * one() <= f.a * 0xffff_ffff {
            (P1::spec_from_rgba(NormRgba { r: f.r, g: f.g, b: f.b, a: ONE }), r2)
        } else {
            (bg, r2)
        }
    }
}

/// Overlay one pixel in `Dissolve` mode, drawing from `rng` as needed.
pub fn blend_dissolve<P1: AsRgba, P2: AsRgba, R: Rng>(bg: &mut P1, fg: &P2, rng: &mut R)
    ensures
        ({
            let (p, r2) = spec_blend_dissolve(*old(bg), *fg, *old(rng));
            *final(bg) == p && *final(rng) == r2
        }),
{
    if fg.is_fully_transparent() {
        return ;
    }
    if fg.is_fully_opacity() {
        *bg = P1::from_rgba(fg.to_rgba());
        return ;
    }
    let f = fg.to_rgba();
    let u = rng.next_unit();
    if (u as u64) * (ONE as u64) <= (f.a as u64) * 0xffff_ffffu64 {
        *bg = P1::from_rgba(NormRgba { r: f.r, g: f.g, b: f.b, a: ONE });
    }
}

/// The shared compositing skeleton of every formula mode (every mode but
/// `Normal` and `Dissolve`): a transparent foreground changes nothing, a
/// transparent background copies the foreground, a zero final alpha yields
/// the empty pixel; otherwise the blended color is interpolated against the
/// raw foreground color by background alpha, composited premultiplied, and
/// un-premultiplied by the final alpha.
pub open spec fn spec_blend_formula<P1: AsRgba, P2: AsRgba>(
    mode: BlendMode,
    bg: P1,
    fg: P2,
) -> P1 {
    if fg.spec_transparent() {
        bg
    } else if bg.spec_transparent() {
        P1::spec_from_rgba(fg.spec_to_rgba())
    } else {
        let b = bg.spec_to_rgba();
        let f = fg.spec_to_rgba();
        let af = spec_alpha_final(f.a as int, b.a as int);
        if af == 0 {
            P1::spec_empty()
        } else {
            let t = spec_blended_triple(mode, b, f);
            P1::spec_from_rgba(
                NormRgba {
                    r: spec_div_unit(
                        spec_mix(f.r as int, f.a as int, b.r as int, b.a as int, t.0),
                        af,
                    ) as u32,
                    g: spec_div_unit(
                        spec_mix(f.g as int, f.a as int, b.g as int, b.a as int, t.1),
                        af,
                    ) as u32,
                    b: spec_div_unit(
                        spec_mix(f.b as int, f.a as int, b.b as int, b.a as int, t.2),
                        af,
                    ) as u32,
                    a: af as u32,
                },
            )
        }
    }
}

/// What one overlaid pixel becomes in any non-dissolve mode.
pub open spec fn spec_blend_pixel<P1: AsRgba, P2: AsRgba>(mode: BlendMode, bg: P1, fg: P2) -> P1 {
    if mode == BlendMode::Normal {
        spec_blend_normal(bg, fg)
    } else {
        spec_blend_formula(mode, bg, fg)
    }
}

/// Overlay one pixel in any non-dissolve mode: the single parameterized
/// compositing function behind the whole formula family.
pub fn blend_pixels<P1: AsRgba, P2: AsRgba>(mode: BlendMode, bg: &mut P1, fg: &P2)
    requires
        mode != BlendMode::Dissolve,
    ensures
        *final(bg) == spec_blend_pixel(mode, *old(bg), *fg),
{
    match mode {
        BlendMode::Normal => {
            blend_normal(bg, fg);
            return ;
        },
        _ => {
        },
    }
    if fg.is_fully_transparent() {
        return ;
    }
    if bg.is_fully_transparent() {
        *bg = P1::from_rgba(fg.to_rgba());
        return ;
    }
    let b = bg.to_rgba();
    let f = fg.to_rgba();
    let af = alpha_final(f.a, b.a);
    if af == 0 {
        *bg = P1::empty();
        return ;
    }
    let t = blended_triple(mode, b, f);
    let out = NormRgba {
        r: div_unit(mix(f.r, f.a, b.r, b.a, t.0), af),
        g: div_unit(mix(f.g, f.a, b.g, b.a, t.1), af),
        b: div_unit(mix(f.b, f.a, b.b, b.a, t.2), af),
        a: af,
    };
    *bg = P1::from_rgba(out);
}

} // verus!
