//! Library-wide laws, stated and proved once over the spec functions.

use vstd::prelude::*;
use vstd::arithmetic::mul::{lemma_mul_is_commutative, lemma_mul_inequality};
use vstd::arithmetic::div_mod::{
    lemma_div_by_multiple, lemma_multiply_divide_lt, lemma_mod_division_less_than_divisor,
};
use crate::fixed::{ONE, one, spec_mul_unit, lemma_mul_unit_bounds};
use crate::pixel::{AsRgba, NormRgba};
use crate::raster::{Image, lemma_row_major_index};
use crate::blend_mode::BlendMode;
use crate::rng::FastUnsecurePrng;
use crate::blend::color::{
    spec_color, spec_luminosity, spec_set_lum, spec_lum, spec_in_range3, lemma_lum_range,
};
use crate::blend::fns::{
    spec_blend_pixel, spec_blend_dissolve, spec_blend_normal, spec_blend_formula,
    spec_per_channel, is_separable, lemma_per_channel_range,
};
use crate::overlay::{spec_overlay, spec_overlay_bounds, spec_sweep};

verus! {

/// Blending any fully transparent foreground pixel onto any background
/// pixel, whatever the mode, leaves the background unchanged.
pub proof fn lemma_transparent_foreground_identity<P1: AsRgba, P2: AsRgba>(
    mode: BlendMode,
    bg: P1,
    fg: P2,
)
    requires
        fg.spec_transparent(),
    ensures
        spec_blend_pixel(mode, bg, fg) == bg,
{
}

/// Dissolving a fully transparent foreground pixel onto any background
/// pixel leaves the background unchanged and consumes no draw.
pub proof fn lemma_transparent_foreground_identity_dissolve<P1: AsRgba, P2: AsRgba>(
    bg: P1,
    fg: P2,
    rng: FastUnsecurePrng,
)
    requires
        fg.spec_transparent(),
    ensures
        spec_blend_dissolve(bg, fg, rng) == (bg, rng),
{
}

/// `Normal` mode with a fully opaque foreground pixel yields exactly the
/// denormalized foreground value, independent of the background.
pub proof fn lemma_normal_opaque_foreground<P1: AsRgba, P2: AsRgba>(bg1: P1, bg2: P1, fg: P2)
    requires
        fg.spec_opaque(),
    ensures
        spec_blend_normal(bg1, fg) == P1::spec_from_rgba(fg.spec_to_rgba()),
        spec_blend_normal(bg1, fg) == spec_blend_normal(bg2, fg),
{
    fg.lemma_alpha_flags();
}

/// Shifting a color's luminance to its own luminance changes nothing.
pub proof fn lemma_set_lum_identity(c: (int, int, int))
    requires
        spec_in_range3(c),
    ensures
        spec_set_lum(c, spec_lum(c)) == c,
{
    lemma_lum_range(c);
}

/// Compositing a color with itself under the `Color` formula is the
/// identity: `color(Cb, Cb) == Cb`.
pub proof fn lemma_color_idempotent(cb: (int, int, int))
    requires
        spec_in_range3(cb),
    ensures
        spec_color(cb, cb) == cb,
{
    lemma_set_lum_identity(cb);
}

/// Compositing a color with itself under the `Luminosity` formula is the
/// identity: `luminosity(Cb, Cb) == Cb`.
pub proof fn lemma_luminosity_idempotent(cb: (int, int, int))
    requires
        spec_in_range3(cb),
    ensures
        spec_luminosity(cb, cb) == cb,
{
    lemma_set_lum_identity(cb);
}

/// `one() * v / one() == v`: scaling by full alpha changes nothing.
proof fn lemma_mul_unit_by_one(v: int)
    requires
        0 <= v,
    ensures
        spec_mul_unit(one(), v) == v,
        spec_mul_unit(v, one()) == v,
{
    lemma_mul_is_commutative(one(), v);
    lemma_div_by_multiple(v, one());
}

/// With both pixels fully opaque, the compositing envelope reduces to the
/// plain per-channel formula at full alpha: `Multiply` of two opaque
/// pixels, say, is exactly the channel product.
pub proof fn lemma_opaque_separable<P1: AsRgba, P2: AsRgba>(mode: BlendMode, bg: P1, fg: P2)
    requires
        is_separable(mode),
        bg.spec_to_rgba().in_range(),
        fg.spec_to_rgba().in_range(),
        bg.spec_to_rgba().a == ONE,
        fg.spec_to_rgba().a == ONE,
    ensures
        ({
            let b = bg.spec_to_rgba();
            let f = fg.spec_to_rgba();
            spec_blend_formula(mode, bg, fg) == P1::spec_from_rgba(
                NormRgba::spec_new(
                    spec_per_channel(mode, b.r as int, f.r as int) as u32,
                    spec_per_channel(mode, b.g as int, f.g as int) as u32,
                    spec_per_channel(mode, b.b as int, f.b as int) as u32,
                    ONE,
                ),
            )
        }),
{
    bg.lemma_alpha_flags();
    fg.lemma_alpha_flags();
    let b = bg.spec_to_rgba();
    let f = fg.spec_to_rgba();
    lemma_mul_unit_by_one(0);
    lemma_per_channel_range(mode, b.r as int, f.r as int);
    lemma_per_channel_range(mode, b.g as int, f.g as int);
    lemma_per_channel_range(mode, b.b as int, f.b as int);
    lemma_opaque_channel(b.r as int, f.r as int, spec_per_channel(mode, b.r as int, f.r as int));
    lemma_opaque_channel(b.g as int, f.g as int, spec_per_channel(mode, b.g as int, f.g as int));
    lemma_opaque_channel(b.b as int, f.b as int, spec_per_channel(mode, b.b as int, f.b as int));
}

/// One channel of the opaque-over-opaque composite equals the blended
/// value: the interpolation, premultiplication and un-premultiplication all
/// collapse at full alpha.
proof fn lemma_opaque_channel(bc: int, fc: int, t: int)
    requires
        0 <= bc <= one(),
        0 <= fc <= one(),
        0 <= t <= one(),
    ensures
        crate::fixed::spec_div_unit(crate::blend::fns::spec_mix(fc, one(), bc, one(), t), one())
            == t,
{
    lemma_mul_unit_by_one(t);
    lemma_mul_unit_by_one(fc);
    lemma_mul_unit_by_one(bc);
    lemma_mul_unit_by_one(0);
    assert(spec_mul_unit(one() - one(), fc) == 0 * fc / one());
    assert(spec_mul_unit(0, fc) == 0) by {
        lemma_mul_unit_bounds(0, fc);
    }
    assert(spec_mul_unit(bc, 0) == 0) by {
        vstd::arithmetic::mul::lemma_mul_basics(bc as int);
    }
}

/// The clipped region always stays inside both images.
pub proof fn lemma_overlay_bounds_in_range(bw: int, bh: int, tw: int, th: int, x: int, y: int)
    requires
        0 <= bw,
        0 <= bh,
        0 <= tw,
        0 <= th,
    ensures
        ({
            let r = spec_overlay_bounds(bw, bh, tw, th, x, y);
            &&& 0 <= r.0 && 0 <= r.1 && 0 <= r.2 && 0 <= r.3 && 0 <= r.4 && 0 <= r.5
            &&& r.0 + r.4 <= bw
            &&& r.1 + r.5 <= bh
            &&& r.2 + r.4 <= tw
            &&& r.3 + r.5 <= th
        }),
{
}

/// A sweep over a region of fully transparent top pixels changes neither
/// the bottom pixels nor the draw state, in any mode.
proof fn lemma_sweep_transparent_identity<B: AsRgba, F: AsRgba>(
    bg: Seq<B>,
    bw: int,
    tp: Seq<F>,
    tw: int,
    reg: (int, int, int, int, int, int),
    mode: BlendMode,
    rng: FastUnsecurePrng,
    k: nat,
)
    requires
        forall|i: int| 0 <= i < tp.len() ==> tp[i].spec_transparent(),
        0 <= reg.0 && 0 <= reg.1 && 0 <= reg.2 && 0 <= reg.3 && 0 <= reg.4 && 0 <= reg.5,
        reg.0 + reg.4 <= bw,
        reg.2 + reg.4 <= tw,
        (reg.1 + reg.5) * bw <= bg.len(),
        (reg.3 + reg.5) * tw <= tp.len(),
        k <= reg.4 * reg.5,
    ensures
        spec_sweep(bg, bw, tp, tw, reg, mode, rng, k) == (bg, rng),
    decreases k,
{
    if k > 0 {
        lemma_sweep_transparent_identity(bg, bw, tp, tw, reg, mode, rng, (k - 1) as nat);
        let j = (k - 1) as int;
        let w = reg.4;
        let h = reg.5;
        assert(0 < w * h);
        assert(0 < w) by (nonlinear_arith)
            requires
                0 < w * h,
                0 <= w,
        ;
        assert(0 < h) by (nonlinear_arith)
            requires
                0 < w * h,
                0 <= h,
        ;
        let dy = j / w;
        let dx = j % w;
        lemma_multiply_divide_lt(j, w, h);
        lemma_mod_division_less_than_divisor(j, w);
        vstd::arithmetic::div_mod::lemma_div_pos_is_pos(j, w);
        let bi = (reg.1 + dy) * bw + reg.0 + dx;
        let ti = (reg.3 + dy) * tw + reg.2 + dx;
        lemma_index_in_strip(reg.2 + dx, reg.3 + dy, tw, reg.3 + h, tp.len() as int);
        lemma_index_in_strip(reg.0 + dx, reg.1 + dy, bw, reg.1 + h, bg.len() as int);
        assert(tp[ti].spec_transparent());
        assert(bg.update(bi, bg[bi]) =~= bg);
    }
}

/// A point of row `y < rows` in a `w`-wide row-major buffer of at least
/// `rows * w` elements lies inside the buffer.
proof fn lemma_index_in_strip(x: int, y: int, w: int, rows: int, len: int)
    requires
        0 <= x < w,
        0 <= y < rows,
        rows * w <= len,
    ensures
        0 <= y * w + x < len,
{
    lemma_row_major_index(x, y, w, rows);
    lemma_mul_is_commutative(rows, w);
}

/// Overlaying a fully transparent top image changes nothing, whatever the
/// mode and offset.
pub proof fn lemma_transparent_top_overlay_identity<B: AsRgba, F: AsRgba>(
    bottom: Image<B>,
    top: Image<F>,
    x: int,
    y: int,
    mode: BlendMode,
)
    requires
        bottom.wf(),
        top.wf(),
        forall|i: int| 0 <= i < top.spec_pix().len() ==> top.spec_pix()[i].spec_transparent(),
    ensures
        spec_overlay(bottom, top, x, y, mode) == bottom.spec_pix(),
{
    let bw = bottom.spec_width() as int;
    let bh = bottom.spec_height() as int;
    let tw = top.spec_width() as int;
    let th = top.spec_height() as int;
    lemma_overlay_bounds_in_range(bw, bh, tw, th, x, y);
    let reg = spec_overlay_bounds(bw, bh, tw, th, x, y);
    lemma_mul_inequality(reg.1 + reg.5, bh, bw);
    lemma_mul_inequality(reg.3 + reg.5, th, tw);
    lemma_mul_is_commutative(bh, bw);
    lemma_mul_is_commutative(th, tw);
    vstd::arithmetic::mul::lemma_mul_nonnegative(reg.4, reg.5);
    lemma_sweep_transparent_identity(
        bottom.spec_pix(),
        bw,
        top.spec_pix(),
        tw,
        reg,
        mode,
        FastUnsecurePrng::spec_new(top.spec_width(), top.spec_height()),
        (reg.4 * reg.5) as nat,
    );
}

/// Distinct in-row-range points of a row-major buffer have distinct
/// positions.
proof fn lemma_row_major_unique(x1: int, y1: int, x2: int, y2: int, w: int)
    requires
        0 <= x1 < w,
        0 <= x2 < w,
        x1 != x2 || y1 != y2,
    ensures
        y1 * w + x1 != y2 * w + x2,
{
    if y1 * w + x1 == y2 * w + x2 {
        let i = y1 * w + x1;
        vstd::arithmetic::div_mod::lemma_fundamental_div_mod_converse(i, w, y1, x1);
        vstd::arithmetic::div_mod::lemma_fundamental_div_mod_converse(i, w, y2, x2);
    }
}

/// A sweep never writes outside its region: any position not covered by
/// the region keeps its pixel, whatever the mode.
proof fn lemma_sweep_outside_unchanged<B: AsRgba, F: AsRgba>(
    bg: Seq<B>,
    bw: int,
    tp: Seq<F>,
    tw: int,
    reg: (int, int, int, int, int, int),
    mode: BlendMode,
    rng: FastUnsecurePrng,
    k: nat,
    px: int,
    py: int,
)
    requires
        0 <= reg.0 && 0 <= reg.1 && 0 <= reg.2 && 0 <= reg.3 && 0 <= reg.4 && 0 <= reg.5,
        reg.0 + reg.4 <= bw,
        (reg.1 + reg.5) * bw <= bg.len(),
        k <= reg.4 * reg.5,
        0 <= px < bw,
        0 <= py * bw + px < bg.len(),
        !(reg.0 <= px < reg.0 + reg.4 && reg.1 <= py < reg.1 + reg.5),
    ensures
        spec_sweep(bg, bw, tp, tw, reg, mode, rng, k).0.len() == bg.len(),
        spec_sweep(bg, bw, tp, tw, reg, mode, rng, k).0[py * bw + px] == bg[py * bw + px],
    decreases k,
{
    if k > 0 {
        lemma_sweep_outside_unchanged(bg, bw, tp, tw, reg, mode, rng, (k - 1) as nat, px, py);
        let j = (k - 1) as int;
        let w = reg.4;
        let h = reg.5;
        assert(0 < w) by (nonlinear_arith)
            requires
                0 < w * h,
                0 <= w,
        ;
        assert(0 < h) by (nonlinear_arith)
            requires
                0 < w * h,
                0 <= h,
        ;
        let dy = j / w;
        let dx = j % w;
        lemma_multiply_divide_lt(j, w, h);
        lemma_mod_division_less_than_divisor(j, w);
        vstd::arithmetic::div_mod::lemma_div_pos_is_pos(j, w);
        lemma_index_in_strip(reg.0 + dx, reg.1 + dy, bw, reg.1 + h, bg.len() as int);
        lemma_row_major_unique(reg.0 + dx, reg.1 + dy, px, py, bw);
    }
}

/// Overlaying changes no pixel outside the clipped region, whatever the
/// mode and offset.
pub proof fn lemma_overlay_outside_region_unchanged<B: AsRgba, F: AsRgba>(
    bottom: Image<B>,
    top: Image<F>,
    x: int,
    y: int,
    mode: BlendMode,
    px: int,
    py: int,
)
    requires
        bottom.wf(),
        top.wf(),
        0 <= px < bottom.spec_width(),
        0 <= py < bottom.spec_height(),
        ({
            let reg = spec_overlay_bounds(
                bottom.spec_width() as int,
                bottom.spec_height() as int,
                top.spec_width() as int,
                top.spec_height() as int,
                x,
                y,
            );
            !(reg.0 <= px < reg.0 + reg.4 && reg.1 <= py < reg.1 + reg.5)
        }),
    ensures
        spec_overlay(bottom, top, x, y, mode)[py * bottom.spec_width() + px] == bottom.spec_pix()[
            py * bottom.spec_width() + px
        ],
{
    let bw = bottom.spec_width() as int;
    let bh = bottom.spec_height() as int;
    let tw = top.spec_width() as int;
    let th = top.spec_height() as int;
    lemma_overlay_bounds_in_range(bw, bh, tw, th, x, y);
    let reg = spec_overlay_bounds(bw, bh, tw, th, x, y);
    vstd::arithmetic::mul::lemma_mul_nonnegative(reg.4, reg.5);
    lemma_mul_inequality(reg.1 + reg.5, bh, bw);
    lemma_mul_is_commutative(bh, bw);
    lemma_row_major_index(px, py, bw, bh);
    lemma_sweep_outside_unchanged(
        bottom.spec_pix(),
        bw,
        top.spec_pix(),
        tw,
        reg,
        mode,
        FastUnsecurePrng::spec_new(top.spec_width(), top.spec_height()),
        (reg.4 * reg.5) as nat,
        px,
        py,
    );
}

/// Before a region point's turn in the sweep, its pixel still holds the
/// original value.
proof fn lemma_sweep_pixel_untouched<B: AsRgba, F: AsRgba>(
    bg: Seq<B>,
    bw: int,
    tp: Seq<F>,
    tw: int,
    reg: (int, int, int, int, int, int),
    mode: BlendMode,
    rng: FastUnsecurePrng,
    k: nat,
    dx0: int,
    dy0: int,
)
    requires
        0 <= reg.0 && 0 <= reg.1 && 0 <= reg.2 && 0 <= reg.3 && 0 <= reg.4 && 0 <= reg.5,
        reg.0 + reg.4 <= bw,
        (reg.1 + reg.5) * bw <= bg.len(),
        0 <= dx0 < reg.4,
        0 <= dy0 < reg.5,
        k <= dy0 * reg.4 + dx0,
    ensures
        spec_sweep(bg, bw, tp, tw, reg, mode, rng, k).0.len() == bg.len(),
        spec_sweep(bg, bw, tp, tw, reg, mode, rng, k).0[(reg.1 + dy0) * bw + reg.0 + dx0] == bg[(
        reg.1 + dy0) * bw + reg.0 + dx0],
    decreases k,
{
    lemma_row_major_index(dx0, dy0, reg.4, reg.5);
    if k > 0 {
        lemma_sweep_pixel_untouched(bg, bw, tp, tw, reg, mode, rng, (k - 1) as nat, dx0, dy0);
        let j = (k - 1) as int;
        let w = reg.4;
        let h = reg.5;
        let dy = j / w;
        let dx = j % w;
        lemma_multiply_divide_lt(j, w, h);
        lemma_mod_division_less_than_divisor(j, w);
        vstd::arithmetic::div_mod::lemma_div_pos_is_pos(j, w);
        lemma_index_in_strip(reg.0 + dx, reg.1 + dy, bw, reg.1 + h, bg.len() as int);
        lemma_index_in_strip(reg.0 + dx0, reg.1 + dy0, bw, reg.1 + h, bg.len() as int);
        assert((dx, dy) != (dx0, dy0)) by {
            if dx == dx0 && dy == dy0 {
                assert(j == dy0 * w + dx0) by {
                    vstd::arithmetic::div_mod::lemma_fundamental_div_mod(j, w);
                    lemma_mul_is_commutative(w, dy);
                }
            }
        }
        lemma_row_major_unique(reg.0 + dx, reg.1 + dy, reg.0 + dx0, reg.1 + dy0, bw);
    }
}

/// From its turn on, a region point's pixel holds the composite of its
/// original value with the matching top pixel (each point is visited
/// exactly once), in any non-dissolve mode.
proof fn lemma_sweep_pixel_value<B: AsRgba, F: AsRgba>(
    bg: Seq<B>,
    bw: int,
    tp: Seq<F>,
    tw: int,
    reg: (int, int, int, int, int, int),
    mode: BlendMode,
    rng: FastUnsecurePrng,
    k: nat,
    dx0: int,
    dy0: int,
)
    requires
        mode != BlendMode::Dissolve,
        0 <= reg.0 && 0 <= reg.1 && 0 <= reg.2 && 0 <= reg.3 && 0 <= reg.4 && 0 <= reg.5,
        reg.0 + reg.4 <= bw,
        (reg.1 + reg.5) * bw <= bg.len(),
        0 <= dx0 < reg.4,
        0 <= dy0 < reg.5,
        dy0 * reg.4 + dx0 < k <= reg.4 * reg.5,
    ensures
        spec_sweep(bg, bw, tp, tw, reg, mode, rng, k).0.len() == bg.len(),
        spec_sweep(bg, bw, tp, tw, reg, mode, rng, k).0[(reg.1 + dy0) * bw + reg.0 + dx0]
            == spec_blend_pixel(
            mode,
            bg[(reg.1 + dy0) * bw + reg.0 + dx0],
            tp[(reg.3 + dy0) * tw + reg.2 + dx0],
        ),
    decreases k,
{
    let j = (k - 1) as int;
    let w = reg.4;
    let h = reg.5;
    let k0 = dy0 * w + dx0;
    lemma_row_major_index(dx0, dy0, w, h);
    let dy = j / w;
    let dx = j % w;
    lemma_multiply_divide_lt(j, w, h);
    lemma_mod_division_less_than_divisor(j, w);
    vstd::arithmetic::div_mod::lemma_div_pos_is_pos(j, w);
    lemma_index_in_strip(reg.0 + dx, reg.1 + dy, bw, reg.1 + h, bg.len() as int);
    lemma_index_in_strip(reg.0 + dx0, reg.1 + dy0, bw, reg.1 + h, bg.len() as int);
    if k == k0 + 1 {
        lemma_sweep_pixel_untouched(bg, bw, tp, tw, reg, mode, rng, k0 as nat, dx0, dy0);
        vstd::arithmetic::div_mod::lemma_fundamental_div_mod_converse(k0, w, dy0, dx0);
    } else {
        lemma_sweep_pixel_value(bg, bw, tp, tw, reg, mode, rng, (k - 1) as nat, dx0, dy0);
        assert((dx, dy) != (dx0, dy0)) by {
            if dx == dx0 && dy == dy0 {
                assert(j == k0) by {
                    vstd::arithmetic::div_mod::lemma_fundamental_div_mod(j, w);
                    lemma_mul_is_commutative(w, dy);
                }
            }
        }
        lemma_row_major_unique(reg.0 + dx, reg.1 + dy, reg.0 + dx0, reg.1 + dy0, bw);
    }
}

/// In any non-dissolve mode, overlaying sets each point of the clipped
/// region to the composite of its own old pixel with the matching top
/// pixel — every pair is read and composited exactly once.
pub proof fn lemma_overlay_region_pixel<B: AsRgba, F: AsRgba>(
    bottom: Image<B>,
    top: Image<F>,
    x: int,
    y: int,
    mode: BlendMode,
    dx: int,
    dy: int,
)
    requires
        bottom.wf(),
        top.wf(),
        mode != BlendMode::Dissolve,
        ({
            let reg = spec_overlay_bounds(
                bottom.spec_width() as int,
                bottom.spec_height() as int,
                top.spec_width() as int,
                top.spec_height() as int,
                x,
                y,
            );
            0 <= dx < reg.4 && 0 <= dy < reg.5
        }),
    ensures
        ({
            let reg = spec_overlay_bounds(
                bottom.spec_width() as int,
                bottom.spec_height() as int,
                top.spec_width() as int,
                top.spec_height() as int,
                x,
                y,
            );
            let bi = (reg.1 + dy) * bottom.spec_width() + reg.0 + dx;
            let ti = (reg.3 + dy) * top.spec_width() + reg.2 + dx;
            spec_overlay(bottom, top, x, y, mode)[bi] == spec_blend_pixel(
                mode,
                bottom.spec_pix()[bi],
                top.spec_pix()[ti],
            )
        }),
{
    let bw = bottom.spec_width() as int;
    let bh = bottom.spec_height() as int;
    let tw = top.spec_width() as int;
    let th = top.spec_height() as int;
    lemma_overlay_bounds_in_range(bw, bh, tw, th, x, y);
    let reg = spec_overlay_bounds(bw, bh, tw, th, x, y);
    lemma_mul_inequality(reg.1 + reg.5, bh, bw);
    lemma_mul_is_commutative(bh, bw);
    assert(dy * reg.4 + dx < reg.4 * reg.5) by {
        lemma_row_major_index(dx, dy, reg.4, reg.5);
        lemma_mul_is_commutative(reg.4, reg.5);
    }
    lemma_sweep_pixel_value(
        bottom.spec_pix(),
        bw,
        top.spec_pix(),
        tw,
        reg,
        mode,
        FastUnsecurePrng::spec_new(top.spec_width(), top.spec_height()),
        (reg.4 * reg.5) as nat,
        dx,
        dy,
    );
}

/// From its turn on, a region point's pixel under `Dissolve` holds the
/// dissolve composite of its original value with the matching top pixel,
/// under the draw state the sweep had reached.
proof fn lemma_sweep_pixel_dissolve<B: AsRgba, F: AsRgba>(
    bg: Seq<B>,
    bw: int,
    tp: Seq<F>,
    tw: int,
    reg: (int, int, int, int, int, int),
    rng: FastUnsecurePrng,
    k: nat,
    dx0: int,
    dy0: int,
)
    requires
        0 <= reg.0 && 0 <= reg.1 && 0 <= reg.2 && 0 <= reg.3 && 0 <= reg.4 && 0 <= reg.5,
        reg.0 + reg.4 <= bw,
        (reg.1 + reg.5) * bw <= bg.len(),
        0 <= dx0 < reg.4,
        0 <= dy0 < reg.5,
        dy0 * reg.4 + dx0 < k <= reg.4 * reg.5,
    ensures
        spec_sweep(bg, bw, tp, tw, reg, BlendMode::Dissolve, rng, k).0.len() == bg.len(),
        exists|r: FastUnsecurePrng|
            spec_sweep(bg, bw, tp, tw, reg, BlendMode::Dissolve, rng, k).0[(reg.1 + dy0) * bw
                + reg.0 + dx0] == #[trigger] spec_blend_dissolve(
                bg[(reg.1 + dy0) * bw + reg.0 + dx0],
                tp[(reg.3 + dy0) * tw + reg.2 + dx0],
                r,
            ).0,
    decreases k,
{
    let mode = BlendMode::Dissolve;
    let j = (k - 1) as int;
    let w = reg.4;
    let h = reg.5;
    let k0 = dy0 * w + dx0;
    lemma_row_major_index(dx0, dy0, w, h);
    let dy = j / w;
    let dx = j % w;
    lemma_multiply_divide_lt(j, w, h);
    lemma_mod_division_less_than_divisor(j, w);
    vstd::arithmetic::div_mod::lemma_div_pos_is_pos(j, w);
    lemma_index_in_strip(reg.0 + dx, reg.1 + dy, bw, reg.1 + h, bg.len() as int);
    lemma_index_in_strip(reg.0 + dx0, reg.1 + dy0, bw, reg.1 + h, bg.len() as int);
    if k == k0 + 1 {
        lemma_sweep_pixel_untouched(bg, bw, tp, tw, reg, mode, rng, k0 as nat, dx0, dy0);
        vstd::arithmetic::div_mod::lemma_fundamental_div_mod_converse(k0, w, dy0, dx0);
        let prev = spec_sweep(bg, bw, tp, tw, reg, mode, rng, k0 as nat);
        assert(spec_sweep(bg, bw, tp, tw, reg, mode, rng, k).0[(reg.1 + dy0) * bw + reg.0 + dx0]
            == spec_blend_dissolve(
            bg[(reg.1 + dy0) * bw + reg.0 + dx0],
            tp[(reg.3 + dy0) * tw + reg.2 + dx0],
            prev.1,
        ).0);
    } else {
        lemma_sweep_pixel_dissolve(bg, bw, tp, tw, reg, rng, (k - 1) as nat, dx0, dy0);
        assert((dx, dy) != (dx0, dy0)) by {
            if dx == dx0 && dy == dy0 {
                assert(j == k0) by {
                    vstd::arithmetic::div_mod::lemma_fundamental_div_mod(j, w);
                    lemma_mul_is_commutative(w, dy);
                }
            }
        }
        lemma_row_major_unique(reg.0 + dx, reg.1 + dy, reg.0 + dx0, reg.1 + dy0, bw);
        let r0 = choose|r: FastUnsecurePrng|
            spec_sweep(bg, bw, tp, tw, reg, mode, rng, (k - 1) as nat).0[(reg.1 + dy0) * bw + reg.0
                + dx0] == #[trigger] spec_blend_dissolve(
                bg[(reg.1 + dy0) * bw + reg.0 + dx0],
                tp[(reg.3 + dy0) * tw + reg.2 + dx0],
                r,
            ).0;
        assert(spec_sweep(bg, bw, tp, tw, reg, mode, rng, k).0[(reg.1 + dy0) * bw + reg.0 + dx0]
            == spec_blend_dissolve(
            bg[(reg.1 + dy0) * bw + reg.0 + dx0],
            tp[(reg.3 + dy0) * tw + reg.2 + dx0],
            r0,
        ).0);
    }
}

/// Dissolve is all-or-nothing per pixel: each point of the clipped region
/// ends as the dissolve composite of its own old pixel with the matching
/// top pixel under some draw — the untouched background, the copied
/// foreground, or the foreground color at full opacity.
pub proof fn lemma_overlay_region_pixel_dissolve<B: AsRgba, F: AsRgba>(
    bottom: Image<B>,
    top: Image<F>,
    x: int,
    y: int,
    dx: int,
    dy: int,
)
    requires
        bottom.wf(),
        top.wf(),
        ({
            let reg = spec_overlay_bounds(
                bottom.spec_width() as int,
                bottom.spec_height() as int,
                top.spec_width() as int,
                top.spec_height() as int,
                x,
                y,
            );
            0 <= dx < reg.4 && 0 <= dy < reg.5
        }),
    ensures
        ({
            let reg = spec_overlay_bounds(
                bottom.spec_width() as int,
                bottom.spec_height() as int,
                top.spec_width() as int,
                top.spec_height() as int,
                x,
                y,
            );
            let bi = (reg.1 + dy) * bottom.spec_width() + reg.0 + dx;
            let ti = (reg.3 + dy) * top.spec_width() + reg.2 + dx;
            exists|r: FastUnsecurePrng|
                spec_overlay(bottom, top, x, y, BlendMode::Dissolve)[bi]
                    == #[trigger] spec_blend_dissolve(
                    bottom.spec_pix()[bi],
                    top.spec_pix()[ti],
                    r,
                ).0
        }),
{
    let bw = bottom.spec_width() as int;
    let bh = bottom.spec_height() as int;
    let tw = top.spec_width() as int;
    let th = top.spec_height() as int;
    lemma_overlay_bounds_in_range(bw, bh, tw, th, x, y);
    let reg = spec_overlay_bounds(bw, bh, tw, th, x, y);
    lemma_mul_inequality(reg.1 + reg.5, bh, bw);
    lemma_mul_is_commutative(bh, bw);
    assert(dy * reg.4 + dx < reg.4 * reg.5) by {
        lemma_row_major_index(dx, dy, reg.4, reg.5);
        lemma_mul_is_commutative(reg.4, reg.5);
    }
    lemma_sweep_pixel_dissolve(
        bottom.spec_pix(),
        bw,
        top.spec_pix(),
        tw,
        reg,
        FastUnsecurePrng::spec_new(top.spec_width(), top.spec_height()),
        (reg.4 * reg.5) as nat,
        dx,
        dy,
    );
}

/// Overlaying is deterministic: two calls on equal inputs produce equal
/// output, the dissolve draws included — the draw state is seeded from the
/// top image's dimensions alone.
pub proof fn lemma_overlay_deterministic<B: AsRgba, F: AsRgba>(
    b1: Image<B>,
    b2: Image<B>,
    t1: Image<F>,
    t2: Image<F>,
    x: int,
    y: int,
    mode: BlendMode,
)
    requires
        b1.spec_width() == b2.spec_width(),
        b1.spec_height() == b2.spec_height(),
        b1.spec_pix() == b2.spec_pix(),
        t1.spec_width() == t2.spec_width(),
        t1.spec_height() == t2.spec_height(),
        t1.spec_pix() == t2.spec_pix(),
    ensures
        spec_overlay(b1, t1, x, y, mode) == spec_overlay(b2, t2, x, y, mode),
{
}

} // verus!
