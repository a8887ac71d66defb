//! The 6 composite-color (non-separable) blend formulas.
//!
//! These operate on whole `(r, g, b)` triples of unit-scale channels,
//! extracting luminance and saturation and re-clipping the result into the
//! unit range. `lum(c) = 0.3 r + 0.59 g + 0.11 b` on the unit scale, with
//! truncating division.

use vstd::prelude::*;
use vstd::arithmetic::mul::*;
use vstd::arithmetic::div_mod::*;
use crate::fixed::{ONE, one};

verus! {

/// All three channels lie on the unit scale.
pub open spec fn spec_in_range3(c: (int, int, int)) -> bool {
    &&& 0 <= c.0 <= one()
    &&& 0 <= c.1 <= one()
    &&& 0 <= c.2 <= one()
}

/// `0.3 r + 0.59 g + 0.11 b`, truncating.
pub open spec fn spec_lum(c: (int, int, int)) -> int {
    (30 * c.0 + 59 * c.1 + 11 * c.2) / 100
}

pub open spec fn spec_min3(c: (int, int, int)) -> int {
    if c.0 <= c.1 && c.0 <= c.2 {
        c.0
    } else if c.1 <= c.2 {
        c.1
    } else {
        c.2
    }
}

pub open spec fn spec_max3(c: (int, int, int)) -> int {
    if c.0 >= c.1 && c.0 >= c.2 {
        c.0
    } else if c.1 >= c.2 {
        c.1
    } else {
        c.2
    }
}

/// `max(c) - min(c)`.
pub open spec fn spec_sat(c: (int, int, int)) -> int {
    spec_max3(c) - spec_min3(c)
}

/// Move `ci` toward the luminance `l`, scaling its distance by `num / den`
/// (truncating; the numerator of the scaled distance is kept nonnegative).
pub open spec fn spec_scale_toward(l: int, ci: int, num: int, den: int) -> int {
    if ci >= l {
        l + (ci - l) * num / den
    } else {
        l - (l - ci) * num / den
    }
}

/// Rescale all channels toward the luminance so that a negative minimum
/// becomes 0, or a maximum above 1 becomes 1; in range, the identity.
pub open spec fn spec_clip_color(c: (int, int, int), l: int) -> (int, int, int) {
    let mn = spec_min3(c);
    let mx = spec_max3(c);
    if mn < 0 {
        (
            spec_scale_toward(l, c.0, l, l - mn),
            spec_scale_toward(l, c.1, l, l - mn),
            spec_scale_toward(l, c.2, l, l - mn),
        )
    } else if mx > one() {
        (
            spec_scale_toward(l, c.0, one() - l, mx - l),
            spec_scale_toward(l, c.1, one() - l, mx - l),
            spec_scale_toward(l, c.2, one() - l, mx - l),
        )
    } else {
        c
    }
}

/// Shift every channel so the luminance becomes `l`, then clip.
pub open spec fn spec_set_lum(c: (int, int, int), l: int) -> (int, int, int) {
    let d = l - spec_lum(c);
    spec_clip_color((c.0 + d, c.1 + d, c.2 + d), l)
}

/// The common kernel of `set_sat` on sorted channels `mn <= mid <= mx`:
/// returns the new `(min, mid, max)` values for target saturation `s`.
pub open spec fn spec_sat3(mn: int, mid: int, mx: int, s: int) -> (int, int, int) {
    if mx > mn {
        (0, (mid - mn) * s / (mx - mn), s)
    } else {
        (0, 0, 0)
    }
}

/// Set the saturation of `c` to `s`, keeping each channel's rank.
/// The branch order ties equal channels exactly as the blending rules do.
pub open spec fn spec_set_sat(c: (int, int, int), s: int) -> (int, int, int) {
    if c.0 <= c.1 && c.1 <= c.2 {
        let t = spec_sat3(c.0, c.1, c.2, s);
        (t.0, t.1, t.2)
    } else if c.0 <= c.2 && c.2 <= c.1 {
        let t = spec_sat3(c.0, c.2, c.1, s);
        (t.0, t.2, t.1)
    } else if c.1 <= c.0 && c.0 <= c.2 {
        let t = spec_sat3(c.1, c.0, c.2, s);
        (t.1, t.0, t.2)
    } else if c.1 <= c.2 && c.2 <= c.0 {
        let t = spec_sat3(c.1, c.2, c.0, s);
        (t.2, t.0, t.1)
    } else if c.2 <= c.0 && c.0 <= c.1 {
        let t = spec_sat3(c.2, c.0, c.1, s);
        (t.1, t.2, t.0)
    } else {
        let t = spec_sat3(c.2, c.1, c.0, s);
        (t.2, t.1, t.0)
    }
}

pub open spec fn spec_hue(cb: (int, int, int), cs: (int, int, int)) -> (int, int, int) {
    spec_set_lum(spec_set_sat(cs, spec_sat(cb)), spec_lum(cb))
}

pub open spec fn spec_saturation(cb: (int, int, int), cs: (int, int, int)) -> (int, int, int) {
    spec_set_lum(spec_set_sat(cb, spec_sat(cs)), spec_lum(cb))
}

pub open spec fn spec_color(cb: (int, int, int), cs: (int, int, int)) -> (int, int, int) {
    spec_set_lum(cs, spec_lum(cb))
}

pub open spec fn spec_luminosity(cb: (int, int, int), cs: (int, int, int)) -> (int, int, int) {
    spec_set_lum(cb, spec_lum(cs))
}

pub open spec fn spec_darker_color(cb: (int, int, int), cs: (int, int, int)) -> (int, int, int) {
    if spec_lum(cs) < spec_lum(cb) {
        cs
    } else {
        cb
    }
}

pub open spec fn spec_lighter_color(cb: (int, int, int), cs: (int, int, int)) -> (int, int, int) {
    if spec_lum(cb) < spec_lum(cs) {
        cs
    } else {
        cb
    }
}

/// A triple of ints as spec-level view of a `u32` triple.
pub open spec fn view3(c: (u32, u32, u32)) -> (int, int, int) {
    (c.0 as int, c.1 as int, c.2 as int)
}

/// The luminance of an in-range triple is in range.
pub proof fn lemma_lum_range(c: (int, int, int))
    requires
        spec_in_range3(c),
    ensures
        0 <= spec_lum(c) <= one(),
{
    lemma_div_pos_is_pos(30 * c.0 + 59 * c.1 + 11 * c.2, 100);
    lemma_div_is_ordered(30 * c.0 + 59 * c.1 + 11 * c.2, 100 * one(), 100);
    lemma_div_by_multiple(one(), 100);
}

/// Shifting every channel by `d` shifts the truncating luminance by `d`.
pub proof fn lemma_lum_shift(c: (int, int, int), d: int)
    ensures
        spec_lum((c.0 + d, c.1 + d, c.2 + d)) == spec_lum(c) + d,
{
    let s = 30 * c.0 + 59 * c.1 + 11 * c.2;
    lemma_fundamental_div_mod(s, 100);
    let q = s / 100;
    let r = s % 100;
    lemma_mod_division_less_than_divisor(s, 100);
    assert(30 * (c.0 + d) + 59 * (c.1 + d) + 11 * (c.2 + d) == 100 * (q + d) + r);
    lemma_div_multiples_vanish_fancy(q + d, r, 100);
}

fn lum(c: (u32, u32, u32)) -> (l: u32)
    requires
        spec_in_range3(view3(c)),
    ensures
        l == spec_lum(view3(c)),
        l <= ONE,
{
    proof {
        lemma_lum_range(view3(c));
    }
    (30 * c.0 + 59 * c.1 + 11 * c.2) / 100
}

/// One channel of the clipping rescale, `l +/- |ci - l| * num / den`.
fn scale_channel(l: u32, ci: i64, num: u32, den: i64) -> (r: u32)
    requires
        l <= ONE,
        num <= ONE,
        1 <= den,
        -3 * (ONE as int) <= ci <= 3 * (ONE as int),
        ci >= l ==> (ci - l) * num <= den * (one() - l),
        ci < l ==> (l - ci) * num <= den * l,
    ensures
        r == spec_scale_toward(l as int, ci as int, num as int, den as int),
        r <= ONE,
{
    if ci >= l as i64 {
        proof {
            lemma_mul_upper_bound((ci - l) as int, 3 * one(), num as int, one());
        }
        let q: u64 = ((ci - l as i64) as u64) * (num as u64) / (den as u64);
        proof {
            lemma_mul_nonnegative((ci - l) as int, num as int);
            lemma_div_pos_is_pos((ci - l) * num, den as int);
            lemma_multiply_divide_le((ci - l) * num, den as int, one() - l);
        }
        l + (q as u32)
    } else {
        proof {
            lemma_mul_upper_bound((l - ci) as int, 4 * one(), num as int, one());
        }
        let q: u64 = ((l as i64 - ci) as u64) * (num as u64) / (den as u64);
        proof {
            lemma_mul_nonnegative((l - ci) as int, num as int);
            lemma_div_pos_is_pos((l - ci) * num, den as int);
            lemma_multiply_divide_le((l - ci) * num, den as int, l as int);
        }
        l - (q as u32)
    }
}

/// Clip an out-of-range color back into the unit range by rescaling toward
/// its luminance `l` (which the caller supplies and guarantees).
fn clip_color(c: (i64, i64, i64), l: u32) -> (r: (u32, u32, u32))
    requires
        l <= ONE,
        -(ONE as int) <= c.0 <= 2 * (ONE as int),
        -(ONE as int) <= c.1 <= 2 * (ONE as int),
        -(ONE as int) <= c.2 <= 2 * (ONE as int),
        l == spec_lum((c.0 as int, c.1 as int, c.2 as int)),
        spec_min3((c.0 as int, c.1 as int, c.2 as int)) < 0 ==> spec_max3(
            (c.0 as int, c.1 as int, c.2 as int),
        ) <= one(),
        spec_max3((c.0 as int, c.1 as int, c.2 as int)) > one() ==> spec_min3(
            (c.0 as int, c.1 as int, c.2 as int),
        ) >= 0,
    ensures
        view3(r) == spec_clip_color((c.0 as int, c.1 as int, c.2 as int), l as int),
        spec_in_range3(view3(r)),
{
    let ghost cg = (c.0 as int, c.1 as int, c.2 as int);
    let mn: i64 = if c.0 <= c.1 && c.0 <= c.2 {
        c.0
    } else if c.1 <= c.2 {
        c.1
    } else {
        c.2
    };
    let mx: i64 = if c.0 >= c.1 && c.0 >= c.2 {
        c.0
    } else if c.1 >= c.2 {
        c.1
    } else {
        c.2
    };
    proof {
        assert(mn == spec_min3(cg));
        assert(mx == spec_max3(cg));
    }
    if mn < 0 {
        let den: i64 = l as i64 - mn;
        proof {
            lemma_scale_bounds_low(c.0 as int, l as int, den as int, mn as int, mx as int);
            lemma_scale_bounds_low(c.1 as int, l as int, den as int, mn as int, mx as int);
            lemma_scale_bounds_low(c.2 as int, l as int, den as int, mn as int, mx as int);
        }
        (
            scale_channel(l, c.0, l, den),
            scale_channel(l, c.1, l, den),
            scale_channel(l, c.2, l, den),
        )
    } else if mx > ONE as i64 {
        let den: i64 = mx - l as i64;
        proof {
            lemma_scale_bounds_high(c.0 as int, l as int, den as int, mn as int, mx as int);
            lemma_scale_bounds_high(c.1 as int, l as int, den as int, mn as int, mx as int);
            lemma_scale_bounds_high(c.2 as int, l as int, den as int, mn as int, mx as int);
        }
        (
            scale_channel(l, c.0, ONE - l, den),
            scale_channel(l, c.1, ONE - l, den),
            scale_channel(l, c.2, ONE - l, den),
        )
    } else {
        (c.0 as u32, c.1 as u32, c.2 as u32)
    }
}

/// The product bounds that `scale_channel` needs in the low (negative
/// minimum) clipping branch, for one channel `ci`.
proof fn lemma_scale_bounds_low(ci: int, l: int, den: int, mn: int, mx: int)
    requires
        mn <= ci <= mx,
        mn < 0,
        mx <= one(),
        0 <= l <= one(),
        den == l - mn,
    ensures
        ci >= l ==> (ci - l) * l <= den * (one() - l),
        ci < l ==> (l - ci) * l <= den * l,
{
    if ci >= l {
        lemma_mul_inequality(ci - l, one() - l, l);
        lemma_mul_inequality(l, den, one() - l);
        lemma_mul_is_commutative(one() - l, l);
        lemma_mul_is_commutative(den, one() - l);
    } else {
        lemma_mul_inequality(l - ci, den, l);
        lemma_mul_is_commutative(den, l);
    }
}

/// The product bounds that `scale_channel` needs in the high (maximum above
/// one) clipping branch, for one channel `ci`.
proof fn lemma_scale_bounds_high(ci: int, l: int, den: int, mn: int, mx: int)
    requires
        mn <= ci <= mx,
        mx > one(),
        mn >= 0,
        0 <= l <= one(),
        den == mx - l,
    ensures
        ci >= l ==> (ci - l) * (one() - l) <= den * (one() - l),
        ci < l ==> (l - ci) * (one() - l) <= den * l,
{
    if ci >= l {
        lemma_mul_inequality(ci - l, den, one() - l);
    } else {
        lemma_mul_inequality(l - ci, l, one() - l);
        lemma_mul_inequality(one() - l, den, l);
        lemma_mul_is_commutative(l, one() - l);
        lemma_mul_is_commutative(den, l);
    }
}

/// Shift `c` so its luminance becomes `l`, then clip back into range.
fn set_lum(c: (u32, u32, u32), l: u32) -> (r: (u32, u32, u32))
    requires
        spec_in_range3(view3(c)),
        l <= ONE,
    ensures
        view3(r) == spec_set_lum(view3(c), l as int),
        spec_in_range3(view3(r)),
{
    let lc = lum(c);
    let d: i64 = l as i64 - lc as i64;
    let s = (c.0 as i64 + d, c.1 as i64 + d, c.2 as i64 + d);
    proof {
        lemma_lum_shift(view3(c), d as int);
        lemma_lum_range(view3(c));
        assert(spec_min3((s.0 as int, s.1 as int, s.2 as int)) == spec_min3(view3(c)) + d);
        assert(spec_max3((s.0 as int, s.1 as int, s.2 as int)) == spec_max3(view3(c)) + d);
    }
    clip_color(s, l)
}

fn sat(c: (u32, u32, u32)) -> (s: u32)
    requires
        spec_in_range3(view3(c)),
    ensures
        s == spec_sat(view3(c)),
        s <= ONE,
{
    let mn: u32 = if c.0 <= c.1 && c.0 <= c.2 {
        c.0
    } else if c.1 <= c.2 {
        c.1
    } else {
        c.2
    };
    let mx: u32 = if c.0 >= c.1 && c.0 >= c.2 {
        c.0
    } else if c.1 >= c.2 {
        c.1
    } else {
        c.2
    };
    mx - mn
}

/// The kernel of `set_sat` on sorted channel values.
fn sat3(mn: u32, mid: u32, mx: u32, s: u32) -> (r: (u32, u32, u32))
    requires
        mn <= mid <= mx,
        mx <= ONE,
        s <= ONE,
    ensures
        view3(r) == spec_sat3(mn as int, mid as int, mx as int, s as int),
        r.0 == 0,
        r.1 <= s,
        r.2 <= s,
{
    if mx > mn {
        proof {
            lemma_mul_upper_bound((mid - mn) as int, one(), s as int, one());
        }
        let q: u64 = ((mid - mn) as u64) * (s as u64) / ((mx - mn) as u64);
        proof {
            lemma_mul_nonnegative((mid - mn) as int, s as int);
            lemma_mul_inequality((mid - mn) as int, (mx - mn) as int, s as int);
            lemma_mul_is_commutative((mx - mn) as int, s as int);
            lemma_multiply_divide_le((mid - mn) * s, (mx - mn) as int, s as int);
            lemma_div_pos_is_pos((mid - mn) * s, (mx - mn) as int);
        }
        (0, q as u32, s)
    } else {
        (0, 0, 0)
    }
}

/// Set the saturation of `c` to `s`: the minimum channel becomes 0, the
/// maximum `s`, the middle keeps its relative position.
fn set_sat(c: (u32, u32, u32), s: u32) -> (r: (u32, u32, u32))
    requires
        spec_in_range3(view3(c)),
        s <= ONE,
    ensures
        view3(r) == spec_set_sat(view3(c), s as int),
        spec_in_range3(view3(r)),
{
    if c.0 <= c.1 && c.1 <= c.2 {
        let t = sat3(c.0, c.1, c.2, s);
        (t.0, t.1, t.2)
    } else if c.0 <= c.2 && c.2 <= c.1 {
        let t = sat3(c.0, c.2, c.1, s);
        (t.0, t.2, t.1)
    } else if c.1 <= c.0 && c.0 <= c.2 {
        let t = sat3(c.1, c.0, c.2, s);
        (t.1, t.0, t.2)
    } else if c.1 <= c.2 && c.2 <= c.0 {
        let t = sat3(c.1, c.2, c.0, s);
        (t.2, t.0, t.1)
    } else if c.2 <= c.0 && c.0 <= c.1 {
        let t = sat3(c.2, c.0, c.1, s);
        (t.1, t.2, t.0)
    } else {
        let t = sat3(c.2, c.1, c.0, s);
        (t.2, t.1, t.0)
    }
}

/// `set_lum(set_sat(Cs, sat(Cb)), lum(Cb))`.
pub fn hue(cb: (u32, u32, u32), cs: (u32, u32, u32)) -> (r: (u32, u32, u32))
    requires
        spec_in_range3(view3(cb)),
        spec_in_range3(view3(cs)),
    ensures
        view3(r) == spec_hue(view3(cb), view3(cs)),
        spec_in_range3(view3(r)),
{
    proof {
        lemma_lum_range(view3(cb));
    }
    set_lum(set_sat(cs, sat(cb)), lum(cb))
}

/// `set_lum(set_sat(Cb, sat(Cs)), lum(Cb))`.
pub fn saturation(cb: (u32, u32, u32), cs: (u32, u32, u32)) -> (r: (u32, u32, u32))
    requires
        spec_in_range3(view3(cb)),
        spec_in_range3(view3(cs)),
    ensures
        view3(r) == spec_saturation(view3(cb), view3(cs)),
        spec_in_range3(view3(r)),
{
    proof {
        lemma_lum_range(view3(cb));
    }
    set_lum(set_sat(cb, sat(cs)), lum(cb))
}

/// `set_lum(Cs, lum(Cb))`.
pub fn color(cb: (u32, u32, u32), cs: (u32, u32, u32)) -> (r: (u32, u32, u32))
    requires
        spec_in_range3(view3(cb)),
        spec_in_range3(view3(cs)),
    ensures
        view3(r) == spec_color(view3(cb), view3(cs)),
        spec_in_range3(view3(r)),
{
    proof {
        lemma_lum_range(view3(cb));
    }
    set_lum(cs, lum(cb))
}

/// `set_lum(Cb, lum(Cs))`.
pub fn luminosity(cb: (u32, u32, u32), cs: (u32, u32, u32)) -> (r: (u32, u32, u32))
    requires
        spec_in_range3(view3(cb)),
        spec_in_range3(view3(cs)),
    ensures
        view3(r) == spec_luminosity(view3(cb), view3(cs)),
        spec_in_range3(view3(r)),
{
    proof {
        lemma_lum_range(view3(cs));
    }
    set_lum(cb, lum(cs))
}

/// The triple with the smaller luminance.
pub fn darker_color(cb: (u32, u32, u32), cs: (u32, u32, u32)) -> (r: (u32, u32, u32))
    requires
        spec_in_range3(view3(cb)),
        spec_in_range3(view3(cs)),
    ensures
        view3(r) == spec_darker_color(view3(cb), view3(cs)),
        spec_in_range3(view3(r)),
{
    if lum(cs) < lum(cb) {
        cs
    } else {
        cb
    }
}

/// The triple with the larger luminance.
pub fn lighter_color(cb: (u32, u32, u32), cs: (u32, u32, u32)) -> (r: (u32, u32, u32))
    requires
        spec_in_range3(view3(cb)),
        spec_in_range3(view3(cs)),
    ensures
        view3(r) == spec_lighter_color(view3(cb), view3(cs)),
        spec_in_range3(view3(r)),
{
    if lum(cb) < lum(cs) {
        cs
    } else {
        cb
    }
}

} // verus!
