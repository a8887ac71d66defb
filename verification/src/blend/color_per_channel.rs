//! The 19 separable (per-channel) blend formulas.
//!
//! Every function maps two unit-scale channel values (`base` is the
//! background channel `Cb`, `blend` the foreground channel `Cs`) to a
//! unit-scale result, with an exact contract: the result equals the spec
//! formula and stays in `[0, ONE]` (range closure). Division-by-zero-prone
//! formulas short-circuit by explicit case analysis, never by overflow.

use vstd::prelude::*;
use vstd::arithmetic::mul::*;
use vstd::arithmetic::div_mod::*;
use crate::fixed::{
    ONE, one, spec_mul_unit, spec_div_unit, spec_cap, spec_isqrt, is_isqrt, lemma_mul_unit_bounds,
    lemma_isqrt_exists, mul_unit, div_unit_capped, burn_unit, isqrt64,
};

verus! {

pub open spec fn spec_darken(cb: int, cs: int) -> int {
    if cb <= cs {
        cb
    } else {
        cs
    }
}

/// `min(Cb, Cs)`.
pub fn darken(base: u32, blend: u32) -> (r: u32)
    requires
        base <= ONE,
        blend <= ONE,
    ensures
        r == spec_darken(base as int, blend as int),
        r <= ONE,
{
    if base <= blend {
        base
    } else {
        blend
    }
}

pub open spec fn spec_multiply(cb: int, cs: int) -> int {
    spec_mul_unit(cb, cs)
}

/// `Cb * Cs`.
pub fn multiply(base: u32, blend: u32) -> (r: u32)
    requires
        base <= ONE,
        blend <= ONE,
    ensures
        r == spec_multiply(base as int, blend as int),
        r <= ONE,
{
    mul_unit(base, blend)
}

pub open spec fn spec_color_burn(cb: int, cs: int) -> int {
    if cb == one() {
        one()
    } else if cs == 0 {
        0
    } else {
        spec_cap(one() - spec_div_unit(one() - cb, cs))
    }
}

/// `Cb == 1 -> 1`; `Cs == 0 -> 0`; else `max(0, 1 - (1 - Cb) / Cs)`.
pub fn color_burn(base: u32, blend: u32) -> (r: u32)
    requires
        base <= ONE,
        blend <= ONE,
    ensures
        r == spec_color_burn(base as int, blend as int),
        r <= ONE,
{
    if base == ONE {
        ONE
    } else if blend == 0 {
        0
    } else {
        burn_unit(ONE - base, blend)
    }
}

pub open spec fn spec_linear_burn(cb: int, cs: int) -> int {
    spec_cap(cb + cs - one())
}

/// `max(0, Cb + Cs - 1)`.
pub fn linear_burn(base: u32, blend: u32) -> (r: u32)
    requires
        base <= ONE,
        blend <= ONE,
    ensures
        r == spec_linear_burn(base as int, blend as int),
        r <= ONE,
{
    if base + blend >= ONE {
        base + blend - ONE
    } else {
        0
    }
}

pub open spec fn spec_lighten(cb: int, cs: int) -> int {
    if cb <= cs {
        cs
    } else {
        cb
    }
}

/// `max(Cb, Cs)`.
pub fn lighten(base: u32, blend: u32) -> (r: u32)
    requires
        base <= ONE,
        blend <= ONE,
    ensures
        r == spec_lighten(base as int, blend as int),
        r <= ONE,
{
    if base <= blend {
        blend
    } else {
        base
    }
}

pub open spec fn spec_screen(cb: int, cs: int) -> int {
    cb + cs - spec_mul_unit(cb, cs)
}

/// The screen result stays within the unit range.
pub proof fn lemma_screen_range(cb: int, cs: int)
    requires
        0 <= cb <= one(),
        0 <= cs <= one(),
    ensures
        0 <= spec_screen(cb, cs) <= one(),
{
    lemma_mul_unit_bounds(cb, cs);
    if cb + cs > one() {
        // Cb + Cs - 1 <= Cb * Cs, since (1 - Cb) * (1 - Cs) >= 0.
        assert(one() * (cb + cs - one()) <= cb * cs) by (nonlinear_arith)
            requires
                0 <= cb <= one(),
                0 <= cs <= one(),
        ;
        lemma_div_by_multiple(cb + cs - one(), one());
        lemma_mul_is_commutative(cb + cs - one(), one());
        lemma_div_is_ordered((cb + cs - one()) * one(), cb * cs, one());
    }
}

/// `Cb + Cs - Cb * Cs`.
pub fn screen(base: u32, blend: u32) -> (r: u32)
    requires
        base <= ONE,
        blend <= ONE,
    ensures
        r == spec_screen(base as int, blend as int),
        r <= ONE,
{
    proof {
        lemma_screen_range(base as int, blend as int);
    }
    let m = mul_unit(base, blend);
    base + blend - m
}

pub open spec fn spec_color_dodge(cb: int, cs: int) -> int {
    if cb == 0 {
        0
    } else if cs == one() {
        one()
    } else {
        spec_cap(spec_div_unit(cb, one() - cs))
    }
}

/// `Cb == 0 -> 0`; `Cs == 1 -> 1`; else `min(1, Cb / (1 - Cs))`.
pub fn color_dodge(base: u32, blend: u32) -> (r: u32)
    requires
        base <= ONE,
        blend <= ONE,
    ensures
        r == spec_color_dodge(base as int, blend as int),
        r <= ONE,
{
    if base == 0 {
        0
    } else if blend == ONE {
        ONE
    } else {
        div_unit_capped(base, ONE - blend)
    }
}

pub open spec fn spec_linear_dodge(cb: int, cs: int) -> int {
    spec_cap(cb + cs)
}

/// `min(1, Cb + Cs)`.
pub fn linear_dodge(base: u32, blend: u32) -> (r: u32)
    requires
        base <= ONE,
        blend <= ONE,
    ensures
        r == spec_linear_dodge(base as int, blend as int),
        r <= ONE,
{
    if base + blend <= ONE {
        base + blend
    } else {
        ONE
    }
}

pub open spec fn spec_hard_light(cb: int, cs: int) -> int {
    if 2 * cs < one() {
        spec_multiply(cb, 2 * cs)
    } else {
        spec_screen(cb, 2 * cs - one())
    }
}

/// `Cs < 0.5 -> multiply(Cb, 2 Cs)`; else `screen(Cb, 2 Cs - 1)`.
pub fn hard_light(base: u32, blend: u32) -> (r: u32)
    requires
        base <= ONE,
        blend <= ONE,
    ensures
        r == spec_hard_light(base as int, blend as int),
        r <= ONE,
{
    if 2 * blend < ONE {
        multiply(base, 2 * blend)
    } else {
        screen(base, 2 * blend - ONE)
    }
}

/// The hard-light result stays within the unit range.
pub proof fn lemma_hard_light_range(cb: int, cs: int)
    requires
        0 <= cb <= one(),
        0 <= cs <= one(),
    ensures
        0 <= spec_hard_light(cb, cs) <= one(),
{
    if 2 * cs < one() {
        lemma_mul_unit_bounds(cb, 2 * cs);
    } else {
        lemma_screen_range(cb, 2 * cs - one());
    }
}

pub open spec fn spec_overlay(cb: int, cs: int) -> int {
    spec_hard_light(cs, cb)
}

/// `hard_light` with the arguments swapped.
pub fn overlay(base: u32, blend: u32) -> (r: u32)
    requires
        base <= ONE,
        blend <= ONE,
    ensures
        r == spec_overlay(base as int, blend as int),
        r <= ONE,
{
    hard_light(blend, base)
}

/// The darkening polynomial of `soft_light`, `((16 Cb - 12) Cb + 4) Cb`,
/// factored as `4 Cb * (4 Cb * Cb + 1 - 3 Cb)` to stay nonnegative.
pub open spec fn spec_soft_d_poly(cb: int) -> int {
    spec_mul_unit(4 * cb, spec_mul_unit(4 * cb, cb) + one() - 3 * cb)
}

pub open spec fn spec_soft_d(cb: int) -> int {
    if 4 * cb <= one() {
        spec_soft_d_poly(cb)
    } else {
        spec_isqrt(cb * one())
    }
}

pub open spec fn spec_soft_light(cb: int, cs: int) -> int {
    if 2 * cs <= one() {
        cb - spec_mul_unit(spec_mul_unit(one() - 2 * cs, cb), one() - cb)
    } else {
        let d = spec_soft_d(cb);
        if d >= cb {
            cb + spec_mul_unit(2 * cs - one(), d - cb)
        } else {
            cb - spec_mul_unit(2 * cs - one(), cb - d)
        }
    }
}

/// The darkening term `d` of `soft_light`: the cubic polynomial below one
/// quarter, the square root above it.
fn soft_d(base: u32) -> (d: u32)
    requires
        base <= ONE,
    ensures
        d == spec_soft_d(base as int),
        d <= ONE,
{
    if 4 * base <= ONE {
        let u = mul_unit(4 * base, base);
        // 4 Cb * Cb + 1 - 3 Cb >= 0 because (8 Cb - 3)^2 + 7 >= 0 (unit scale).
        let v = u + ONE - 3 * base;
        mul_unit(4 * base, v)
    } else {
        proof {
            lemma_mul_upper_bound(base as int, one(), one(), one());
            lemma_mul_nonnegative(base as int, one());
        }
        let s = isqrt64((base as u64) * (ONE as u64));
        proof {
            if s > ONE {
                assert((one() + 1) * (one() + 1) > one() * one()) by (nonlinear_arith);
                lemma_mul_inequality(one() + 1, s as int, s as int);
                lemma_mul_inequality(one() + 1, one() + 1, s as int);
                lemma_mul_inequality(base as int, one(), one());
            }
        }
        s as u32
    }
}

/// The darkening term stays within the unit range.
pub proof fn lemma_soft_d_range(cb: int)
    requires
        0 <= cb <= one(),
    ensures
        0 <= spec_soft_d(cb) <= one(),
{
    if 4 * cb <= one() {
        lemma_mul_unit_bounds(4 * cb, cb);
        let v = spec_mul_unit(4 * cb, cb) + one() - 3 * cb;
        lemma_mul_unit_bounds(4 * cb, v);
    } else {
        lemma_isqrt_exists(cb * one());
        let d = spec_isqrt(cb * one());
        if d > one() {
            assert(cb * one() < d * d) by (nonlinear_arith)
                requires
                    0 <= cb <= one(),
                    one() < d,
            ;
        }
    }
}

/// The soft-light result stays within the unit range.
pub proof fn lemma_soft_light_range(cb: int, cs: int)
    requires
        0 <= cb <= one(),
        0 <= cs <= one(),
    ensures
        0 <= spec_soft_light(cb, cs) <= one(),
{
    if 2 * cs <= one() {
        lemma_mul_unit_bounds(one() - 2 * cs, cb);
        lemma_mul_unit_bounds(spec_mul_unit(one() - 2 * cs, cb), one() - cb);
    } else {
        lemma_soft_d_range(cb);
        let d = spec_soft_d(cb);
        if d >= cb {
            lemma_mul_unit_bounds(2 * cs - one(), d - cb);
        } else {
            lemma_mul_unit_bounds(2 * cs - one(), cb - d);
        }
    }
}

/// `d = Cb <= 0.25 ? ((16 Cb - 12) Cb + 4) Cb : sqrt(Cb)`;
/// `Cs <= 0.5 -> Cb - (1 - 2 Cs) * Cb * (1 - Cb)`; else `Cb + (2 Cs - 1) * (d - Cb)`.
pub fn soft_light(base: u32, blend: u32) -> (r: u32)
    requires
        base <= ONE,
        blend <= ONE,
    ensures
        r == spec_soft_light(base as int, blend as int),
        r <= ONE,
{
    if 2 * blend <= ONE {
        let t1 = mul_unit(ONE - 2 * blend, base);
        let t2 = mul_unit(t1, ONE - base);
        base - t2
    } else {
        let d = soft_d(base);
        if d >= base {
            base + mul_unit(2 * blend - ONE, d - base)
        } else {
            base - mul_unit(2 * blend - ONE, base - d)
        }
    }
}

pub open spec fn spec_vivid_light(cb: int, cs: int) -> int {
    if 2 * cs < one() {
        if cs == 0 {
            0
        } else {
            spec_cap(one() - spec_div_unit(one() - cb, 2 * cs))
        }
    } else {
        let t = 2 * cs - one();
        if t == one() {
            one()
        } else {
            spec_cap(spec_div_unit(cb, one() - t))
        }
    }
}

/// `Cs < 0.5`: `Cs == 0 -> 0` else `max(0, 1 - (1 - Cb) / (2 Cs))`;
/// else `t = 2 (Cs - 0.5)`: `t == 1 -> 1` else `min(1, Cb / (1 - t))`.
pub fn vivid_light(base: u32, blend: u32) -> (r: u32)
    requires
        base <= ONE,
        blend <= ONE,
    ensures
        r == spec_vivid_light(base as int, blend as int),
        r <= ONE,
{
    if 2 * blend < ONE {
        if blend == 0 {
            0
        } else {
            burn_unit(ONE - base, 2 * blend)
        }
    } else {
        let t = 2 * blend - ONE;
        if t == ONE {
            ONE
        } else {
            div_unit_capped(base, ONE - t)
        }
    }
}

pub open spec fn spec_linear_light(cb: int, cs: int) -> int {
    spec_cap(cb + 2 * cs - one())
}

/// `Cs > 0.5 -> min(1, Cb + 2 (Cs - 0.5))`; else `max(0, Cb + 2 Cs - 1)`.
pub fn linear_light(base: u32, blend: u32) -> (r: u32)
    requires
        base <= ONE,
        blend <= ONE,
    ensures
        r == spec_linear_light(base as int, blend as int),
        r <= ONE,
{
    let s = base + 2 * blend;
    if s <= ONE {
        0
    } else if s - ONE >= ONE {
        ONE
    } else {
        s - ONE
    }
}

pub open spec fn spec_pin_light(cb: int, cs: int) -> int {
    if 2 * cs < one() {
        if 2 * cs < cb {
            2 * cs
        } else {
            cb
        }
    } else {
        let t = 2 * cs - one();
        if cb < t {
            t
        } else {
            cb
        }
    }
}

/// `Cs < 0.5`: `min(2 Cs, Cb)`; else `max(2 Cs - 1, Cb)`.
pub fn pin_light(base: u32, blend: u32) -> (r: u32)
    requires
        base <= ONE,
        blend <= ONE,
    ensures
        r == spec_pin_light(base as int, blend as int),
        r <= ONE,
{
    if 2 * blend < ONE {
        let t = 2 * blend;
        if t < base {
            t
        } else {
            base
        }
    } else {
        let t = 2 * blend - ONE;
        if base < t {
            t
        } else {
            base
        }
    }
}

/// The intermediate light value thresholded by `hard_mix`.
pub open spec fn spec_hard_mix_t(cb: int, cs: int) -> int {
    if 2 * cs < one() {
        if cs == 0 {
            0
        } else {
            spec_cap(one() - spec_div_unit(one() - cb, 2 * cs))
        }
    } else {
        let t = 2 * cs - one();
        if t == one() {
            t
        } else {
            spec_cap(spec_div_unit(cb, one() - t))
        }
    }
}

pub open spec fn spec_hard_mix(cb: int, cs: int) -> int {
    if 2 * spec_hard_mix_t(cb, cs) < one() {
        0
    } else {
        one()
    }
}

/// A vivid-light-style intermediate, thresholded at `0.5` to `0` or `1`.
pub fn hard_mix(base: u32, blend: u32) -> (r: u32)
    requires
        base <= ONE,
        blend <= ONE,
    ensures
        r == spec_hard_mix(base as int, blend as int),
        r <= ONE,
{
    let t: u32 = if 2 * blend < ONE {
        if blend == 0 {
            0
        } else {
            burn_unit(ONE - base, 2 * blend)
        }
    } else {
        let u = 2 * blend - ONE;
        if u == ONE {
            u
        } else {
            div_unit_capped(base, ONE - u)
        }
    };
    if 2 * t < ONE {
        0
    } else {
        ONE
    }
}

pub open spec fn spec_difference(cb: int, cs: int) -> int {
    if cb >= cs {
        cb - cs
    } else {
        cs - cb
    }
}

/// `|Cb - Cs|`.
pub fn difference(base: u32, blend: u32) -> (r: u32)
    requires
        base <= ONE,
        blend <= ONE,
    ensures
        r == spec_difference(base as int, blend as int),
        r <= ONE,
{
    if base >= blend {
        base - blend
    } else {
        blend - base
    }
}

pub open spec fn spec_exclusion(cb: int, cs: int) -> int {
    cb + cs - spec_mul_unit(2 * cb, cs)
}

/// The exclusion result stays within the unit range.
pub proof fn lemma_exclusion_range(cb: int, cs: int)
    requires
        0 <= cb <= one(),
        0 <= cs <= one(),
    ensures
        0 <= spec_exclusion(cb, cs) <= one(),
{
    // 2 Cb Cs <= Cb + Cs, since Cb (1 - Cs) + Cs (1 - Cb) >= 0.
    assert(2 * cb * cs <= (cb + cs) * one()) by (nonlinear_arith)
        requires
            0 <= cb <= one(),
            0 <= cs <= one(),
    ;
    lemma_mul_nonnegative(2 * cb, cs);
    lemma_div_is_ordered(2 * cb * cs, (cb + cs) * one(), one());
    lemma_div_by_multiple(cb + cs, one());
    lemma_div_pos_is_pos(2 * cb * cs, one());
    if cb + cs > one() {
        // Cb + Cs - 1 <= 2 Cb Cs, since (1 - Cb) (1 - Cs) + Cb Cs >= 0.
        assert((cb + cs - one()) * one() <= 2 * cb * cs) by (nonlinear_arith)
            requires
                0 <= cb <= one(),
                0 <= cs <= one(),
        ;
        lemma_div_by_multiple(cb + cs - one(), one());
        lemma_div_is_ordered((cb + cs - one()) * one(), 2 * cb * cs, one());
    }
}

/// `Cb + Cs - 2 Cb Cs`.
pub fn exclusion(base: u32, blend: u32) -> (r: u32)
    requires
        base <= ONE,
        blend <= ONE,
    ensures
        r == spec_exclusion(base as int, blend as int),
        r <= ONE,
{
    proof {
        lemma_exclusion_range(base as int, blend as int);
    }
    let p: u64 = 2 * (base as u64) * (blend as u64) / (ONE as u64);
    proof {
        assert(2 * (base as int) * (blend as int) == (2 * base as int) * (blend as int))
            by (nonlinear_arith);
    }
    base + blend - (p as u32)
}

pub open spec fn spec_subtract(cb: int, cs: int) -> int {
    if cb >= cs {
        cb - cs
    } else {
        0
    }
}

/// `max(0, Cb - Cs)`.
pub fn subtract(base: u32, blend: u32) -> (r: u32)
    requires
        base <= ONE,
        blend <= ONE,
    ensures
        r == spec_subtract(base as int, blend as int),
        r <= ONE,
{
    if base >= blend {
        base - blend
    } else {
        0
    }
}

pub open spec fn spec_divide(cb: int, cs: int) -> int {
    if cs == 0 {
        one()
    } else {
        spec_cap(spec_div_unit(cb, cs))
    }
}

/// `Cs == 0 -> 1`; else `min(1, Cb / Cs)`.
pub fn divide(base: u32, blend: u32) -> (r: u32)
    requires
        base <= ONE,
        blend <= ONE,
    ensures
        r == spec_divide(base as int, blend as int),
        r <= ONE,
{
    if blend == 0 {
        ONE
    } else {
        div_unit_capped(base, blend)
    }
}

} // verus!
