//! Fixed-point unit-interval arithmetic.
//!
//! A channel value `c: u32` with `c <= ONE` stands for the real number
//! `c / ONE`. `ONE` is a multiple of `255`, of `65535` and of `4`, so the
//! exact 8-bit and 16-bit channel fractions, as well as the quarter points
//! `0.25`, `0.5` and `0.75`, are all representable exactly.
//!
//! Products of two unit values are divided by `ONE` (truncating), quotients
//! are scaled by `ONE` before dividing (truncating), mirroring the usual
//! fixed-point laws.

use vstd::prelude::*;
use vstd::arithmetic::mul::*;
use vstd::arithmetic::div_mod::*;

verus! {

/// The unit scale: this value stands for the real number 1.0.
pub const ONE: u32 = 262140;

/// The unit scale as a spec-level integer.
pub open spec fn one() -> int {
    ONE as int
}

/// Product of two unit-scale values, truncated back to unit scale.
pub open spec fn spec_mul_unit(a: int, b: int) -> int {
    a * b / one()
}

/// Quotient `a / b` of two unit-scale values on the unit scale (truncating),
/// unclamped: the result exceeds `one()` when `a > b`.
pub open spec fn spec_div_unit(a: int, b: int) -> int {
    a * one() / b
}

/// Clamp a spec-level value into `[0, one()]`.
pub open spec fn spec_cap(x: int) -> int {
    if x > one() {
        one()
    } else if x < 0 {
        0
    } else {
        x
    }
}

pub proof fn lemma_mul_unit_bounds(a: int, b: int)
    requires
        0 <= a,
        0 <= b <= one(),
    ensures
        0 <= spec_mul_unit(a, b) <= a,
        a <= one() ==> spec_mul_unit(a, b) <= b,
{
    lemma_mul_nonnegative(a, b);
    lemma_div_pos_is_pos(a * b, one());
    lemma_mul_inequality(b, one(), a);
    lemma_mul_is_commutative(a, b);
    lemma_mul_is_commutative(a, one());
    lemma_div_is_ordered(a * b, a * one(), one());
    lemma_div_by_multiple(a, one());
    if a <= one() {
        lemma_mul_inequality(a, one(), b);
        lemma_mul_is_commutative(b, one());
        lemma_div_is_ordered(a * b, b * one(), one());
        lemma_div_by_multiple(b, one());
    }
}

/// Unit-scale product of `a` and `b`, truncating.
pub fn mul_unit(a: u32, b: u32) -> (r: u32)
    requires
        a <= ONE,
        b <= ONE,
    ensures
        r == spec_mul_unit(a as int, b as int),
        r <= a,
        r <= b,
{
    proof {
        lemma_mul_unit_bounds(a as int, b as int);
        lemma_mul_upper_bound(a as int, one(), b as int, one());
    }
    let p: u64 = (a as u64) * (b as u64) / (ONE as u64);
    p as u32
}

/// Unit-scale quotient `a / b`, truncating, clamped from above to `ONE`.
pub fn div_unit_capped(a: u32, b: u32) -> (r: u32)
    requires
        a <= ONE,
        1 <= b,
    ensures
        r == spec_cap(spec_div_unit(a as int, b as int)),
        r <= ONE,
{
    proof {
        lemma_mul_nonnegative(a as int, one());
        lemma_div_pos_is_pos(a as int * one(), b as int);
    }
    let q: u64 = (a as u64) * (ONE as u64) / (b as u64);
    if q >= ONE as u64 {
        ONE
    } else {
        q as u32
    }
}

/// The unit-scale product is monotone in its left factor.
pub proof fn lemma_mul_unit_mono_left(a1: int, a2: int, b: int)
    requires
        0 <= a1 <= a2,
        0 <= b,
    ensures
        spec_mul_unit(a1, b) <= spec_mul_unit(a2, b),
{
    lemma_mul_inequality(a1, a2, b);
    lemma_div_is_ordered(a1 * b, a2 * b, one());
}

/// Unit-scale quotient `a / b` for `a <= b`: the un-premultiply step, whose
/// result never leaves the unit scale.
pub fn div_unit(a: u32, b: u32) -> (r: u32)
    requires
        a <= b,
        1 <= b <= ONE,
    ensures
        r == spec_div_unit(a as int, b as int),
        r <= ONE,
{
    proof {
        lemma_mul_nonnegative(a as int, one());
        lemma_div_pos_is_pos(a as int * one(), b as int);
        lemma_mul_inequality(a as int, b as int, one());
        lemma_mul_is_commutative(b as int, one());
        lemma_multiply_divide_le(a as int * one(), b as int, one());
    }
    let q: u64 = (a as u64) * (ONE as u64) / (b as u64);
    q as u32
}

/// Unit-scale `1 - a / b`, truncating, clamped from below to `0`:
/// the burn-family kernel.
pub fn burn_unit(a: u32, b: u32) -> (r: u32)
    requires
        a <= ONE,
        1 <= b,
    ensures
        r == spec_cap(one() - spec_div_unit(a as int, b as int)),
        r <= ONE,
{
    proof {
        lemma_mul_upper_bound(a as int, one(), one(), one());
        lemma_mul_nonnegative(a as int, one());
        lemma_div_pos_is_pos(a as int * one(), b as int);
    }
    let q: u64 = (a as u64) * (ONE as u64) / (b as u64);
    if q >= ONE as u64 {
        0
    } else {
        ONE - (q as u32)
    }
}

/// `r` is the integer square root of `x`.
pub open spec fn is_isqrt(x: int, r: int) -> bool {
    &&& 0 <= r
    &&& r * r <= x
    &&& x < (r + 1) * (r + 1)
}

/// The integer square root, as a spec-level value.
pub open spec fn spec_isqrt(x: int) -> int {
    choose|r: int| is_isqrt(x, r)
}

/// Integer square roots are unique.
pub proof fn lemma_isqrt_unique(x: int, r1: int, r2: int)
    requires
        is_isqrt(x, r1),
        is_isqrt(x, r2),
    ensures
        r1 == r2,
{
    if r1 < r2 {
        assert((r1 + 1) * (r1 + 1) <= r2 * r2) by (nonlinear_arith)
            requires
                0 <= r1,
                r1 < r2,
        ;
    }
    if r2 < r1 {
        assert((r2 + 1) * (r2 + 1) <= r1 * r1) by (nonlinear_arith)
            requires
                0 <= r2,
                r2 < r1,
        ;
    }
}

/// Every nonnegative integer has an integer square root, so `spec_isqrt`
/// denotes one.
pub proof fn lemma_isqrt_exists(x: int)
    requires
        0 <= x,
    ensures
        is_isqrt(x, spec_isqrt(x)),
    decreases x,
{
    if x == 0 {
        assert(is_isqrt(0, 0)) by (nonlinear_arith);
        assert(is_isqrt(x, spec_isqrt(x))) by {
            assert(exists|r: int| is_isqrt(x, r));
        }
    } else {
        lemma_isqrt_exists(x - 1);
        let r = spec_isqrt(x - 1);
        if x < (r + 1) * (r + 1) {
            assert(is_isqrt(x, r));
        } else {
            assert(is_isqrt(x, r + 1)) by (nonlinear_arith)
                requires
                    0 <= r,
                    r * r <= x - 1,
                    x - 1 < (r + 1) * (r + 1),
                    (r + 1) * (r + 1) <= x,
            ;
        }
        assert(is_isqrt(x, spec_isqrt(x))) by {
            assert(exists|w: int| is_isqrt(x, w));
        }
    }
}

/// Any witness of `is_isqrt` equals `spec_isqrt`.
pub proof fn lemma_isqrt_witness(x: int, r: int)
    requires
        is_isqrt(x, r),
    ensures
        r == spec_isqrt(x),
{
    let w = choose|w: int| is_isqrt(x, w);
    lemma_isqrt_unique(x, r, w);
}

/// Integer square root by bisection.
pub fn isqrt64(x: u64) -> (r: u64)
    requires
        x < 0x8000_0000_0000_0000,
    ensures
        is_isqrt(x as int, r as int),
        r == spec_isqrt(x as int),
{
    let mut lo: u64 = 0;
    let mut hi: u64 = 0x1_0000_0000;
    // Invariant: lo * lo <= x < hi * hi.
    proof {
        assert((0x1_0000_0000 as int) * (0x1_0000_0000 as int) > x as int);
    }
    while hi - lo > 1
        invariant
            lo < hi <= 0x1_0000_0000,
            (lo as int) * (lo as int) <= x as int,
            (x as int) < (hi as int) * (hi as int),
        decreases hi - lo,
    {
        let mid: u64 = lo + (hi - lo) / 2;
        proof {
            lemma_mul_upper_bound(mid as int, 0xffff_ffff, mid as int, 0xffff_ffff);
        }
        if mid * mid <= x {
            lo = mid;
        } else {
            hi = mid;
        }
    }
    proof {
        lemma_isqrt_witness(x as int, lo as int);
    }
    lo
}

} // verus!
