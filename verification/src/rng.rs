//! Deterministic pseudo-randomness for the dissolve mode.
//!
//! [`FastUnsecurePrng`] is a lag-3 multiply-with-carry generator with a
//! 128-bit state and a xor-xor-add output permutation. Its stepping is plain
//! integer arithmetic, stated exactly by [`FastUnsecurePrng::spec_step`], so
//! every draw — and with it the whole dissolve sweep — is a proved function
//! of the seed. Seeding from the same two keys always yields the same draw
//! sequence.

use vstd::prelude::*;

verus! {

/// A source of uniform draws on `[0, 1]`: each draw `r` stands for the real
/// number `r / u32::MAX`.
pub trait Rng: Sized {
    /// The draw produced in a state, and the state after it.
    spec fn spec_next(self) -> (u32, Self);

    /// Draw once: returns the numerator of a uniform value in `[0, 1]`
    /// whose denominator is `u32::MAX`, and advances the state.
    fn next_unit(&mut self) -> (r: u32)
        ensures
            ({
                let (v, s) = old(self).spec_next();
                r == v && *final(self) == s
            }),
    ;
}

/// The multiply-with-carry multiplier.
pub const MULTIPLIER: u32 = 3487286589;

/// A seedable, reproducible, statistically-plain generator; not for
/// cryptography.
#[derive(Clone, PartialEq, Eq, Structural, Debug)]
pub struct FastUnsecurePrng {
    x1: u32,
    x2: u32,
    x3: u32,
    c: u32,
}

impl FastUnsecurePrng {
    /// One multiply-with-carry step: the output word and the next state.
    pub closed spec fn spec_step(self) -> (u32, FastUnsecurePrng) {
        let t = self.x3 * MULTIPLIER;
        let low = (t % 0x1_0000_0000) as u32;
        let hi = (t / 0x1_0000_0000) as u32;
        let result = (((self.x3 ^ self.x2) + (self.x1 ^ hi)) % 0x1_0000_0000) as u32;
        let x1n = ((low + self.c) % 0x1_0000_0000) as u32;
        let carry: u32 = if low + self.c >= 0x1_0000_0000 {
            1u32
        } else {
            0u32
        };
        (
            result,
            FastUnsecurePrng { x1: x1n, x2: self.x1, x3: self.x2, c: (hi + carry) as u32 },
        )
    }

    /// The raw seeded state, before mixing.
    pub closed spec fn spec_seed(k1: u32, k2: u32) -> FastUnsecurePrng {
        FastUnsecurePrng { x1: k1, x2: k2, x3: 0xcafef00d, c: 0xd15ea5e5 }
    }

    /// The state after `n` steps.
    pub open spec fn spec_steps(self, n: nat) -> FastUnsecurePrng
        decreases n,
    {
        if n == 0 {
            self
        } else {
            self.spec_steps((n - 1) as nat).spec_step().1
        }
    }

    /// The state `new` constructs: the seeded state advanced 6 steps to mix
    /// the keys.
    pub open spec fn spec_new(k1: u32, k2: u32) -> FastUnsecurePrng {
        FastUnsecurePrng::spec_seed(k1, k2).spec_steps(6)
    }

    /// Construct an instance given two keys.
    pub fn new(k1: u32, k2: u32) -> (p: FastUnsecurePrng)
        ensures
            p == FastUnsecurePrng::spec_new(k1, k2),
    {
        let mut p = FastUnsecurePrng { x1: k1, x2: k2, x3: 0xcafef00d, c: 0xd15ea5e5 };
        let ghost seed = p;
        let mut i: u32 = 0;
        while i < 6
            invariant
                0 <= i <= 6,
                p == seed.spec_steps(i as nat),
            decreases 6 - i,
        {
            let _ = p.next_unit();
            i = i + 1;
        }
        p
    }
}

impl Rng for FastUnsecurePrng {
    open spec fn spec_next(self) -> (u32, Self) {
        self.spec_step()
    }

    fn next_unit(&mut self) -> (r: u32) {
        let t: u64 = (self.x3 as u64) * (MULTIPLIER as u64);
        let low: u32 = (t % 0x1_0000_0000) as u32;
        let hi: u32 = (t / 0x1_0000_0000) as u32;
        let sum_r: u64 = ((self.x3 ^ self.x2) as u64) + ((self.x1 ^ hi) as u64);
        let result: u32 = (sum_r % 0x1_0000_0000) as u32;
        let sum_lc: u64 = (low as u64) + (self.c as u64);
        let x1n: u32 = (sum_lc % 0x1_0000_0000) as u32;
        let carry: u32 = if sum_lc >= 0x1_0000_0000 {
            1
        } else {
            0
        };
        proof {
            vstd::arithmetic::mul::lemma_mul_inequality(
                old(self).x3 as int,
                0xffff_ffff,
                MULTIPLIER as int,
            );
            vstd::arithmetic::div_mod::lemma_div_is_ordered(
                t as int,
                0xffff_ffff * (MULTIPLIER as int),
                0x1_0000_0000,
            );
        }
        let cn: u32 = hi + carry;
        self.x3 = self.x2;
        self.x2 = self.x1;
        self.x1 = x1n;
        self.c = cn;
        result
    }
}

} // verus!
