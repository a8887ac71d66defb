//! Pixel formats and channel normalization.
//!
//! Every supported raw pixel format converts to and from [`NormRgba`], the
//! canonical normalized form: four unit-scale channels `(r, g, b, a)`.
//! Integer channels map linearly between the format's `[min, max]` range and
//! `[0, ONE]`; the scale factors divide `ONE` exactly, so the conversion is
//! exact and denormalization (truncating) inverts it. Formats without an
//! alpha channel read as fully opaque; formats with a single luminance
//! channel replicate it into `r`, `g`, `b` on read and take the ITU-R BT.709
//! weighted mean `0.2126 r + 0.7152 g + 0.0722 b` on write.

use vstd::prelude::*;
use vstd::arithmetic::div_mod::*;
use vstd::arithmetic::mul::lemma_mul_is_commutative;
use crate::fixed::{ONE, one};

verus! {

/// The unit scale factor of 8-bit channels: `ONE / 255`.
pub const SCALE8: u32 = 1028;

/// The unit scale factor of 16-bit channels: `ONE / 65535`.
pub const SCALE16: u32 = 4;

/// A normalized pixel: unit-scale red, green, blue and alpha.
#[derive(Clone, Copy, Debug, PartialEq, Eq, Structural)]
pub struct NormRgba {
    pub r: u32,
    pub g: u32,
    pub b: u32,
    pub a: u32,
}

impl NormRgba {
    /// All four channels lie on the unit scale.
    pub open spec fn in_range(self) -> bool {
        &&& self.r <= ONE
        &&& self.g <= ONE
        &&& self.b <= ONE
        &&& self.a <= ONE
    }

    pub open spec fn spec_new(r: u32, g: u32, b: u32, a: u32) -> NormRgba {
        NormRgba { r, g, b, a }
    }

    pub fn new(r: u32, g: u32, b: u32, a: u32) -> (c: NormRgba)
        ensures
            c == NormRgba::spec_new(r, g, b, a),
    {
        NormRgba { r, g, b, a }
    }
}

/// The ITU-R BT.709 luminance weights on the unit scale, truncating.
pub open spec fn spec_rgb_to_luma(r: int, g: int, b: int) -> int {
    (2126 * r + 7152 * g + 722 * b) / 10000
}

/// Weighted gray value of a normalized color, `0.2126 r + 0.7152 g + 0.0722 b`.
fn rgb_to_luma(r: u32, g: u32, b: u32) -> (l: u32)
    requires
        r <= ONE,
        g <= ONE,
        b <= ONE,
    ensures
        l == spec_rgb_to_luma(r as int, g as int, b as int),
        l <= ONE,
{
    proof {
        lemma_div_pos_is_pos(2126 * r + 7152 * g + 722 * b, 10000);
        lemma_div_is_ordered(2126 * r + 7152 * g + 722 * b, 10000 * one(), 10000);
        lemma_div_by_multiple(one(), 10000);
        lemma_mul_is_commutative(one(), 10000);
    }
    (2126 * r + 7152 * g + 722 * b) / 10000
}

/// Replicating a single gray value leaves it unchanged.
proof fn lemma_luma_of_gray(t: int)
    requires
        0 <= t,
    ensures
        spec_rgb_to_luma(t, t, t) == t,
{
    assert(2126 * t + 7152 * t + 722 * t == 10000 * t);
    lemma_div_by_multiple(t, 10000);
    lemma_mul_is_commutative(t, 10000);
}

/// A raw pixel format that normalizes to [`NormRgba`].
///
/// Implementations must prove that normalization stays on the unit scale,
/// that the transparency and opacity flags (evaluated on the raw encoding's
/// native minimum and maximum) agree with the normalized alpha, and that
/// denormalizing a pixel's own normalized value reproduces the pixel.
pub trait AsRgba: Sized + Copy {
    /// The normalized value of this pixel.
    spec fn spec_to_rgba(self) -> NormRgba;

    /// The raw pixel a normalized value denormalizes to.
    spec fn spec_from_rgba(c: NormRgba) -> Self;

    /// With an alpha channel, the raw alpha is the format's minimum;
    /// without one, never.
    spec fn spec_transparent(self) -> bool;

    /// With an alpha channel, the raw alpha is the format's maximum;
    /// without one, always.
    spec fn spec_opaque(self) -> bool;

    /// With an alpha channel, the fully transparent zero pixel;
    /// without one, fully black.
    spec fn spec_empty() -> Self;

    /// The raw-level alpha flags agree with the normalized alpha.
    proof fn lemma_alpha_flags(self)
        ensures
            self.spec_transparent() <==> self.spec_to_rgba().a == 0,
            self.spec_opaque() <==> self.spec_to_rgba().a == ONE,
    ;

    /// Denormalizing a pixel's normalized value reproduces the pixel.
    proof fn lemma_round_trip(self)
        ensures
            Self::spec_from_rgba(self.spec_to_rgba()) == self,
    ;

    fn to_rgba(&self) -> (c: NormRgba)
        ensures
            c == self.spec_to_rgba(),
            c.in_range(),
    ;

    fn from_rgba(c: NormRgba) -> (p: Self)
        requires
            c.in_range(),
        ensures
            p == Self::spec_from_rgba(c),
    ;

    fn is_fully_transparent(&self) -> (b: bool)
        ensures
            b == self.spec_transparent(),
    ;

    fn is_fully_opacity(&self) -> (b: bool)
        ensures
            b == self.spec_opaque(),
    ;

    fn empty() -> (p: Self)
        ensures
            p == Self::spec_empty(),
    ;
}

/// An 8-bit red/green/blue pixel without alpha.
#[derive(Clone, Copy, Debug, PartialEq, Eq, Structural)]
pub struct Rgb8 {
    pub r: u8,
    pub g: u8,
    pub b: u8,
}

/// An 8-bit red/green/blue/alpha pixel.
#[derive(Clone, Copy, Debug, PartialEq, Eq, Structural)]
pub struct Rgba8 {
    pub r: u8,
    pub g: u8,
    pub b: u8,
    pub a: u8,
}

/// An 8-bit single-luminance pixel without alpha.
#[derive(Clone, Copy, Debug, PartialEq, Eq, Structural)]
pub struct Luma8 {
    pub l: u8,
}

/// An 8-bit luminance/alpha pixel.
#[derive(Clone, Copy, Debug, PartialEq, Eq, Structural)]
pub struct LumaA8 {
    pub l: u8,
    pub a: u8,
}

/// A 16-bit red/green/blue pixel without alpha.
#[derive(Clone, Copy, Debug, PartialEq, Eq, Structural)]
pub struct Rgb16 {
    pub r: u16,
    pub g: u16,
    pub b: u16,
}

/// A 16-bit red/green/blue/alpha pixel.
#[derive(Clone, Copy, Debug, PartialEq, Eq, Structural)]
pub struct Rgba16 {
    pub r: u16,
    pub g: u16,
    pub b: u16,
    pub a: u16,
}

/// A 16-bit single-luminance pixel without alpha.
#[derive(Clone, Copy, Debug, PartialEq, Eq, Structural)]
pub struct Luma16 {
    pub l: u16,
}

/// A 16-bit luminance/alpha pixel.
#[derive(Clone, Copy, Debug, PartialEq, Eq, Structural)]
pub struct LumaA16 {
    pub l: u16,
    pub a: u16,
}

impl AsRgba for Rgb8 {
    open spec fn spec_to_rgba(self) -> NormRgba {
        NormRgba {
            r: (self.r * SCALE8) as u32,
            g: (self.g * SCALE8) as u32,
            b: (self.b * SCALE8) as u32,
            a: ONE,
        }
    }

    open spec fn spec_from_rgba(c: NormRgba) -> Self {
        Rgb8 { r: (c.r / SCALE8) as u8, g: (c.g / SCALE8) as u8, b: (c.b / SCALE8) as u8 }
    }

    open spec fn spec_transparent(self) -> bool {
        false
    }

    open spec fn spec_opaque(self) -> bool {
        true
    }

    open spec fn spec_empty() -> Self {
        Rgb8 { r: 0, g: 0, b: 0 }
    }

    proof fn lemma_alpha_flags(self) {
    }

    proof fn lemma_round_trip(self) {
        lemma_scale_round_trip(self.r as int, SCALE8 as int);
        lemma_scale_round_trip(self.g as int, SCALE8 as int);
        lemma_scale_round_trip(self.b as int, SCALE8 as int);
    }

    fn to_rgba(&self) -> (c: NormRgba) {
        NormRgba {
            r: self.r as u32 * SCALE8,
            g: self.g as u32 * SCALE8,
            b: self.b as u32 * SCALE8,
            a: ONE,
        }
    }

    fn from_rgba(c: NormRgba) -> (p: Self) {
        Rgb8 { r: (c.r / SCALE8) as u8, g: (c.g / SCALE8) as u8, b: (c.b / SCALE8) as u8 }
    }

    fn is_fully_transparent(&self) -> (b: bool) {
        false
    }

    fn is_fully_opacity(&self) -> (b: bool) {
        true
    }

    fn empty() -> (p: Self) {
        Rgb8 { r: 0, g: 0, b: 0 }
    }
}

/// Scaling a channel up by a divisor of `ONE` and truncating back down
/// returns the original channel.
proof fn lemma_scale_round_trip(v: int, f: int)
    requires
        0 <= v,
        1 <= f,
    ensures
        v * f / f == v,
{
    lemma_div_by_multiple(v, f);
}

impl AsRgba for Rgba8 {
    open spec fn spec_to_rgba(self) -> NormRgba {
        NormRgba {
            r: (self.r * SCALE8) as u32,
            g: (self.g * SCALE8) as u32,
            b: (self.b * SCALE8) as u32,
            a: (self.a * SCALE8) as u32,
        }
    }

    open spec fn spec_from_rgba(c: NormRgba) -> Self {
        Rgba8 {
            r: (c.r / SCALE8) as u8,
            g: (c.g / SCALE8) as u8,
            b: (c.b / SCALE8) as u8,
            a: (c.a / SCALE8) as u8,
        }
    }

    open spec fn spec_transparent(self) -> bool {
        self.a == 0
    }

    open spec fn spec_opaque(self) -> bool {
        self.a == 255
    }

    open spec fn spec_empty() -> Self {
        Rgba8 { r: 0, g: 0, b: 0, a: 0 }
    }

    proof fn lemma_alpha_flags(self) {
    }

    proof fn lemma_round_trip(self) {
        lemma_scale_round_trip(self.r as int, SCALE8 as int);
        lemma_scale_round_trip(self.g as int, SCALE8 as int);
        lemma_scale_round_trip(self.b as int, SCALE8 as int);
        lemma_scale_round_trip(self.a as int, SCALE8 as int);
    }

    fn to_rgba(&self) -> (c: NormRgba) {
        NormRgba {
            r: self.r as u32 * SCALE8,
            g: self.g as u32 * SCALE8,
            b: self.b as u32 * SCALE8,
            a: self.a as u32 * SCALE8,
        }
    }

    fn from_rgba(c: NormRgba) -> (p: Self) {
        Rgba8 {
            r: (c.r / SCALE8) as u8,
            g: (c.g / SCALE8) as u8,
            b: (c.b / SCALE8) as u8,
            a: (c.a / SCALE8) as u8,
        }
    }

    fn is_fully_transparent(&self) -> (b: bool) {
        self.a == 0
    }

    fn is_fully_opacity(&self) -> (b: bool) {
        self.a == 255
    }

    fn empty() -> (p: Self) {
        Rgba8 { r: 0, g: 0, b: 0, a: 0 }
    }
}

impl AsRgba for Luma8 {
    open spec fn spec_to_rgba(self) -> NormRgba {
        NormRgba {
            r: (self.l * SCALE8) as u32,
            g: (self.l * SCALE8) as u32,
            b: (self.l * SCALE8) as u32,
            a: ONE,
        }
    }

    open spec fn spec_from_rgba(c: NormRgba) -> Self {
        Luma8 {
            l: (spec_rgb_to_luma(c.r as int, c.g as int, c.b as int) / (SCALE8 as int)) as u8,
        }
    }

    open spec fn spec_transparent(self) -> bool {
        false
    }

    open spec fn spec_opaque(self) -> bool {
        true
    }

    open spec fn spec_empty() -> Self {
        Luma8 { l: 0 }
    }

    proof fn lemma_alpha_flags(self) {
    }

    proof fn lemma_round_trip(self) {
        let t = (self.l * SCALE8) as int;
        lemma_luma_of_gray(t);
        lemma_scale_round_trip(self.l as int, SCALE8 as int);
    }

    fn to_rgba(&self) -> (c: NormRgba) {
        let t = self.l as u32 * SCALE8;
        NormRgba { r: t, g: t, b: t, a: ONE }
    }

    fn from_rgba(c: NormRgba) -> (p: Self) {
        let luma = rgb_to_luma(c.r, c.g, c.b);
        Luma8 { l: (luma / SCALE8) as u8 }
    }

    fn is_fully_transparent(&self) -> (b: bool) {
        false
    }

    fn is_fully_opacity(&self) -> (b: bool) {
        true
    }

    fn empty() -> (p: Self) {
        Luma8 { l: 0 }
    }
}

impl AsRgba for LumaA8 {
    open spec fn spec_to_rgba(self) -> NormRgba {
        NormRgba {
            r: (self.l * SCALE8) as u32,
            g: (self.l * SCALE8) as u32,
            b: (self.l * SCALE8) as u32,
            a: (self.a * SCALE8) as u32,
        }
    }

    open spec fn spec_from_rgba(c: NormRgba) -> Self {
        LumaA8 {
            l: (spec_rgb_to_luma(c.r as int, c.g as int, c.b as int) / (SCALE8 as int)) as u8,
            a: (c.a / SCALE8) as u8,
        }
    }

    open spec fn spec_transparent(self) -> bool {
        self.a == 0
    }

    open spec fn spec_opaque(self) -> bool {
        self.a == 255
    }

    open spec fn spec_empty() -> Self {
        LumaA8 { l: 0, a: 0 }
    }

    proof fn lemma_alpha_flags(self) {
    }

    proof fn lemma_round_trip(self) {
        let t = (self.l * SCALE8) as int;
        lemma_luma_of_gray(t);
        lemma_scale_round_trip(self.l as int, SCALE8 as int);
        lemma_scale_round_trip(self.a as int, SCALE8 as int);
    }

    fn to_rgba(&self) -> (c: NormRgba) {
        let t = self.l as u32 * SCALE8;
        NormRgba { r: t, g: t, b: t, a: self.a as u32 * SCALE8 }
    }

    fn from_rgba(c: NormRgba) -> (p: Self) {
        let luma = rgb_to_luma(c.r, c.g, c.b);
        LumaA8 { l: (luma / SCALE8) as u8, a: (c.a / SCALE8) as u8 }
    }

    fn is_fully_transparent(&self) -> (b: bool) {
        self.a == 0
    }

    fn is_fully_opacity(&self) -> (b: bool) {
        self.a == 255
    }

    fn empty() -> (p: Self) {
        LumaA8 { l: 0, a: 0 }
    }
}

impl AsRgba for Rgb16 {
    open spec fn spec_to_rgba(self) -> NormRgba {
        NormRgba {
            r: (self.r * SCALE16) as u32,
            g: (self.g * SCALE16) as u32,
            b: (self.b * SCALE16) as u32,
            a: ONE,
        }
    }

    open spec fn spec_from_rgba(c: NormRgba) -> Self {
        Rgb16 { r: (c.r / SCALE16) as u16, g: (c.g / SCALE16) as u16, b: (c.b / SCALE16) as u16 }
    }

    open spec fn spec_transparent(self) -> bool {
        false
    }

    open spec fn spec_opaque(self) -> bool {
        true
    }

    open spec fn spec_empty() -> Self {
        Rgb16 { r: 0, g: 0, b: 0 }
    }

    proof fn lemma_alpha_flags(self) {
    }

    proof fn lemma_round_trip(self) {
        lemma_scale_round_trip(self.r as int, SCALE16 as int);
        lemma_scale_round_trip(self.g as int, SCALE16 as int);
        lemma_scale_round_trip(self.b as int, SCALE16 as int);
    }

    fn to_rgba(&self) -> (c: NormRgba) {
        NormRgba {
            r: self.r as u32 * SCALE16,
            g: self.g as u32 * SCALE16,
            b: self.b as u32 * SCALE16,
            a: ONE,
        }
    }

    fn from_rgba(c: NormRgba) -> (p: Self) {
        Rgb16 { r: (c.r / SCALE16) as u16, g: (c.g / SCALE16) as u16, b: (c.b / SCALE16) as u16 }
    }

    fn is_fully_transparent(&self) -> (b: bool) {
        false
    }

    fn is_fully_opacity(&self) -> (b: bool) {
        true
    }

    fn empty() -> (p: Self) {
        Rgb16 { r: 0, g: 0, b: 0 }
    }
}

impl AsRgba for Rgba16 {
    open spec fn spec_to_rgba(self) -> NormRgba {
        NormRgba {
            r: (self.r * SCALE16) as u32,
            g: (self.g * SCALE16) as u32,
            b: (self.b * SCALE16) as u32,
            a: (self.a * SCALE16) as u32,
        }
    }

    open spec fn spec_from_rgba(c: NormRgba) -> Self {
        Rgba16 {
            r: (c.r / SCALE16) as u16,
            g: (c.g / SCALE16) as u16,
            b: (c.b / SCALE16) as u16,
            a: (c.a / SCALE16) as u16,
        }
    }

    open spec fn spec_transparent(self) -> bool {
        self.a == 0
    }

    open spec fn spec_opaque(self) -> bool {
        self.a == 65535
    }

    open spec fn spec_empty() -> Self {
        Rgba16 { r: 0, g: 0, b: 0, a: 0 }
    }

    proof fn lemma_alpha_flags(self) {
    }

    proof fn lemma_round_trip(self) {
        lemma_scale_round_trip(self.r as int, SCALE16 as int);
        lemma_scale_round_trip(self.g as int, SCALE16 as int);
        lemma_scale_round_trip(self.b as int, SCALE16 as int);
        lemma_scale_round_trip(self.a as int, SCALE16 as int);
    }

    fn to_rgba(&self) -> (c: NormRgba) {
        NormRgba {
            r: self.r as u32 * SCALE16,
            g: self.g as u32 * SCALE16,
            b: self.b as u32 * SCALE16,
            a: self.a as u32 * SCALE16,
        }
    }

    fn from_rgba(c: NormRgba) -> (p: Self) {
        Rgba16 {
            r: (c.r / SCALE16) as u16,
            g: (c.g / SCALE16) as u16,
            b: (c.b / SCALE16) as u16,
            a: (c.a / SCALE16) as u16,
        }
    }

    fn is_fully_transparent(&self) -> (b: bool) {
        self.a == 0
    }

    fn is_fully_opacity(&self) -> (b: bool) {
        self.a == 65535
    }

    fn empty() -> (p: Self) {
        Rgba16 { r: 0, g: 0, b: 0, a: 0 }
    }
}

impl AsRgba for Luma16 {
    open spec fn spec_to_rgba(self) -> NormRgba {
        NormRgba {
            r: (self.l * SCALE16) as u32,
            g: (self.l * SCALE16) as u32,
            b: (self.l * SCALE16) as u32,
            a: ONE,
        }
    }

    open spec fn spec_from_rgba(c: NormRgba) -> Self {
        Luma16 {
            l: (spec_rgb_to_luma(c.r as int, c.g as int, c.b as int) / (SCALE16 as int)) as u16,
        }
    }

    open spec fn spec_transparent(self) -> bool {
        false
    }

    open spec fn spec_opaque(self) -> bool {
        true
    }

    open spec fn spec_empty() -> Self {
        Luma16 { l: 0 }
    }

    proof fn lemma_alpha_flags(self) {
    }

    proof fn lemma_round_trip(self) {
        let t = (self.l * SCALE16) as int;
        lemma_luma_of_gray(t);
        lemma_scale_round_trip(self.l as int, SCALE16 as int);
    }

    fn to_rgba(&self) -> (c: NormRgba) {
        let t = self.l as u32 * SCALE16;
        NormRgba { r: t, g: t, b: t, a: ONE }
    }

    fn from_rgba(c: NormRgba) -> (p: Self) {
        let luma = rgb_to_luma(c.r, c.g, c.b);
        Luma16 { l: (luma / SCALE16) as u16 }
    }

    fn is_fully_transparent(&self) -> (b: bool) {
        false
    }

    fn is_fully_opacity(&self) -> (b: bool) {
        true
    }

    fn empty() -> (p: Self) {
        Luma16 { l: 0 }
    }
}

impl AsRgba for LumaA16 {
    open spec fn spec_to_rgba(self) -> NormRgba {
        NormRgba {
            r: (self.l * SCALE16) as u32,
            g: (self.l * SCALE16) as u32,
            b: (self.l * SCALE16) as u32,
            a: (self.a * SCALE16) as u32,
        }
    }

    open spec fn spec_from_rgba(c: NormRgba) -> Self {
        LumaA16 {
            l: (spec_rgb_to_luma(c.r as int, c.g as int, c.b as int) / (SCALE16 as int)) as u16,
            a: (c.a / SCALE16) as u16,
        }
    }

    open spec fn spec_transparent(self) -> bool {
        self.a == 0
    }

    open spec fn spec_opaque(self) -> bool {
        self.a == 65535
    }

    open spec fn spec_empty() -> Self {
        LumaA16 { l: 0, a: 0 }
    }

    proof fn lemma_alpha_flags(self) {
    }

    proof fn lemma_round_trip(self) {
        let t = (self.l * SCALE16) as int;
        lemma_luma_of_gray(t);
        lemma_scale_round_trip(self.l as int, SCALE16 as int);
        lemma_scale_round_trip(self.a as int, SCALE16 as int);
    }

    fn to_rgba(&self) -> (c: NormRgba) {
        let t = self.l as u32 * SCALE16;
        NormRgba { r: t, g: t, b: t, a: self.a as u32 * SCALE16 }
    }

    fn from_rgba(c: NormRgba) -> (p: Self) {
        let luma = rgb_to_luma(c.r, c.g, c.b);
        LumaA16 { l: (luma / SCALE16) as u16, a: (c.a / SCALE16) as u16 }
    }

    fn is_fully_transparent(&self) -> (b: bool) {
        self.a == 0
    }

    fn is_fully_opacity(&self) -> (b: bool) {
        self.a == 65535
    }

    fn empty() -> (p: Self) {
        LumaA16 { l: 0, a: 0 }
    }
}

/// A pixel that stores the normalized form itself: unit-scale channels,
/// identity normalization. It stands for floating-point RGBA formats, whose
/// channels already live in `[0, 1]`.
#[derive(Clone, Copy, Debug, PartialEq, Eq, Structural)]
pub struct RgbaUnit {
    r: u32,
    g: u32,
    b: u32,
    a: u32,
}

impl RgbaUnit {
    /// Every channel lies on the unit scale.
    #[verifier::type_invariant]
    pub closed spec fn inv(self) -> bool {
        &&& self.r <= ONE
        &&& self.g <= ONE
        &&& self.b <= ONE
        &&& self.a <= ONE
    }

    pub closed spec fn spec_channels(self) -> NormRgba {
        NormRgba { r: self.r, g: self.g, b: self.b, a: self.a }
    }

    pub fn new(r: u32, g: u32, b: u32, a: u32) -> (p: RgbaUnit)
        requires
            r <= ONE,
            g <= ONE,
            b <= ONE,
            a <= ONE,
        ensures
            p.spec_channels() == NormRgba::spec_new(r, g, b, a),
    {
        RgbaUnit { r, g, b, a }
    }
}

/// Denormalizing an in-range value into the unit format keeps every
/// channel as it is: `spec_from_rgba` inverts `spec_to_rgba` on this
/// format, so a composited unit pixel's channels can be read off directly.
pub proof fn lemma_unit_from_rgba_channels(c: NormRgba)
    requires
        c.in_range(),
    ensures
        RgbaUnit::spec_from_rgba(c).spec_channels() == c,
        RgbaUnit::spec_from_rgba(c).spec_to_rgba() == c,
{
}

impl AsRgba for RgbaUnit {
    open spec fn spec_to_rgba(self) -> NormRgba {
        self.spec_channels()
    }

    closed spec fn spec_from_rgba(c: NormRgba) -> Self {
        RgbaUnit { r: c.r, g: c.g, b: c.b, a: c.a }
    }

    closed spec fn spec_transparent(self) -> bool {
        self.a == 0
    }

    closed spec fn spec_opaque(self) -> bool {
        self.a == ONE
    }

    closed spec fn spec_empty() -> Self {
        RgbaUnit { r: 0, g: 0, b: 0, a: 0 }
    }

    proof fn lemma_alpha_flags(self) {
    }

    proof fn lemma_round_trip(self) {
    }

    fn to_rgba(&self) -> (c: NormRgba) {
        proof {
            use_type_invariant(self);
        }
        NormRgba { r: self.r, g: self.g, b: self.b, a: self.a }
    }

    fn from_rgba(c: NormRgba) -> (p: Self) {
        RgbaUnit { r: c.r, g: c.g, b: c.b, a: c.a }
    }

    fn is_fully_transparent(&self) -> (b: bool) {
        self.a == 0
    }

    fn is_fully_opacity(&self) -> (b: bool) {
        self.a == ONE
    }

    fn empty() -> (p: Self) {
        RgbaUnit { r: 0, g: 0, b: 0, a: 0 }
    }
}

} // verus!
