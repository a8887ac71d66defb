//! The closed enumeration of blend modes.

use vstd::prelude::*;

verus! {

/// Algorithm for blending pixels.
///
/// `Normal` is the default Porter-Duff "over" composite; `Dissolve` replaces
/// the background with the foreground at a per-pixel probability equal to the
/// foreground alpha; every other mode applies a per-channel or composite-color
/// formula before alpha compositing.
#[derive(Debug, Clone, Copy, PartialEq, Eq, Hash, Structural)]
pub enum BlendMode {
    Normal,
    Dissolve,
    Darken,
    Multiply,
    ColorBurn,
    LinearBurn,
    DarkerColor,
    Lighten,
    Screen,
    ColorDodge,
    LinearDodge,
    LighterColor,
    Overlay,
    SoftLight,
    HardLight,
    VividLight,
    LinearLight,
    PinLight,
    HardMix,
    Difference,
    Exclusion,
    Subtract,
    Divide,
    Hue,
    Saturation,
    Color,
    Luminosity,
}

impl Default for BlendMode {
    /// The default mode is `Normal`.
    fn default() -> (r: Self)
        ensures
            r == BlendMode::Normal,
    {
        BlendMode::Normal
    }
}

impl BlendMode {
    /// The canonical display name of a mode, identical to its identifier.
    pub open spec fn spec_name(self) -> Seq<char> {
        match self {
            BlendMode::Normal => "Normal"@,
            BlendMode::Dissolve => "Dissolve"@,
            BlendMode::Darken => "Darken"@,
            BlendMode::Multiply => "Multiply"@,
            BlendMode::ColorBurn => "ColorBurn"@,
            BlendMode::LinearBurn => "LinearBurn"@,
            BlendMode::DarkerColor => "DarkerColor"@,
            BlendMode::Lighten => "Lighten"@,
            BlendMode::Screen => "Screen"@,
            BlendMode::ColorDodge => "ColorDodge"@,
            BlendMode::LinearDodge => "LinearDodge"@,
            BlendMode::LighterColor => "LighterColor"@,
            BlendMode::Overlay => "Overlay"@,
            BlendMode::SoftLight => "SoftLight"@,
            BlendMode::HardLight => "HardLight"@,
            BlendMode::VividLight => "VividLight"@,
            BlendMode::LinearLight => "LinearLight"@,
            BlendMode::PinLight => "PinLight"@,
            BlendMode::HardMix => "HardMix"@,
            BlendMode::Difference => "Difference"@,
            BlendMode::Exclusion => "Exclusion"@,
            BlendMode::Subtract => "Subtract"@,
            BlendMode::Divide => "Divide"@,
            BlendMode::Hue => "Hue"@,
            BlendMode::Saturation => "Saturation"@,
            BlendMode::Color => "Color"@,
            BlendMode::Luminosity => "Luminosity"@,
        }
    }

    /// The canonical display name of a mode, identical to its identifier.
    pub fn name(&self) -> (s: &'static str)
        ensures
            s@ == self.spec_name(),
    {
        match self {
            BlendMode::Normal => "Normal",
            BlendMode::Dissolve => "Dissolve",
            BlendMode::Darken => "Darken",
            BlendMode::Multiply => "Multiply",
            BlendMode::ColorBurn => "ColorBurn",
            BlendMode::LinearBurn => "LinearBurn",
            BlendMode::DarkerColor => "DarkerColor",
            BlendMode::Lighten => "Lighten",
            BlendMode::Screen => "Screen",
            BlendMode::ColorDodge => "ColorDodge",
            BlendMode::LinearDodge => "LinearDodge",
            BlendMode::LighterColor => "LighterColor",
            BlendMode::Overlay => "Overlay",
            BlendMode::SoftLight => "SoftLight",
            BlendMode::HardLight => "HardLight",
            BlendMode::VividLight => "VividLight",
            BlendMode::LinearLight => "LinearLight",
            BlendMode::PinLight => "PinLight",
            BlendMode::HardMix => "HardMix",
            BlendMode::Difference => "Difference",
            BlendMode::Exclusion => "Exclusion",
            BlendMode::Subtract => "Subtract",
            BlendMode::Divide => "Divide",
            BlendMode::Hue => "Hue",
            BlendMode::Saturation => "Saturation",
            BlendMode::Color => "Color",
            BlendMode::Luminosity => "Luminosity",
        }
    }
}

} // verus!
