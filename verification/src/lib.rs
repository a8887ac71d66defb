//! Compositing of one raster image onto another with selectable blend modes.
//!
//! Pixel channels are normalized to a fixed-point unit scale (see [`fixed::ONE`]):
//! a channel value `c` stands for the real number `c / ONE` in `[0, 1]`. All
//! blend arithmetic is exact integer arithmetic on that scale, with truncating
//! division, so every formula has a precise mathematical contract.

pub mod fixed;
pub mod blend_mode;
pub mod blend;
pub mod pixel;
pub mod rng;
pub mod raster;
pub mod overlay;
pub mod laws;

pub use blend_mode::BlendMode;
pub use pixel::{AsRgba, NormRgba, Rgb8, Rgba8, Luma8, LumaA8, Rgb16, Rgba16, Luma16, LumaA16,
    RgbaUnit};
pub use raster::Image;
pub use overlay::{overlay, overlay_bounds_ext};
