//! The blend-mode formula library and the alpha-compositing envelope.

pub mod color;
pub mod color_per_channel;
pub mod fns;

pub use fns::{blend_normal, blend_dissolve, blend_pixels};
