//! Pixel rules for an animated noise field: a sparse lattice of highlight
//! dots whose intensity follows a noise level, on an opaque black ground,
//! assembled into a row-major RGBA8 frame buffer.

pub mod frame;
pub mod pixel;

pub use frame::compose_frame;
pub use pixel::{level_byte, on_dot_lattice, pixel_color, Rgba};
