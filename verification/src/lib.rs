//! Verified core of a procedural solar-system renderer.
//!
//! The crate owns the integer side of the pipeline: packed colour words and
//! channel blending, the base palettes of the planet shader, a framebuffer
//! with exactly specified raster operations for the star, the orbit rings
//! and a planet's ring, and the command list of the scene. The
//! floating-point surface shader and the window loop live in the
//! surrounding application, which drives this crate pixel by pixel.

pub mod color;
pub mod palette;
pub mod shape;
pub mod framebuffer;
pub mod scene;
