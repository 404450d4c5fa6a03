//! Integer core of a small software 3D renderer for 16-bit framebuffers.
//!
//! The crate holds the parts of the pipeline that work on whole numbers:
//! mesh topology and its validation, the assembly of screen-space draw
//! primitives from already projected vertices, the rasterizer, and the
//! framebuffer the rasterizer writes into. A counter of frame time comes
//! with it.

pub mod color;
pub mod mesh;
pub mod engine;
pub mod framebuffer;
pub mod draw;
pub mod perfcounter;

pub use crate::engine::{DrawPrimitive, K3dengine, Point2, Projection};
