//! Everything between the world model and the draw surface.

pub mod cache_laws;
pub mod camera;
pub mod draw;
pub mod glyph_gfx;
pub mod gpu_context;
pub mod world_renderer;
