//! Rendering-side state of a tile-grid game client.
//!
//! The world is a stack of square regions of blocks that advances in ticks.
//! This crate keeps a renderable form of the regions in view, rebuilds it only
//! when the world has changed underneath it, and turns it into draw requests
//! placed on screen by a camera.

pub mod event;
pub mod gfx;
pub mod state;
pub mod util;
