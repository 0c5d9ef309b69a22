//! The authoritative model of the world.

pub mod map_builder;
pub mod world;
