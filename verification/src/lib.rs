//! A grid ray caster in integer arithmetic: a tile map and a player pose go in,
//! one wall hit per screen column, a painted pixel buffer and a top-down minimap
//! come out.

pub mod app;
pub mod approach;
pub mod cast;
pub mod colorbuffer;
pub mod enclosure;
pub mod error;
pub mod game;
pub mod geometry;
pub mod input;
pub mod minimap;
pub mod player;
pub mod projection;
pub mod ray;
pub mod render;
pub mod timekeeper;
pub mod trig;
pub mod update;
pub mod window;
