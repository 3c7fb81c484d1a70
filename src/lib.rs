//! Seamless procedural textures and their layered composition.
//!
//! This crate holds the integer side of the texture engine: raster areas and
//! pixel addressing, the tile roll, the generator catalogue and its properties,
//! the sampling of every enumerated method tag, the fill schedule of the range
//! fractal and the checks of the layer compositor.
pub mod types;
pub mod game;
pub mod generators;
pub mod layers;
