//! Raster tiles cut from one vector scene whose stroke colours can be changed
//! while tiles are being served.
//!
//! The crate holds the rules of such a service; reading files, listening on a
//! socket and rasterising belong to the program around it.

pub mod access;
pub mod color;
pub mod mutation;
pub mod render;
pub mod scene;
pub mod style;
pub mod tile;
