//! Tiled (mapeditor.org) map import: tile data decoding, layer splitting,
//! map attributes and collision shapes.
pub mod atlas;
pub mod collection;
pub mod color;
pub mod data;
pub mod error;
pub mod grid;
pub mod import;
pub mod layer;
pub mod parse;
pub mod physics;
pub mod properties;
pub mod tileset;
pub mod tmx;
pub mod tmx_tileset;
pub mod types;
pub mod xml;
