//! Chunked 2D tilemaps: storage model, draw ordering and draw payloads.
pub mod draw_data;
pub mod extract;
pub mod feature;
pub mod order;
pub mod types;
