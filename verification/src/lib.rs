//! Verified core logic of a 2D/3D render engine: Tiled map import, tilemap
//! ordering, GI resource planning and frame bookkeeping.
pub mod tiled;
pub mod tilemap;
pub mod gi;
pub mod live2d;
pub mod text;
pub mod mesh;
pub mod prepass;
pub mod pipeline;
pub mod sprite;
pub mod frame;
pub mod ecs;
pub mod fullscreen;
