use crate::tilemap::types::TileFlags;
use crate::tilemap::types::TileId;
use crate::tilemap::types::TilesetTileRect;
use vstd::prelude::*;

verus! {

/// A tile placed as an object: which tileset, which tile, which flips.
#[derive(Clone, Copy, Debug, PartialEq, Eq, Structural)]
pub struct TiledTileObject {
    pub tileset_index: usize,
    pub tile_id: TileId,
    pub flags: TileFlags,
}

/// Per-tile source image of an image collection tileset packed into an
/// atlas: the image's path and the tile's rectangle in the atlas.
#[derive(Debug)]
pub struct TiledTilesetImageSource {
    pub image: String,
    pub source_rect: TilesetTileRect,
}

} // verus!
