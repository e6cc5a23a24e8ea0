use vstd::prelude::*;

verus! {

/// Side length, in tiles, of one square tilemap chunk.
pub const TILEMAP_CHUNK_SIZE: u32 = 32;

/// Projection a tilemap is laid out in.
#[derive(Clone, Copy, Debug, PartialEq, Eq, Structural)]
pub enum TilemapOrientation {
    Orthogonal,
    Isometric,
    Staggered,
    Hexagonal,
}

/// Order in which Tiled draws the cells of a map.
#[derive(Clone, Copy, Debug, PartialEq, Eq, Structural)]
pub enum TilemapRenderOrder {
    RightDown,
    RightUp,
    LeftDown,
    LeftUp,
}

/// Axis along which staggered and hexagonal maps shift every other row or column.
#[derive(Clone, Copy, Debug, PartialEq, Eq, Structural)]
pub enum TilemapStaggerAxis {
    X,
    Y,
}

/// Which rows or columns a staggered map shifts.
#[derive(Clone, Copy, Debug, PartialEq, Eq, Structural)]
pub enum TilemapStaggerIndex {
    Odd,
    Even,
}

impl TilemapStaggerIndex {
    /// The other parity.
    pub fn inverted(self) -> (r: TilemapStaggerIndex)
        ensures
            r != self,
    {
        match self {
            TilemapStaggerIndex::Odd => TilemapStaggerIndex::Even,
            TilemapStaggerIndex::Even => TilemapStaggerIndex::Odd,
        }
    }
}

/// How tiles of different layers are ordered when drawn.
#[derive(Clone, Copy, Debug, PartialEq, Eq, Structural)]
pub enum TilemapDepthSort {
    /// Whole layers are drawn one after the other.
    Layer,
    /// Cells are drawn in map order, the layers of one cell one after the other.
    YThenLayer,
}

/// Index of a tile inside its tileset.
#[derive(Clone, Copy, Debug, PartialEq, Eq, Structural)]
pub struct TileId(pub u32);

/// Flip flags of one placed tile.
#[derive(Clone, Copy, Debug, PartialEq, Eq, Structural)]
pub struct TileFlags {
    pub bits: u8,
}

/// Bit of [`TileFlags`] for a horizontal flip.
pub const TILE_FLIP_X: u8 = 1;

/// Bit of [`TileFlags`] for a vertical flip.
pub const TILE_FLIP_Y: u8 = 2;

/// Bit of [`TileFlags`] for a diagonal flip.
pub const TILE_FLIP_DIAGONAL: u8 = 4;

impl TileFlags {
    pub fn empty() -> (r: TileFlags)
        ensures
            r.bits == 0,
    {
        TileFlags { bits: 0 }
    }

    /// Whether every bit of `other` is set in `self`.
    pub fn contains(self, other: TileFlags) -> (r: bool)
        ensures
            r == (self.bits & other.bits == other.bits),
    {
        self.bits & other.bits == other.bits
    }
}

/// One placed tile.
#[derive(Clone, Copy, Debug, PartialEq, Eq, Structural)]
pub struct Tile {
    pub id: TileId,
    pub flags: TileFlags,
}

impl Tile {
    pub fn new(id: TileId) -> (r: Tile)
        ensures
            r.id == id,
            r.flags.bits == 0,
    {
        Tile { id, flags: TileFlags::empty() }
    }

    pub fn with_flags(self, flags: TileFlags) -> (r: Tile)
        ensures
            r.id == self.id,
            r.flags == flags,
    {
        Tile { id: self.id, flags }
    }
}

/// A rectangle of cells inside a tilemap.
#[derive(Clone, Copy, Debug, PartialEq, Eq, Structural)]
pub struct TileChunkBounds {
    pub x: u32,
    pub y: u32,
    pub width: u32,
    pub height: u32,
}

/// Pixel rectangle of one tile inside a tileset image.
#[derive(Clone, Copy, Debug, PartialEq, Eq, Structural)]
pub struct TilesetTileRect {
    pub x: u32,
    pub y: u32,
    pub width: u32,
    pub height: u32,
}

impl TilesetTileRect {
    pub fn size(self) -> (r: [u32; 2])
        ensures
            r[0] == self.width,
            r[1] == self.height,
    {
        [self.width, self.height]
    }
}

/// One frame of a tile animation: the tile shown and for how long.
#[derive(Clone, Copy, Debug, PartialEq, Eq, Structural)]
pub struct TileAnimationFrame {
    pub tile_id: TileId,
    pub duration_ms: u32,
}

/// The frames that animate one tile of a tileset.
#[derive(Clone, Debug)]
pub struct TileAnimation {
    pub tile_id: TileId,
    pub frames: Vec<TileAnimationFrame>,
}

/// Size of a tilemap: its cells and its layers, split into square chunks.
#[derive(Clone, Copy, Debug, PartialEq, Eq, Structural)]
pub struct Tilemap {
    pub width: u32,
    pub height: u32,
    pub layer_count: u32,
}

pub open spec fn chunk_count_for(cells: int) -> int {
    (cells + TILEMAP_CHUNK_SIZE - 1) / (TILEMAP_CHUNK_SIZE as int)
}

impl Tilemap {
    pub fn new(width: u32, height: u32, layer_count: u32) -> (r: Tilemap)
        ensures
            r.width == width,
            r.height == height,
            r.layer_count == layer_count,
    {
        Tilemap { width, height, layer_count }
    }

    pub fn width(&self) -> (r: u32)
        ensures
            r == self.width,
    {
        self.width
    }

    pub fn height(&self) -> (r: u32)
        ensures
            r == self.height,
    {
        self.height
    }

    pub fn layer_count(&self) -> (r: u32)
        ensures
            r == self.layer_count,
    {
        self.layer_count
    }

    /// Number of chunk columns: the width divided by the chunk size, rounded up.
    pub fn chunk_columns(&self) -> (r: u32)
        ensures
            r == chunk_count_for(self.width as int),
    {
        let full = self.width / TILEMAP_CHUNK_SIZE;
        if self.width % TILEMAP_CHUNK_SIZE == 0 {
            full
        } else {
            full + 1
        }
    }

    /// Number of chunk rows: the height divided by the chunk size, rounded up.
    pub fn chunk_rows(&self) -> (r: u32)
        ensures
            r == chunk_count_for(self.height as int),
    {
        let full = self.height / TILEMAP_CHUNK_SIZE;
        if self.height % TILEMAP_CHUNK_SIZE == 0 {
            full
        } else {
            full + 1
        }
    }
}

/// Draw settings of a tilemap that decide the order its tiles are drawn in.
#[derive(Clone, Copy, Debug, PartialEq, Eq, Structural)]
pub struct TilemapRenderer {
    pub orientation: TilemapOrientation,
    pub render_order: TilemapRenderOrder,
    pub depth_sort: TilemapDepthSort,
}

impl TilemapRenderer {
    /// An orthogonal renderer drawing right-down, layer by layer.
    pub fn new() -> (r: TilemapRenderer)
        ensures
            r.orientation == TilemapOrientation::Orthogonal,
            r.render_order == TilemapRenderOrder::RightDown,
            r.depth_sort == TilemapDepthSort::Layer,
    {
        TilemapRenderer {
            orientation: TilemapOrientation::Orthogonal,
            render_order: TilemapRenderOrder::RightDown,
            depth_sort: TilemapDepthSort::Layer,
        }
    }

    pub fn orientation(self, orientation: TilemapOrientation) -> (r: TilemapRenderer)
        ensures
            r == (TilemapRenderer { orientation, ..self }),
    {
        TilemapRenderer { orientation, ..self }
    }

    pub fn render_order(self, render_order: TilemapRenderOrder) -> (r: TilemapRenderer)
        ensures
            r == (TilemapRenderer { render_order, ..self }),
    {
        TilemapRenderer { render_order, ..self }
    }

    pub fn depth_sort(self, depth_sort: TilemapDepthSort) -> (r: TilemapRenderer)
        ensures
            r == (TilemapRenderer { depth_sort, ..self }),
    {
        TilemapRenderer { depth_sort, ..self }
    }
}

} // verus!
