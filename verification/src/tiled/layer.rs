use crate::tiled::error::TiledImportError;
use crate::tiled::types::TiledTilesetImageSource;
use crate::tilemap::types::TileAnimation;
use crate::tilemap::types::TileAnimationFrame;
use crate::tiled::tileset::source_view;
use crate::tiled::tmx_tileset::animation_view;
use crate::tiled::tmx_tileset::animations_view;
use crate::tilemap::types::Tile;
use crate::tilemap::types::TileFlags;
use crate::tilemap::types::TileId;
use crate::tilemap::types::TilemapDepthSort;
use crate::tilemap::types::TilemapOrientation;
use crate::tilemap::types::TilesetTileRect;
use crate::tilemap::types::TILE_FLIP_DIAGONAL;
use crate::tilemap::types::TILE_FLIP_X;
use crate::tilemap::types::TILE_FLIP_Y;
use vstd::prelude::*;

verus! {

/// Tiled stores a horizontal flip in the highest bit of a global tile id.
pub const FLIPPED_HORIZONTALLY_FLAG: u32 = 0x8000_0000;

/// Tiled stores a vertical flip in the second highest bit of a global tile id.
pub const FLIPPED_VERTICALLY_FLAG: u32 = 0x4000_0000;

/// Tiled stores an anti-diagonal flip in the third highest bit of a global tile id.
pub const FLIPPED_DIAGONALLY_FLAG: u32 = 0x2000_0000;

/// Hexagonal maps store a 120 degree rotation in the fourth highest bit.
pub const ROTATED_HEXAGONAL_120_FLAG: u32 = 0x1000_0000;

/// Mask that keeps the tile id bits of a global tile id.
pub const GID_MASK: u32 = 0x0fff_ffff;

/// The tile id bits of a raw global tile id (all flag bits cleared).
pub open spec fn spec_gid_without_flags(gid: u32) -> u32 {
    gid & GID_MASK
}

pub fn gid_without_flags(gid: u32) -> (r: u32)
    ensures
        r == spec_gid_without_flags(gid),
        r < 0x1000_0000,
{
    assert(gid & 0x0fff_ffffu32 < 0x1000_0000u32) by (bit_vector);
    gid & GID_MASK
}

/// The flip flags that the high bits of a raw global tile id carry.
pub open spec fn spec_tile_flags_from_gid(gid: u32) -> u8 {
    ((if gid & FLIPPED_HORIZONTALLY_FLAG != 0 {
        TILE_FLIP_X
    } else {
        0u8
    }) + (if gid & FLIPPED_VERTICALLY_FLAG != 0 {
        TILE_FLIP_Y
    } else {
        0u8
    }) + (if gid & FLIPPED_DIAGONALLY_FLAG != 0 {
        TILE_FLIP_DIAGONAL
    } else {
        0u8
    })) as u8
}

pub fn tile_flags_from_gid(gid: u32) -> (r: TileFlags)
    ensures
        r.bits == spec_tile_flags_from_gid(gid),
{
    let mut bits: u8 = 0;
    if gid & FLIPPED_HORIZONTALLY_FLAG != 0 {
        bits = bits + TILE_FLIP_X;
    }
    if gid & FLIPPED_VERTICALLY_FLAG != 0 {
        bits = bits + TILE_FLIP_Y;
    }
    if gid & FLIPPED_DIAGONALLY_FLAG != 0 {
        bits = bits + TILE_FLIP_DIAGONAL;
    }
    TileFlags { bits }
}

/// Tileset metadata imported from Tiled.
#[derive(Debug)]
pub struct TiledTileset {
    pub first_gid: u32,
    pub image: String,
    pub tile_size: [u32; 2],
    pub columns: u32,
    pub rows: u32,
    pub tile_count: u32,
    pub image_size: [u32; 2],
    pub margin: u32,
    pub spacing: u32,
    pub tile_rects: Vec<Option<TilesetTileRect>>,
    pub tile_images: Vec<Option<TiledTilesetImageSource>>,
    pub tile_offset: [i32; 2],
    pub animations: Vec<TileAnimation>,
    pub transparent_color: Option<[u8; 3]>,
}

/// `a` holds the same tileset as `b`, field by field.
pub open spec fn same_tileset(a: TiledTileset, b: TiledTileset) -> bool {
    &&& a.first_gid == b.first_gid
    &&& a.image@ == b.image@
    &&& a.tile_size == b.tile_size
    &&& a.columns == b.columns
    &&& a.rows == b.rows
    &&& a.tile_count == b.tile_count
    &&& a.image_size == b.image_size
    &&& a.margin == b.margin
    &&& a.spacing == b.spacing
    &&& a.tile_rects@ == b.tile_rects@
    &&& a.tile_images@.map_values(|s: Option<TiledTilesetImageSource>| source_view(s))
        == b.tile_images@.map_values(|s: Option<TiledTilesetImageSource>| source_view(s))
    &&& a.tile_offset == b.tile_offset
    &&& animations_view(a.animations@) == animations_view(b.animations@)
    &&& a.transparent_color == b.transparent_color
}

impl TiledTileset {
    /// A copy of this tileset.
    pub fn duplicate(&self) -> (r: TiledTileset)
        ensures
            same_tileset(r, *self),
    {
        let mut tile_rects: Vec<Option<TilesetTileRect>> = Vec::new();
        let mut i: usize = 0;
        while i < self.tile_rects.len()
            invariant
                i <= self.tile_rects@.len(),
                tile_rects@ == self.tile_rects@.take(i as int),
            decreases self.tile_rects.len() - i,
        {
            tile_rects.push(self.tile_rects[i]);
            assert(self.tile_rects@.take(i + 1) == self.tile_rects@.take(i as int).push(self.tile_rects@[i as int]));
            i = i + 1;
        }
        assert(self.tile_rects@.take(i as int) =~= self.tile_rects@);
        let mut tile_images: Vec<Option<TiledTilesetImageSource>> = Vec::new();
        let mut j: usize = 0;
        while j < self.tile_images.len()
            invariant
                j <= self.tile_images@.len(),
                tile_images@.len() == j,
                forall|k: int| 0 <= k < j ==> source_view(#[trigger] tile_images@[k]) == source_view(self.tile_images@[k]),
            decreases self.tile_images.len() - j,
        {
            let copy = match &self.tile_images[j] {
                Some(src) => Some(TiledTilesetImageSource { image: src.image.clone(), source_rect: src.source_rect }),
                None => None,
            };
            tile_images.push(copy);
            j = j + 1;
        }
        assert(tile_images@.map_values(|s: Option<TiledTilesetImageSource>| source_view(s))
            =~= self.tile_images@.map_values(|s: Option<TiledTilesetImageSource>| source_view(s)));
        let mut animations: Vec<TileAnimation> = Vec::new();
        let mut a: usize = 0;
        while a < self.animations.len()
            invariant
                a <= self.animations@.len(),
                animations@.len() == a,
                forall|k: int| 0 <= k < a ==> animation_view(#[trigger] animations@[k]) == animation_view(self.animations@[k]),
            decreases self.animations.len() - a,
        {
            let source = &self.animations[a];
            let mut frames: Vec<TileAnimationFrame> = Vec::new();
            let mut f: usize = 0;
            while f < source.frames.len()
                invariant
                    f <= source.frames@.len(),
                    frames@ == source.frames@.take(f as int),
                decreases source.frames.len() - f,
            {
                frames.push(source.frames[f]);
                assert(source.frames@.take(f + 1) == source.frames@.take(f as int).push(source.frames@[f as int]));
                f = f + 1;
            }
            assert(source.frames@.take(f as int) =~= source.frames@);
            animations.push(TileAnimation { tile_id: source.tile_id, frames });
            a = a + 1;
        }
        assert(animations_view(animations@) =~= animations_view(self.animations@));
        TiledTileset {
            first_gid: self.first_gid,
            image: self.image.clone(),
            tile_size: self.tile_size,
            columns: self.columns,
            rows: self.rows,
            tile_count: self.tile_count,
            image_size: self.image_size,
            margin: self.margin,
            spacing: self.spacing,
            tile_rects,
            tile_images,
            tile_offset: self.tile_offset,
            animations,
            transparent_color: self.transparent_color,
        }
    }

    /// The size tile `tile_id` is drawn at: its own rectangle's size where the
    /// tileset has per-tile rectangles and one for this tile, else the
    /// tileset's tile size.
    pub fn tile_draw_size(&self, tile_id: TileId) -> (r: [u32; 2])
        ensures
            r == if self.tile_rects@.len() > 0 && tile_id.0 < self.tile_rects@.len()
                && self.tile_rects@[tile_id.0 as int] is Some {
                [
                    self.tile_rects@[tile_id.0 as int]->0.width,
                    self.tile_rects@[tile_id.0 as int]->0.height,
                ]
            } else {
                self.tile_size
            },
    {
        let id = tile_id.0 as usize;
        if self.tile_rects.len() > 0 && id < self.tile_rects.len() {
            match self.tile_rects[id] {
                Some(rect) => rect.size(),
                None => self.tile_size,
            }
        } else {
            self.tile_size
        }
    }
}

/// `gid` lies in the id range of `tileset`: from its first gid for its
/// tile count (the range end saturating).
pub open spec fn spec_gid_in_tileset(gid: u32, tileset: TiledTileset) -> bool {
    gid >= tileset.first_gid && gid < (if tileset.first_gid + tileset.tile_count <= u32::MAX {
        tileset.first_gid + tileset.tile_count
    } else {
        u32::MAX as int
    })
}

pub fn gid_in_tileset(gid: u32, tileset: &TiledTileset) -> (r: bool)
    ensures
        r == spec_gid_in_tileset(gid, *tileset),
{
    gid >= tileset.first_gid && gid < tileset.first_gid.saturating_add(tileset.tile_count)
}

/// Index of the first of `tilesets` that holds `gid`.
pub open spec fn first_tileset_for(gid: u32, tilesets: Seq<TiledTileset>) -> Option<int>
    decreases tilesets.len(),
{
    if tilesets.len() == 0 {
        None
    } else {
        match first_tileset_for(gid, tilesets.drop_last()) {
            Some(i) => Some(i),
            None => if spec_gid_in_tileset(gid, tilesets.last()) {
                Some(tilesets.len() - 1)
            } else {
                None
            },
        }
    }
}

pub proof fn lemma_first_tileset_for(gid: u32, tilesets: Seq<TiledTileset>)
    ensures
        match first_tileset_for(gid, tilesets) {
            Some(i) => 0 <= i < tilesets.len() && spec_gid_in_tileset(gid, tilesets[i]) && forall|
                j: int,
            | 0 <= j < i ==> !spec_gid_in_tileset(gid, #[trigger] tilesets[j]),
            None => forall|j: int|
                0 <= j < tilesets.len() ==> !spec_gid_in_tileset(gid, #[trigger] tilesets[j]),
        },
    decreases tilesets.len(),
{
    if tilesets.len() > 0 {
        let prev = tilesets.drop_last();
        lemma_first_tileset_for(gid, prev);
        assert forall|j: int| 0 <= j < prev.len() implies prev[j] == tilesets[j] by {}
    }
}

/// The first tileset that holds `gid`.
pub fn tileset_index_for_gid(gid: u32, tilesets: &Vec<TiledTileset>) -> (r: Result<
    usize,
    TiledImportError,
>)
    ensures
        match r {
            Ok(i) => first_tileset_for(gid, tilesets@) == Some(i as int),
            Err(e) => first_tileset_for(gid, tilesets@) is None && e == (
            TiledImportError::TileGidOutOfRange { gid }),
        },
{
    let mut i: usize = 0;
    assert(tilesets@.take(0) =~= Seq::<TiledTileset>::empty());
    while i < tilesets.len()
        invariant
            i <= tilesets.len(),
            first_tileset_for(gid, tilesets@.take(i as int)) is None,
        decreases tilesets.len() - i,
    {
        assert(tilesets@.take(i + 1).drop_last() =~= tilesets@.take(i as int));
        assert(tilesets@.take(i + 1).last() == tilesets@[i as int]);
        if gid_in_tileset(gid, &tilesets[i]) {
            proof {
                lemma_first_tileset_prefix(gid, tilesets@, i as int + 1);
            }
            return Ok(i);
        }
        i = i + 1;
    }
    assert(tilesets@.take(i as int) =~= tilesets@);
    Err(TiledImportError::TileGidOutOfRange { gid })
}

proof fn lemma_first_tileset_prefix(gid: u32, tilesets: Seq<TiledTileset>, k: int)
    requires
        0 <= k <= tilesets.len(),
        first_tileset_for(gid, tilesets.take(k)) is Some,
    ensures
        first_tileset_for(gid, tilesets) == first_tileset_for(gid, tilesets.take(k)),
    decreases tilesets.len(),
{
    if k == tilesets.len() {
        assert(tilesets.take(k) =~= tilesets);
    } else {
        let t = tilesets.drop_last();
        assert(tilesets.take(k) =~= t.take(k));
        lemma_first_tileset_prefix(gid, t, k);
    }
}

/// One tile cell of a Tiled layer, in Tiled's cell coordinates.
#[derive(Clone, Copy, Debug, PartialEq, Eq, Structural)]
pub struct RawCell {
    pub x: i32,
    pub y: i32,
    pub gid: u32,
}

/// Engine position of a Tiled cell: Tiled's rows count down from the top,
/// the engine's up from the bottom; isometric maps also swap the axes.
pub open spec fn spec_cell_position(
    cell: RawCell,
    orientation: TilemapOrientation,
    origin: (i32, i32),
    tilemap_width: u32,
    tilemap_height: u32,
) -> (int, int) {
    let x = (cell.x - origin.0) as u32;
    let tiled_y = (cell.y - origin.1) as u32;
    let flip = |n: u32, v: u32| if n >= 1 && n - 1 >= v {
        n - 1 - v
    } else {
        0
    };
    if orientation == TilemapOrientation::Isometric {
        (flip(tilemap_height, tiled_y), flip(tilemap_width, x))
    } else {
        (x as int, flip(tilemap_height, tiled_y))
    }
}

/// The tile of a non-empty cell in `tileset` (its id relative to the
/// tileset's first gid, its flip flags) at its engine position.
pub open spec fn spec_decoded_tile(
    cell: RawCell,
    tileset: TiledTileset,
    orientation: TilemapOrientation,
    origin: (i32, i32),
    tilemap_width: u32,
    tilemap_height: u32,
) -> (Tile, u32, u32) {
    let position = spec_cell_position(cell, orientation, origin, tilemap_width, tilemap_height);
    (
        Tile {
            id: TileId((spec_gid_without_flags(cell.gid) - tileset.first_gid) as u32),
            flags: TileFlags { bits: spec_tile_flags_from_gid(cell.gid) },
        },
        position.0 as u32,
        position.1 as u32,
    )
}

fn flip_axis(n: u32, v: u32) -> (r: u32)
    ensures
        r == (if n >= 1 && n - 1 >= v {
            n - 1 - v
        } else {
            0
        }),
{
    n.saturating_sub(1).saturating_sub(v)
}

/// Decodes one Tiled cell of a layer that uses `tileset`: empty cells give
/// nothing; other cells give the tile (id relative to the tileset, flip
/// flags from the gid) and its engine position.
pub fn decode_cell(
    cell: RawCell,
    tileset: &TiledTileset,
    orientation: TilemapOrientation,
    origin: (i32, i32),
    tilemap_width: u32,
    tilemap_height: u32,
) -> (r: Result<Option<(Tile, u32, u32)>, TiledImportError>)
    requires
        i32::MIN <= cell.x - origin.0 <= i32::MAX,
        i32::MIN <= cell.y - origin.1 <= i32::MAX,
    ensures
        spec_gid_without_flags(cell.gid) == 0 ==> r matches Ok(None),
        spec_gid_without_flags(cell.gid) != 0 && !spec_gid_in_tileset(
            spec_gid_without_flags(cell.gid),
            *tileset,
        ) ==> (r matches Err(TiledImportError::TileGidOutOfRange { gid }) && gid
            == spec_gid_without_flags(cell.gid)),
        spec_gid_without_flags(cell.gid) != 0 && spec_gid_in_tileset(
            spec_gid_without_flags(cell.gid),
            *tileset,
        ) ==> (r matches Ok(Some(placed)) && placed == spec_decoded_tile(
            cell,
            *tileset,
            orientation,
            origin,
            tilemap_width,
            tilemap_height,
        )),
{
    let gid = gid_without_flags(cell.gid);
    if gid == 0 {
        return Ok(None);
    }
    if !gid_in_tileset(gid, tileset) {
        return Err(TiledImportError::TileGidOutOfRange { gid });
    }
    let flags = tile_flags_from_gid(cell.gid);
    let x = (cell.x - origin.0) as u32;
    let tiled_y = (cell.y - origin.1) as u32;
    let (x, y) = match orientation {
        TilemapOrientation::Isometric => (
            flip_axis(tilemap_height, tiled_y),
            flip_axis(tilemap_width, x),
        ),
        _ => (x, flip_axis(tilemap_height, tiled_y)),
    };
    let tile = Tile::new(TileId(gid - tileset.first_gid)).with_flags(flags);
    Ok(Some((tile, x, y)))
}

/// A parsed Tiled tile layer: its name, its place among the map's layers,
/// whether it is visible, and its cells.
#[derive(Debug)]
pub struct ParsedLayer {
    pub name: String,
    pub source_order: i32,
    pub visible: bool,
    pub cells: Vec<RawCell>,
}

/// Some layer of `layers` has some cell.
pub open spec fn has_cells(layers: Seq<ParsedLayer>) -> bool {
    exists|l: int| 0 <= l < layers.len() && (#[trigger] layers[l]).cells@.len() > 0
}

/// Every cell of `layers` has an `x` of at least `v`.
pub open spec fn all_x_at_least(layers: Seq<ParsedLayer>, v: int) -> bool {
    forall|l: int, c: int|
        0 <= l < layers.len() && 0 <= c < layers[l].cells@.len() ==> v <= (
        #[trigger] layers[l].cells@[c]).x
}

/// The bounds of an imported map: finite maps use their size (at least 1 by
/// 1) from the origin; infinite maps span their cells from the smallest cell
/// coordinates, or 1 by 1 at the origin when they have none.
pub open spec fn is_tilemap_bounds(
    infinite: bool,
    width: u32,
    height: u32,
    layers: Seq<ParsedLayer>,
    r: ((i32, i32), u32, u32),
) -> bool {
    if !infinite {
        r.0 == (0i32, 0i32) && r.1 == (if width >= 1 {
            width
        } else {
            1
        }) && r.2 == (if height >= 1 {
            height
        } else {
            1
        })
    } else if !has_cells(layers) {
        r.0 == (0i32, 0i32) && r.1 == 1 && r.2 == 1
    } else {
        let max_x = r.0.0 + r.1 - 1;
        let max_y = r.0.1 + r.2 - 1;
        &&& forall|l: int, c: int|
            0 <= l < layers.len() && 0 <= c < layers[l].cells@.len() ==> r.0.0 <= (
            #[trigger] layers[l].cells@[c]).x <= max_x && r.0.1 <= layers[l].cells@[c].y <= max_y
        &&& exists|l: int, c: int|
            0 <= l < layers.len() && 0 <= c < layers[l].cells@.len() && (
            #[trigger] layers[l].cells@[c]).x == r.0.0
        &&& exists|l: int, c: int|
            0 <= l < layers.len() && 0 <= c < layers[l].cells@.len() && (
            #[trigger] layers[l].cells@[c]).y == r.0.1
        &&& exists|l: int, c: int|
            0 <= l < layers.len() && 0 <= c < layers[l].cells@.len() && (
            #[trigger] layers[l].cells@[c]).x == max_x
        &&& exists|l: int, c: int|
            0 <= l < layers.len() && 0 <= c < layers[l].cells@.len() && (
            #[trigger] layers[l].cells@[c]).y == max_y
    }
}

/// Cell `c` of layer `l` comes before position `(lp, cp)` of a layer-major walk.
pub open spec fn walked(layers: Seq<ParsedLayer>, lp: int, cp: int, l: int, c: int) -> bool {
    0 <= l < layers.len() && 0 <= c < layers[l].cells@.len() && (l < lp || (l == lp && c < cp))
}

pub open spec fn extent_holds(
    layers: Seq<ParsedLayer>,
    lp: int,
    cp: int,
    found: bool,
    min_x: int,
    min_y: int,
    max_x: int,
    max_y: int,
    w: Seq<(int, int)>,
) -> bool {
    &&& !found ==> forall|l: int, c: int| !(#[trigger] walked(layers, lp, cp, l, c))
    &&& found ==> forall|l: int, c: int|
        walked(layers, lp, cp, l, c) ==> min_x <= (#[trigger] layers[l].cells@[c]).x <= max_x
            && min_y <= layers[l].cells@[c].y <= max_y
    &&& found ==> w.len() == 4 && walked(layers, lp, cp, w[0].0, w[0].1) && layers[w[0].0].cells@[w[0].1].x == min_x
        && walked(layers, lp, cp, w[1].0, w[1].1) && layers[w[1].0].cells@[w[1].1].y == min_y
        && walked(layers, lp, cp, w[2].0, w[2].1) && layers[w[2].0].cells@[w[2].1].x == max_x
        && walked(layers, lp, cp, w[3].0, w[3].1) && layers[w[3].0].cells@[w[3].1].y == max_y
}

/// Bounds of an imported map. Finite maps keep their size (at least 1 by
/// 1) at the origin; infinite maps span their cells.
pub fn tilemap_bounds(infinite: bool, width: u32, height: u32, layers: &Vec<ParsedLayer>) -> (r: (
    (i32, i32),
    u32,
    u32,
))
    requires
        infinite ==> forall|l1: int, c1: int, l2: int, c2: int|
            0 <= l1 < layers@.len() && 0 <= c1 < layers@[l1].cells@.len() && 0 <= l2
                < layers@.len() && 0 <= c2 < layers@[l2].cells@.len() ==> (
            #[trigger] layers@[l1].cells@[c1]).x - (#[trigger] layers@[l2].cells@[c2]).x
                < i32::MAX && layers@[l1].cells@[c1].y - layers@[l2].cells@[c2].y < i32::MAX,
    ensures
        is_tilemap_bounds(infinite, width, height, layers@, r),
{
    if !infinite {
        return ((0, 0), if width >= 1 {
            width
        } else {
            1
        }, if height >= 1 {
            height
        } else {
            1
        });
    }
    let mut found = false;
    let mut min_x: i32 = i32::MAX;
    let mut min_y: i32 = i32::MAX;
    let mut max_x: i32 = i32::MIN;
    let mut max_y: i32 = i32::MIN;
    let ghost mut w: Seq<(int, int)> = seq![(0int, 0int), (0int, 0int), (0int, 0int), (0int, 0int)];
    let mut l: usize = 0;
    while l < layers.len()
        invariant
            l <= layers.len(),
            extent_holds(layers@, l as int, 0, found, min_x as int, min_y as int, max_x as int, max_y as int, w),
        decreases layers.len() - l,
    {
        let cells = &layers[l].cells;
        let mut c: usize = 0;
        while c < cells.len()
            invariant
                l < layers.len(),
                cells == layers@[l as int].cells,
                c <= cells.len(),
                extent_holds(layers@, l as int, c as int, found, min_x as int, min_y as int, max_x as int, max_y as int, w),
            decreases cells.len() - c,
        {
            let cell = cells[c];
            proof {
                assert(walked(layers@, l as int, c as int + 1, l as int, c as int));
            }
            if !found {
                min_x = cell.x;
                min_y = cell.y;
                max_x = cell.x;
                max_y = cell.y;
                found = true;
                proof {
                    w = seq![(l as int, c as int), (l as int, c as int), (l as int, c as int), (l as int, c as int)];
                    assert forall|l2: int, c2: int|
                        walked(layers@, l as int, c as int + 1, l2, c2) implies min_x <= (
                        #[trigger] layers@[l2].cells@[c2]).x <= max_x && min_y
                        <= layers@[l2].cells@[c2].y <= max_y by {
                        if walked(layers@, l as int, c as int, l2, c2) {
                        }
                    }
                }
            } else {
                let ghost old_w = w;
                if cell.x < min_x {
                    min_x = cell.x;
                    proof {
                        w = w.update(0, (l as int, c as int));
                    }
                }
                if cell.y < min_y {
                    min_y = cell.y;
                    proof {
                        w = w.update(1, (l as int, c as int));
                    }
                }
                if cell.x > max_x {
                    max_x = cell.x;
                    proof {
                        w = w.update(2, (l as int, c as int));
                    }
                }
                if cell.y > max_y {
                    max_y = cell.y;
                    proof {
                        w = w.update(3, (l as int, c as int));
                    }
                }
                proof {
                    assert forall|k: int| 0 <= k < 4 implies walked(layers@, l as int, c as int + 1, #[trigger] w[k].0, w[k].1) by {
                        if w[k] != old_w[k] {
                            assert(w[k] == (l as int, c as int));
                        } else {
                            assert(walked(layers@, l as int, c as int, old_w[k].0, old_w[k].1));
                        }
                    }
                    assert(walked(layers@, l as int, c as int + 1, w[0].0, w[0].1));
                    assert(walked(layers@, l as int, c as int + 1, w[1].0, w[1].1));
                    assert(walked(layers@, l as int, c as int + 1, w[2].0, w[2].1));
                    assert(walked(layers@, l as int, c as int + 1, w[3].0, w[3].1));
                }
            }
            c = c + 1;
        }
        proof {
            assert forall|l2: int, c2: int|
                #[trigger] walked(layers@, l as int + 1, 0, l2, c2) == walked(layers@, l as int, cells@.len() as int, l2, c2) by {
            }
        }
        l = l + 1;
    }
    if !found {
        proof {
            if has_cells(layers@) {
                let l2 = choose|l2: int| 0 <= l2 < layers@.len() && (#[trigger] layers@[l2]).cells@.len() > 0;
                assert(walked(layers@, layers@.len() as int, 0, l2, 0));
            }
        }
        return ((0, 0), 1, 1);
    }
    proof {
        let l0 = w[0].0;
        let c0 = w[0].1;
        let l2 = w[2].0;
        let c2 = w[2].1;
        let l1 = w[1].0;
        let c1 = w[1].1;
        let l3 = w[3].0;
        let c3 = w[3].1;
        assert(layers@[l2].cells@[c2].x - layers@[l0].cells@[c0].x < i32::MAX);
        assert(layers@[l3].cells@[c3].y - layers@[l1].cells@[c1].y < i32::MAX);
        assert(walked(layers@, layers@.len() as int, 0, l0, c0));
        assert(has_cells(layers@)) by {
            assert(layers@[l0].cells@.len() > 0);
        }
        assert(exists|l: int, c: int|
            0 <= l < layers@.len() && 0 <= c < layers@[l].cells@.len() && (
            #[trigger] layers@[l].cells@[c]).x == min_x) by {
            assert(layers@[l0].cells@[c0].x == min_x);
        }
        assert(exists|l: int, c: int|
            0 <= l < layers@.len() && 0 <= c < layers@[l].cells@.len() && (
            #[trigger] layers@[l].cells@[c]).y == min_y) by {
            assert(layers@[l1].cells@[c1].y == min_y);
        }
        assert(exists|l: int, c: int|
            0 <= l < layers@.len() && 0 <= c < layers@[l].cells@.len() && (
            #[trigger] layers@[l].cells@[c]).x == max_x) by {
            assert(layers@[l2].cells@[c2].x == max_x);
        }
        assert(exists|l: int, c: int|
            0 <= l < layers@.len() && 0 <= c < layers@[l].cells@.len() && (
            #[trigger] layers@[l].cells@[c]).y == max_y) by {
            assert(layers@[l3].cells@[c3].y == max_y);
        }
    }
    let span_x = max_x - min_x + 1;
    let span_y = max_y - min_y + 1;
    ((min_x, min_y), span_x as u32, span_y as u32)
}

/// The tileset of cell `c`: none for an empty cell, else the first tileset
/// holding its gid (flags cleared).
pub open spec fn cell_tileset(c: RawCell, tilesets: Seq<TiledTileset>) -> Option<int> {
    if spec_gid_without_flags(c.gid) == 0 {
        None
    } else {
        first_tileset_for(spec_gid_without_flags(c.gid), tilesets)
    }
}

/// A non-empty cell whose gid no tileset holds.
pub open spec fn is_bad_cell(c: RawCell, tilesets: Seq<TiledTileset>) -> bool {
    spec_gid_without_flags(c.gid) != 0 && first_tileset_for(
        spec_gid_without_flags(c.gid),
        tilesets,
    ) is None
}

/// The gid of the first cell of `cells` that no tileset holds.
pub open spec fn first_bad_gid(cells: Seq<RawCell>, tilesets: Seq<TiledTileset>) -> Option<u32>
    decreases cells.len(),
{
    if cells.len() == 0 {
        None
    } else {
        match first_bad_gid(cells.drop_last(), tilesets) {
            Some(g) => Some(g),
            None => if is_bad_cell(cells.last(), tilesets) {
                Some(spec_gid_without_flags(cells.last().gid))
            } else {
                None
            },
        }
    }
}

/// The gid of the first cell, layer by layer, that no tileset holds.
pub open spec fn first_bad_gid_in_layers(layers: Seq<ParsedLayer>, tilesets: Seq<TiledTileset>) -> Option<u32>
    decreases layers.len(),
{
    if layers.len() == 0 {
        None
    } else {
        match first_bad_gid_in_layers(layers.drop_last(), tilesets) {
            Some(g) => Some(g),
            None => first_bad_gid(layers.last().cells@, tilesets),
        }
    }
}

/// The cells of `cells` that tileset `t` holds, in order.
pub open spec fn cells_of_tileset(cells: Seq<RawCell>, tilesets: Seq<TiledTileset>, t: int) -> Seq<RawCell>
    decreases cells.len(),
{
    if cells.len() == 0 {
        Seq::empty()
    } else {
        let prev = cells_of_tileset(cells.drop_last(), tilesets, t);
        if cell_tileset(cells.last(), tilesets) == Some(t) {
            prev.push(cells.last())
        } else {
            prev
        }
    }
}

/// One split of a layer: the cells of a source layer that one tileset holds.
pub ghost struct SplitView {
    pub source_layer: int,
    pub tileset_index: int,
    pub split_order: int,
    pub cells: Seq<RawCell>,
}

/// The splits of layer `l` over the tilesets before `t`: one per tileset
/// that holds some of its cells, in tileset order, numbered from 0.
pub open spec fn layer_splits(
    l: int,
    cells: Seq<RawCell>,
    tilesets: Seq<TiledTileset>,
    t: int,
) -> Seq<SplitView>
    decreases t,
{
    if t <= 0 {
        Seq::empty()
    } else {
        let prev = layer_splits(l, cells, tilesets, t - 1);
        let mine = cells_of_tileset(cells, tilesets, t - 1);
        if mine.len() > 0 {
            prev.push(
                SplitView {
                    source_layer: l,
                    tileset_index: t - 1,
                    split_order: prev.len() as int,
                    cells: mine,
                },
            )
        } else {
            prev
        }
    }
}

/// The splits of every layer of `layers`, layer after layer.
pub open spec fn all_splits(layers: Seq<ParsedLayer>, tilesets: Seq<TiledTileset>) -> Seq<SplitView>
    decreases layers.len(),
{
    if layers.len() == 0 {
        Seq::empty()
    } else {
        all_splits(layers.drop_last(), tilesets) + layer_splits(
            layers.len() - 1,
            layers.last().cells@,
            tilesets,
            tilesets.len() as int,
        )
    }
}

/// The cells of one source layer that one tileset holds.
#[derive(Debug)]
pub struct LayerSplit {
    pub source_layer: usize,
    pub tileset_index: usize,
    pub split_order: usize,
    pub cells: Vec<RawCell>,
}

pub open spec fn split_view(s: LayerSplit) -> SplitView {
    SplitView {
        source_layer: s.source_layer as int,
        tileset_index: s.tileset_index as int,
        split_order: s.split_order as int,
        cells: s.cells@,
    }
}

/// The tileset of every cell of `cells`, or the gid of the first cell that
/// no tileset holds.
fn cell_tilesets(cells: &Vec<RawCell>, tilesets: &Vec<TiledTileset>) -> (r: Result<Vec<Option<usize>>, u32>)
    ensures
        match r {
            Ok(ts) => first_bad_gid(cells@, tilesets@) is None && ts@.len() == cells@.len()
                && forall|i: int|
                0 <= i < cells@.len() ==> #[trigger] cell_tileset(cells@[i], tilesets@) == match ts@[i] {
                    Some(t) => Some(t as int),
                    None => None::<int>,
                },
            Err(g) => first_bad_gid(cells@, tilesets@) == Some(g),
        },
{
    let mut out: Vec<Option<usize>> = Vec::new();
    let mut i: usize = 0;
    assert(cells@.take(0) =~= Seq::<RawCell>::empty());
    while i < cells.len()
        invariant
            i <= cells.len(),
            out@.len() == i,
            first_bad_gid(cells@.take(i as int), tilesets@) is None,
            forall|j: int|
                0 <= j < i ==> #[trigger] cell_tileset(cells@[j], tilesets@) == match out@[j] {
                    Some(t) => Some(t as int),
                    None => None::<int>,
                },
        decreases cells.len() - i,
    {
        let cell = cells[i];
        assert(cells@.take(i + 1).drop_last() =~= cells@.take(i as int));
        assert(cells@.take(i + 1).last() == cell);
        let gid = gid_without_flags(cell.gid);
        if gid == 0 {
            out.push(None);
        } else {
            match tileset_index_for_gid(gid, tilesets) {
                Ok(t) => {
                    out.push(Some(t));
                },
                Err(_) => {
                    proof {
                        lemma_first_bad_persists(cells@, i as int + 1, tilesets@);
                    }
                    return Err(gid);
                },
            }
        }
        i = i + 1;
    }
    assert(cells@.take(i as int) =~= cells@);
    Ok(out)
}

proof fn lemma_first_bad_persists(cells: Seq<RawCell>, k: int, tilesets: Seq<TiledTileset>)
    requires
        0 <= k <= cells.len(),
        first_bad_gid(cells.take(k), tilesets) is Some,
    ensures
        first_bad_gid(cells, tilesets) == first_bad_gid(cells.take(k), tilesets),
    decreases cells.len(),
{
    if k == cells.len() {
        assert(cells.take(k) =~= cells);
    } else {
        let t = cells.drop_last();
        assert(cells.take(k) =~= t.take(k));
        lemma_first_bad_persists(t, k, tilesets);
    }
}

fn filter_tileset(
    cells: &Vec<RawCell>,
    tiles: &Vec<Option<usize>>,
    t: usize,
    Ghost(tilesets): Ghost<Seq<TiledTileset>>,
) -> (r: Vec<RawCell>)
    requires
        tiles@.len() == cells@.len(),
        forall|i: int|
            0 <= i < cells@.len() ==> #[trigger] cell_tileset(cells@[i], tilesets) == match tiles@[i] {
                Some(x) => Some(x as int),
                None => None::<int>,
            },
    ensures
        r@ == cells_of_tileset(cells@, tilesets, t as int),
{
    let mut out: Vec<RawCell> = Vec::new();
    let mut i: usize = 0;
    assert(cells@.take(0) =~= Seq::<RawCell>::empty());
    while i < cells.len()
        invariant
            i <= cells.len(),
            tiles@.len() == cells@.len(),
            forall|j: int|
                0 <= j < cells@.len() ==> #[trigger] cell_tileset(cells@[j], tilesets) == match tiles@[j] {
                    Some(x) => Some(x as int),
                    None => None::<int>,
                },
            out@ == cells_of_tileset(cells@.take(i as int), tilesets, t as int),
        decreases cells.len() - i,
    {
        assert(cells@.take(i + 1).drop_last() =~= cells@.take(i as int));
        assert(cells@.take(i + 1).last() == cells@[i as int]);
        assert(cell_tileset(cells@[i as int], tilesets) == match tiles@[i as int] {
            Some(x) => Some(x as int),
            None => None::<int>,
        });
        match tiles[i] {
            Some(x) => {
                if x == t {
                    out.push(cells[i]);
                }
            },
            None => {},
        }
        i = i + 1;
    }
    assert(cells@.take(i as int) =~= cells@);
    out
}

fn push_layer_splits(
    out: &mut Vec<LayerSplit>,
    l: usize,
    layer: &ParsedLayer,
    tiles: &Vec<Option<usize>>,
    tilesets: &Vec<TiledTileset>,
)
    requires
        tiles@.len() == layer.cells@.len(),
        forall|i: int|
            0 <= i < layer.cells@.len() ==> #[trigger] cell_tileset(layer.cells@[i], tilesets@)
                == match tiles@[i] {
                Some(x) => Some(x as int),
                None => None::<int>,
            },
    ensures
        final(out)@.map_values(|s: LayerSplit| split_view(s)) == old(out)@.map_values(
            |s: LayerSplit| split_view(s),
        ) + layer_splits(l as int, layer.cells@, tilesets@, tilesets@.len() as int),
{
    let ghost base = out@.map_values(|s: LayerSplit| split_view(s));
    let mut t: usize = 0;
    let mut order: usize = 0;
    assert(base + layer_splits(l as int, layer.cells@, tilesets@, 0) =~= base);
    while t < tilesets.len()
        invariant
            t <= tilesets.len(),
            tiles@.len() == layer.cells@.len(),
            forall|i: int|
                0 <= i < layer.cells@.len() ==> #[trigger] cell_tileset(layer.cells@[i], tilesets@)
                    == match tiles@[i] {
                    Some(x) => Some(x as int),
                    None => None::<int>,
                },
            base == old(out)@.map_values(|s: LayerSplit| split_view(s)),
            order == layer_splits(l as int, layer.cells@, tilesets@, t as int).len(),
            order <= t,
            out@.map_values(|s: LayerSplit| split_view(s)) == base + layer_splits(
                l as int,
                layer.cells@,
                tilesets@,
                t as int,
            ),
        decreases tilesets.len() - t,
    {
        let cells = filter_tileset(&layer.cells, tiles, t, Ghost(tilesets@));
        if cells.len() > 0 {
            let ghost before = out@;
            out.push(LayerSplit { source_layer: l, tileset_index: t, split_order: order, cells });
            assert(out@.map_values(|s: LayerSplit| split_view(s)) =~= before.map_values(
                |s: LayerSplit| split_view(s),
            ).push(split_view(out@[out@.len() - 1])));
            order = order + 1;
        }
        t = t + 1;
    }
}

/// Splits every layer into one layer per tileset it uses, in layer order
/// and, within a layer, in tileset order.
pub fn split_layers_by_tileset(layers: &Vec<ParsedLayer>, tilesets: &Vec<TiledTileset>) -> (r: Result<
    Vec<LayerSplit>,
    TiledImportError,
>)
    ensures
        match first_bad_gid_in_layers(layers@, tilesets@) {
            Some(g) => r matches Err(TiledImportError::TileGidOutOfRange { gid }) && gid == g,
            None => r is Ok && r->Ok_0@.map_values(|s: LayerSplit| split_view(s)) == all_splits(
                layers@,
                tilesets@,
            ),
        },
{
    let mut out: Vec<LayerSplit> = Vec::new();
    let mut l: usize = 0;
    assert(layers@.take(0) =~= Seq::<ParsedLayer>::empty());
    while l < layers.len()
        invariant
            l <= layers.len(),
            first_bad_gid_in_layers(layers@.take(l as int), tilesets@) is None,
            out@.map_values(|s: LayerSplit| split_view(s)) == all_splits(layers@.take(l as int), tilesets@),
        decreases layers.len() - l,
    {
        let layer = &layers[l];
        assert(layers@.take(l + 1).drop_last() =~= layers@.take(l as int));
        assert(layers@.take(l + 1).last() == layers@[l as int]);
        let tiles = match cell_tilesets(&layer.cells, tilesets) {
            Ok(tiles) => tiles,
            Err(gid) => {
                proof {
                    lemma_first_bad_layers_persists(layers@, l as int + 1, tilesets@);
                }
                return Err(TiledImportError::TileGidOutOfRange { gid });
            },
        };
        push_layer_splits(&mut out, l, layer, &tiles, tilesets);
        l = l + 1;
    }
    assert(layers@.take(l as int) =~= layers@);
    Ok(out)
}

proof fn lemma_first_bad_layers_persists(layers: Seq<ParsedLayer>, k: int, tilesets: Seq<TiledTileset>)
    requires
        0 <= k <= layers.len(),
        first_bad_gid_in_layers(layers.take(k), tilesets) is Some,
    ensures
        first_bad_gid_in_layers(layers, tilesets) == first_bad_gid_in_layers(layers.take(k), tilesets),
    decreases layers.len(),
{
    if k == layers.len() {
        assert(layers.take(k) =~= layers);
    } else {
        let t = layers.drop_last();
        assert(layers.take(k) =~= t.take(k));
        lemma_first_bad_layers_persists(t, k, tilesets);
    }
}

/// Depth sort of an imported map: orthogonal maps with several layers and
/// a tileset whose tiles overhang the map grid (larger tiles or an offset)
/// draw cell by cell; others layer by layer.
pub open spec fn spec_depth_sort(
    orientation: TilemapOrientation,
    map_tile_size: [u32; 2],
    tilesets: Seq<TiledTileset>,
    layer_count: int,
) -> TilemapDepthSort {
    if orientation == TilemapOrientation::Orthogonal && layer_count > 1 && exists|i: int|
        0 <= i < tilesets.len() && #[trigger] overhangs(tilesets[i], map_tile_size) {
        TilemapDepthSort::YThenLayer
    } else {
        TilemapDepthSort::Layer
    }
}

pub open spec fn overhangs(tileset: TiledTileset, map_tile_size: [u32; 2]) -> bool {
    tileset.tile_size[0] > map_tile_size[0] || tileset.tile_size[1] > map_tile_size[1]
        || tileset.tile_offset[0] != 0 || tileset.tile_offset[1] != 0
}

pub fn tiled_depth_sort_for_layers(
    orientation: TilemapOrientation,
    map_tile_size: [u32; 2],
    tilesets: &Vec<TiledTileset>,
    layer_count: usize,
) -> (r: TilemapDepthSort)
    ensures
        r == spec_depth_sort(orientation, map_tile_size, tilesets@, layer_count as int),
{
    let orthogonal = match orientation {
        TilemapOrientation::Orthogonal => true,
        _ => false,
    };
    if !orthogonal || layer_count <= 1 {
        return TilemapDepthSort::Layer;
    }
    let mut i: usize = 0;
    while i < tilesets.len()
        invariant
            i <= tilesets.len(),
            orientation == TilemapOrientation::Orthogonal,
            layer_count > 1,
            forall|j: int| 0 <= j < i ==> !#[trigger] overhangs(tilesets@[j], map_tile_size),
        decreases tilesets.len() - i,
    {
        let ts = &tilesets[i];
        if ts.tile_size[0] > map_tile_size[0] || ts.tile_size[1] > map_tile_size[1]
            || ts.tile_offset[0] != 0 || ts.tile_offset[1] != 0 {
            assert(overhangs(tilesets@[i as int], map_tile_size));
            return TilemapDepthSort::YThenLayer;
        }
        i = i + 1;
    }
    TilemapDepthSort::Layer
}


/// Law: an orthogonal map of more than one layer draws cell by cell exactly
/// when some tileset's tiles are wider or taller than the map's tiles, or
/// are drawn with an offset; every other map draws layer by layer.
pub proof fn lemma_depth_sort_follows_overhang(
    orientation: TilemapOrientation,
    map_tile_size: [u32; 2],
    tilesets: Seq<TiledTileset>,
    layer_count: int,
)
    ensures
        (spec_depth_sort(orientation, map_tile_size, tilesets, layer_count)
            == TilemapDepthSort::YThenLayer) <==> (orientation == TilemapOrientation::Orthogonal
            && layer_count > 1 && exists|i: int|
            0 <= i < tilesets.len() && (#[trigger] tilesets[i].tile_size[0] > map_tile_size[0]
                || tilesets[i].tile_size[1] > map_tile_size[1] || tilesets[i].tile_offset[0] != 0
                || tilesets[i].tile_offset[1] != 0)),
        spec_depth_sort(orientation, map_tile_size, tilesets, layer_count) == TilemapDepthSort::YThenLayer
            || spec_depth_sort(orientation, map_tile_size, tilesets, layer_count) == TilemapDepthSort::Layer,
{
    if orientation == TilemapOrientation::Orthogonal && layer_count > 1 {
        if exists|i: int|
            0 <= i < tilesets.len() && (#[trigger] tilesets[i].tile_size[0] > map_tile_size[0]
                || tilesets[i].tile_size[1] > map_tile_size[1] || tilesets[i].tile_offset[0] != 0
                || tilesets[i].tile_offset[1] != 0) {
            let i = choose|i: int|
                0 <= i < tilesets.len() && (#[trigger] tilesets[i].tile_size[0] > map_tile_size[0]
                    || tilesets[i].tile_size[1] > map_tile_size[1] || tilesets[i].tile_offset[0] != 0
                    || tilesets[i].tile_offset[1] != 0);
            assert(overhangs(tilesets[i], map_tile_size));
        }
        if exists|i: int| 0 <= i < tilesets.len() && #[trigger] overhangs(tilesets[i], map_tile_size) {
            let i = choose|i: int| 0 <= i < tilesets.len() && #[trigger] overhangs(tilesets[i], map_tile_size);
            assert(tilesets[i].tile_size[0] > map_tile_size[0] || tilesets[i].tile_size[1] > map_tile_size[1]
                || tilesets[i].tile_offset[0] != 0 || tilesets[i].tile_offset[1] != 0);
        }
    }
}

} // verus!
