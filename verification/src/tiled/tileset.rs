use crate::tiled::error::is_unsupported_tileset;
use crate::tiled::error::TiledImportError;
use crate::tiled::layer::TiledTileset;
use crate::tiled::types::TiledTilesetImageSource;
use crate::tilemap::types::TilesetTileRect;
use crate::tilemap::types::TileAnimation;
use crate::tilemap::types::TileAnimationFrame;
use crate::tilemap::types::TileId;
use vstd::prelude::*;

verus! {

/// How many tiles of `tile_span` pixels (at least 1) fit in an image span of
/// `image_span` pixels with `margin` on both ends and `spacing` between
/// tiles; none when not even one fits. Saturating, like Tiled's own count.
pub open spec fn spec_tiles_in_image_span(image_span: u32, tile_span: u32, margin: u32, spacing: u32) -> Option<
    u32,
> {
    let tile = if tile_span >= 1 {
        tile_span as int
    } else {
        1
    };
    let margins = if 2 * margin <= u32::MAX {
        2 * margin
    } else {
        u32::MAX as int
    };
    if image_span < margins {
        None
    } else {
        let available = image_span - margins;
        if available < tile {
            None
        } else {
            let numerator = if available + spacing <= u32::MAX {
                available + spacing
            } else {
                u32::MAX as int
            };
            let denominator = if tile + spacing <= u32::MAX {
                tile + spacing
            } else {
                u32::MAX as int
            };
            Some((numerator / denominator) as u32)
        }
    }
}

pub fn tiles_in_image_span(image_span: u32, tile_span: u32, margin: u32, spacing: u32) -> (r: Option<
    u32,
>)
    ensures
        r == spec_tiles_in_image_span(image_span, tile_span, margin, spacing),
{
    let tile_span = if tile_span >= 1 {
        tile_span
    } else {
        1
    };
    let margins = margin.saturating_add(margin);
    if image_span < margins {
        return None;
    }
    let available = image_span - margins;
    if available < tile_span {
        return None;
    }
    let denominator = tile_span.saturating_add(spacing);
    Some(available.saturating_add(spacing) / denominator)
}

/// Law: where nothing saturates, the count of tiles in an image span is the
/// largest `n` such that `n` tiles and the `n - 1` gaps between them fit
/// between the two margins; there is none when not even one tile fits.
pub proof fn lemma_tiles_in_image_span_is_largest_fit(image_span: u32, tile_span: u32, margin: u32, spacing: u32)
    requires
        tile_span >= 1,
        2 * margin + spacing + image_span <= u32::MAX,
    ensures
        match spec_tiles_in_image_span(image_span, tile_span, margin, spacing) {
            None => 2 * margin + tile_span > image_span,
            Some(n) => {
                &&& n >= 1
                &&& 2 * margin + n * tile_span + (n - 1) * spacing <= image_span
                &&& 2 * margin + (n + 1) * tile_span + n * spacing > image_span
            },
        },
{
    let t = tile_span as int;
    let s = spacing as int;
    let m2 = 2 * margin as int;
    if image_span >= m2 && image_span - m2 >= t {
        let a = image_span - m2;
        let d = t + s;
        let n = (a + s) / d;
        vstd::arithmetic::div_mod::lemma_fundamental_div_mod(a + s, d);
        let q = (a + s) % d;
        assert(0 <= q < d);
        assert(a + s == d * n + q);
        assert(n >= 1) by (nonlinear_arith)
            requires
                a + s >= d,
                d >= 1,
                n == (a + s) / d,
        ;
        assert(n * t + (n - 1) * s == d * n - s) by (nonlinear_arith)
            requires
                d == t + s,
        ;
        assert((n + 1) * t + n * s == d * n + d - s) by (nonlinear_arith)
            requires
                d == t + s,
        ;
        assert(n <= u32::MAX) by (nonlinear_arith)
            requires
                n == (a + s) / d,
                d >= 1,
                0 <= a + s <= u32::MAX,
        ;
    }
}

/// Every animation of `animations` shows only tiles below `tile_count`.
pub open spec fn animations_in_range(animations: Seq<TileAnimation>, tile_count: u32) -> bool {
    forall|a: int|
        0 <= a < animations.len() ==> (#[trigger] animations[a]).tile_id.0 < tile_count && forall|
            f: int,
        | 0 <= f < animations[a].frames@.len() ==> (#[trigger] animations[a].frames@[f]).tile_id.0
            < tile_count
}

pub(crate) fn animations_fit(animations: &Vec<TileAnimation>, tile_count: u32) -> (r: bool)
    ensures
        r == animations_in_range(animations@, tile_count),
{
    let mut a: usize = 0;
    while a < animations.len()
        invariant
            a <= animations.len(),
            forall|k: int|
                0 <= k < a ==> (#[trigger] animations@[k]).tile_id.0 < tile_count && forall|
                    f: int,
                | 0 <= f < animations@[k].frames@.len() ==> (
                #[trigger] animations@[k].frames@[f]).tile_id.0 < tile_count,
        decreases animations.len() - a,
    {
        let animation = &animations[a];
        if animation.tile_id.0 >= tile_count {
            return false;
        }
        let mut f: usize = 0;
        while f < animation.frames.len()
            invariant
                a < animations.len(),
                animation == animations@[a as int],
                f <= animation.frames.len(),
                forall|g: int|
                    0 <= g < f ==> (#[trigger] animation.frames@[g]).tile_id.0 < tile_count,
            decreases animation.frames.len() - f,
        {
            if animation.frames[f].tile_id.0 >= tile_count {
                assert(animations@[a as int].frames@[f as int].tile_id.0 >= tile_count);
                return false;
            }
            f = f + 1;
        }
        a = a + 1;
    }
    true
}

/// Whether building a single-image tileset needs the image's size read from
/// its file: when the columns or tile count must be inferred and the
/// tileset does not give the image's width and height.
pub fn tileset_needs_image_size(
    columns: Option<u32>,
    tilecount: Option<u32>,
    imagewidth: Option<u32>,
    imageheight: Option<u32>,
) -> (r: bool)
    ensures
        r == ((columns is None || tilecount is None) && (imagewidth is None || imageheight
            is None)),
{
    (columns.is_none() || tilecount.is_none()) && (imagewidth.is_none() || imageheight.is_none())
}

pub open spec fn or_else_u32(a: Option<u32>, b: Option<u32>) -> Option<u32> {
    match a {
        Some(v) => Some(v),
        None => b,
    }
}

pub open spec fn sat_mul(a: u32, b: u32) -> u32 {
    if a * b <= u32::MAX {
        (a * b) as u32
    } else {
        u32::MAX
    }
}

/// The grid of a single-image tileset: the given columns, else as many as fit
/// the image's width; the given tile count, else columns times rows that fit
/// the image; rows enough to hold the tiles; and the image's size, else the
/// grid's.
pub open spec fn spec_tileset_grid(
    tile_width: u32,
    tile_height: u32,
    columns: Option<u32>,
    tilecount: Option<u32>,
    imagewidth: Option<u32>,
    imageheight: Option<u32>,
    margin: u32,
    spacing: u32,
) -> Result<(u32, u32, u32, [u32; 2]), Seq<char>> {
    let columns = match columns {
        Some(c) => Some(c),
        None => match imagewidth {
            Some(w) => spec_tiles_in_image_span(w, tile_width, margin, spacing),
            None => None,
        },
    };
    let tile_count = match tilecount {
        Some(t) => Some(t),
        None => match (imagewidth, imageheight) {
            (Some(w), Some(h)) => match (
                spec_tiles_in_image_span(w, tile_width, margin, spacing),
                spec_tiles_in_image_span(h, tile_height, margin, spacing),
            ) {
                (Some(c), Some(r)) => Some(sat_mul(c, r)),
                _ => None,
            },
            _ => None,
        },
    };
    match columns {
        Some(c) if c > 0 => match tile_count {
            Some(t) if t > 0 => {
                let rows = (t / c + if t % c == 0 {
                    0int
                } else {
                    1int
                }) as u32;
                let width = match imagewidth {
                    Some(w) => w,
                    None => sat_mul(c, tile_width),
                };
                let height = match imageheight {
                    Some(h) => h,
                    None => sat_mul(rows, tile_height),
                };
                Ok((c, rows, t, [width, height]))
            },
            _ => Err("tileset is missing tilecount"@),
        },
        _ => Err("tileset is missing columns"@),
    }
}

fn saturating_mul_u32(a: u32, b: u32) -> (r: u32)
    ensures
        r == sat_mul(a, b),
{
    match a.checked_mul(b) {
        Some(v) => v,
        None => u32::MAX,
    }
}

pub(crate) fn unsupported_tileset(source: &Option<String>, reason: &'static str) -> (e: TiledImportError)
    ensures
        is_unsupported_tileset(e, crate::tiled::parse::opt_string_view(*source), reason@),
{
    let source = match source {
        Some(s) => Some(s.clone()),
        None => None,
    };
    TiledImportError::UnsupportedTileset { source, reason }
}

fn tileset_grid(
    tile_width: u32,
    tile_height: u32,
    columns: Option<u32>,
    tilecount: Option<u32>,
    imagewidth: Option<u32>,
    imageheight: Option<u32>,
    margin: u32,
    spacing: u32,
) -> (r: Result<(u32, u32, u32, [u32; 2]), &'static str>)
    ensures
        match r {
            Ok(g) => spec_tileset_grid(
                tile_width,
                tile_height,
                columns,
                tilecount,
                imagewidth,
                imageheight,
                margin,
                spacing,
            ) == Ok::<(u32, u32, u32, [u32; 2]), Seq<char>>(g),
            Err(reason) => spec_tileset_grid(
                tile_width,
                tile_height,
                columns,
                tilecount,
                imagewidth,
                imageheight,
                margin,
                spacing,
            ) == Err::<(u32, u32, u32, [u32; 2]), Seq<char>>(reason@),
        },
{
    let columns = match columns {
        Some(c) => Some(c),
        None => match imagewidth {
            Some(w) => tiles_in_image_span(w, tile_width, margin, spacing),
            None => None,
        },
    };
    let columns = match columns {
        Some(c) if c > 0 => c,
        _ => {
            return Err("tileset is missing columns");
        },
    };
    let tile_count = match tilecount {
        Some(t) => Some(t),
        None => match (imagewidth, imageheight) {
            (Some(w), Some(h)) => match (
                tiles_in_image_span(w, tile_width, margin, spacing),
                tiles_in_image_span(h, tile_height, margin, spacing),
            ) {
                (Some(c), Some(r)) => Some(saturating_mul_u32(c, r)),
                _ => None,
            },
            _ => None,
        },
    };
    let tile_count = match tile_count {
        Some(t) if t > 0 => t,
        _ => {
            return Err("tileset is missing tilecount");
        },
    };
    assert(tile_count % columns != 0 ==> tile_count / columns < u32::MAX) by (nonlinear_arith)
        requires
            columns > 0,
            tile_count <= u32::MAX,
    ;
    let rows = if tile_count % columns == 0 {
        tile_count / columns
    } else {
        tile_count / columns + 1
    };
    let image_size = [
        match imagewidth {
            Some(w) => w,
            None => saturating_mul_u32(columns, tile_width),
        },
        match imageheight {
            Some(h) => h,
            None => saturating_mul_u32(rows, tile_height),
        },
    ];
    Ok((columns, rows, tile_count, image_size))
}

/// Builds a single-image tileset. `image` is the path of its image, and
/// `image_size` the image's size read from its file where the tileset did not
/// give it (see [`tileset_needs_image_size`]). Fails on a zero first gid, a
/// missing image, tile size, column count or tile count, or an animation of
/// a tile beyond the tile count.
pub fn build_tileset(
    first_gid: u32,
    image: Option<&str>,
    tilewidth: Option<u32>,
    tileheight: Option<u32>,
    columns: Option<u32>,
    tilecount: Option<u32>,
    imagewidth: Option<u32>,
    imageheight: Option<u32>,
    image_size: Option<(u32, u32)>,
    transparent_color: Option<[u8; 3]>,
    tile_offset: [i32; 2],
    animations: Vec<TileAnimation>,
    margin: u32,
    spacing: u32,
    source: Option<String>,
) -> (r: Result<TiledTileset, TiledImportError>)
    ensures
        ({
            let src = crate::tiled::parse::opt_string_view(source);
            let imagewidth = or_else_u32(
                imagewidth,
                match image_size {
                    Some(s) => Some(s.0),
                    None => None,
                },
            );
            let imageheight = or_else_u32(
                imageheight,
                match image_size {
                    Some(s) => Some(s.1),
                    None => None,
                },
            );
            if first_gid == 0 {
                r matches Err(e) && is_unsupported_tileset(
                    e,
                    src,
                    "firstgid must be greater than zero"@,
                )
            } else if image is None {
                r matches Err(e) && is_unsupported_tileset(
                    e,
                    src,
                    "only single-image tilesets are supported"@,
                )
            } else if tilewidth is None {
                r matches Err(e) && is_unsupported_tileset(e, src, "tileset is missing tilewidth"@)
            } else if tileheight is None {
                r matches Err(e) && is_unsupported_tileset(e, src, "tileset is missing tileheight"@)
            } else {
                match spec_tileset_grid(
                    tilewidth->0,
                    tileheight->0,
                    columns,
                    tilecount,
                    imagewidth,
                    imageheight,
                    margin,
                    spacing,
                ) {
                    Err(reason) => r matches Err(e) && is_unsupported_tileset(e, src, reason),
                    Ok(grid) => if !animations_in_range(animations@, grid.2) {
                        r matches Err(e) && is_unsupported_tileset(
                            e,
                            src,
                            "tileset animation references a tile outside tilecount"@,
                        )
                    } else {
                        r matches Ok(t) && t.first_gid == first_gid && t.image@ == image->0@
                            && t.tile_size == [tilewidth->0, tileheight->0] && t.columns == grid.0
                            && t.rows == grid.1 && t.tile_count == grid.2 && t.image_size == grid.3
                            && t.margin == margin && t.spacing == spacing && t.tile_rects@.len()
                            == 0 && t.tile_images@.len() == 0 && t.tile_offset == tile_offset
                            && t.animations@ == animations@ && t.transparent_color
                            == transparent_color
                    },
                }
            }
        }),
{
    if first_gid == 0 {
        return Err(unsupported_tileset(&source, "firstgid must be greater than zero"));
    }
    let image = match image {
        Some(i) => i,
        None => {
            return Err(unsupported_tileset(&source, "only single-image tilesets are supported"));
        },
    };
    let tile_width = match tilewidth {
        Some(w) => w,
        None => {
            return Err(unsupported_tileset(&source, "tileset is missing tilewidth"));
        },
    };
    let tile_height = match tileheight {
        Some(h) => h,
        None => {
            return Err(unsupported_tileset(&source, "tileset is missing tileheight"));
        },
    };
    let imagewidth = match imagewidth {
        Some(w) => Some(w),
        None => match image_size {
            Some(s) => Some(s.0),
            None => None,
        },
    };
    let imageheight = match imageheight {
        Some(h) => Some(h),
        None => match image_size {
            Some(s) => Some(s.1),
            None => None,
        },
    };
    let grid = match tileset_grid(
        tile_width,
        tile_height,
        columns,
        tilecount,
        imagewidth,
        imageheight,
        margin,
        spacing,
    ) {
        Ok(g) => g,
        Err(reason) => {
            return Err(unsupported_tileset(&source, reason));
        },
    };
    let (columns, rows, tile_count, image_size) = grid;
    if !animations_fit(&animations, tile_count) {
        return Err(
            unsupported_tileset(&source, "tileset animation references a tile outside tilecount"),
        );
    }
    Ok(
        TiledTileset {
            first_gid,
            image: image.to_owned(),
            tile_size: [tile_width, tile_height],
            columns,
            rows,
            tile_count,
            image_size,
            margin,
            spacing,
            tile_rects: Vec::new(),
            tile_images: Vec::new(),
            tile_offset,
            animations,
            transparent_color,
        },
    )
}

/// Offset of a JSON tileset's tiles.
#[derive(Clone, Copy, Debug, PartialEq, Eq, Structural)]
pub struct TiledJsonTileOffset {
    pub x: i32,
    pub y: i32,
}

pub fn json_tile_offset(offset: Option<TiledJsonTileOffset>) -> (r: [i32; 2])
    ensures
        r == match offset {
            Some(o) => [o.x, o.y],
            None => [0i32, 0i32],
        },
{
    match offset {
        Some(o) => [o.x, o.y],
        None => [0, 0],
    }
}

/// One frame of a JSON tile animation.
#[derive(Clone, Copy, Debug, PartialEq, Eq, Structural)]
pub struct TiledJsonFrame {
    pub tileid: u32,
    pub duration: u32,
}

/// One tile entry of a JSON tileset: its id, for an image collection its
/// image and the rectangle of the tile in it, and its animation.
#[derive(Debug)]
pub struct TiledJsonTile {
    pub id: u32,
    pub image: Option<String>,
    pub x: Option<u32>,
    pub y: Option<u32>,
    pub width: Option<u32>,
    pub height: Option<u32>,
    pub imagewidth: Option<u32>,
    pub imageheight: Option<u32>,
    pub animation: Vec<TiledJsonFrame>,
}

pub open spec fn animation_matches(a: TileAnimation, tile: TiledJsonTile) -> bool {
    &&& a.tile_id == TileId(tile.id)
    &&& a.frames@.len() == tile.animation@.len()
    &&& forall|f: int|
        0 <= f < tile.animation@.len() ==> (#[trigger] a.frames@[f]) == (TileAnimationFrame {
            tile_id: TileId(tile.animation@[f].tileid),
            duration_ms: tile.animation@[f].duration,
        })
}

/// The animated tiles of `tiles`, in order.
pub open spec fn animated_tiles(tiles: Seq<TiledJsonTile>) -> Seq<TiledJsonTile>
    decreases tiles.len(),
{
    if tiles.len() == 0 {
        Seq::empty()
    } else if tiles.last().animation@.len() > 0 {
        animated_tiles(tiles.drop_last()).push(tiles.last())
    } else {
        animated_tiles(tiles.drop_last())
    }
}

/// The tile animations of a JSON tileset: one per tile with frames, in order.
pub fn collect_json_tile_animations(tiles: &Vec<TiledJsonTile>) -> (r: Vec<TileAnimation>)
    ensures
        r@.len() == animated_tiles(tiles@).len(),
        forall|i: int|
            0 <= i < r@.len() ==> animation_matches(#[trigger] r@[i], animated_tiles(tiles@)[i]),
{
    let mut out: Vec<TileAnimation> = Vec::new();
    let mut i: usize = 0;
    assert(tiles@.take(0) =~= Seq::<TiledJsonTile>::empty());
    while i < tiles.len()
        invariant
            i <= tiles.len(),
            out@.len() == animated_tiles(tiles@.take(i as int)).len(),
            forall|k: int|
                0 <= k < out@.len() ==> animation_matches(
                    #[trigger] out@[k],
                    animated_tiles(tiles@.take(i as int))[k],
                ),
        decreases tiles.len() - i,
    {
        let tile = &tiles[i];
        assert(tiles@.take(i + 1).drop_last() =~= tiles@.take(i as int));
        assert(tiles@.take(i + 1).last() == tiles@[i as int]);
        if tile.animation.len() > 0 {
            let mut frames: Vec<TileAnimationFrame> = Vec::new();
            let mut f: usize = 0;
            while f < tile.animation.len()
                invariant
                    f <= tile.animation.len(),
                    frames@.len() == f,
                    forall|g: int|
                        0 <= g < f ==> (#[trigger] frames@[g]) == (TileAnimationFrame {
                            tile_id: TileId(tile.animation@[g].tileid),
                            duration_ms: tile.animation@[g].duration,
                        }),
                decreases tile.animation.len() - f,
            {
                let frame = tile.animation[f];
                frames.push(
                    TileAnimationFrame { tile_id: TileId(frame.tileid), duration_ms: frame.duration },
                );
                f = f + 1;
            }
            let ghost before = out@;
            out.push(TileAnimation { tile_id: TileId(tile.id), frames });
            assert forall|k: int|
                0 <= k < out@.len() implies animation_matches(
                #[trigger] out@[k],
                animated_tiles(tiles@.take(i + 1))[k],
            ) by {
                if k < before.len() {
                    assert(out@[k] == before[k]);
                }
            }
        }
        i = i + 1;
    }
    assert(tiles@.take(i as int) =~= tiles@);
    out
}

/// One tile of an image collection tileset: its id, its image and the
/// rectangle of the tile in that image.
#[derive(Debug)]
pub struct ImageCollectionTile {
    pub tile_id: u32,
    pub image: String,
    pub source_rect: TilesetTileRect,
}

/// Tile `a` goes before tile `b` in the atlas: by tile id, then by position.
pub open spec fn packs_before(tiles: Seq<ImageCollectionTile>, a: int, b: int) -> bool {
    tiles[a].tile_id < tiles[b].tile_id || (tiles[a].tile_id == tiles[b].tile_id && a < b)
}

/// `order` lists every tile of `tiles` once, sorted by id and, among equal
/// ids, by position (a stable sort by id).
pub open spec fn is_pack_order(tiles: Seq<ImageCollectionTile>, order: Seq<usize>) -> bool {
    &&& order.len() == tiles.len()
    &&& forall|k: int| 0 <= k < order.len() ==> #[trigger] order[k] < tiles.len()
    &&& forall|k1: int, k2: int|
        0 <= k1 < k2 < order.len() ==> packs_before(tiles, #[trigger] order[k1] as int, #[trigger] order[k2] as int)
}

pub open spec fn sat_add(a: int, b: int) -> int {
    if a + b <= u32::MAX {
        a + b
    } else {
        u32::MAX as int
    }
}

/// Where the `k`-th packed tile starts: after the widths of the tiles before
/// it, one pixel apart (saturating).
pub open spec fn pack_cursor(tiles: Seq<ImageCollectionTile>, order: Seq<usize>, k: int) -> int
    decreases k,
{
    if k <= 0 {
        0
    } else {
        let w = tiles[order[k - 1] as int].source_rect.width as int;
        let after = sat_add(pack_cursor(tiles, order, k - 1), w);
        if k < tiles.len() {
            sat_add(after, 1)
        } else {
            after
        }
    }
}

pub open spec fn pack_height(tiles: Seq<ImageCollectionTile>, order: Seq<usize>, k: int) -> int
    decreases k,
{
    if k <= 0 {
        1
    } else {
        let h = tiles[order[k - 1] as int].source_rect.height as int;
        let prev = pack_height(tiles, order, k - 1);
        if h > prev {
            h
        } else {
            prev
        }
    }
}

/// The atlas rectangles after placing the first `k` packed tiles side by
/// side on one row; a later tile with the same id replaces an earlier one.
pub open spec fn packed_rects(
    rects: Seq<Option<TilesetTileRect>>,
    tiles: Seq<ImageCollectionTile>,
    order: Seq<usize>,
    k: int,
) -> Seq<Option<TilesetTileRect>>
    decreases k,
{
    if k <= 0 {
        rects
    } else {
        let t = tiles[order[k - 1] as int];
        packed_rects(rects, tiles, order, k - 1).update(
            t.tile_id as int,
            Some(
                TilesetTileRect {
                    x: pack_cursor(tiles, order, k - 1) as u32,
                    y: 0,
                    width: t.source_rect.width,
                    height: t.source_rect.height,
                },
            ),
        )
    }
}

/// The source image of every tile id after placing the first `k` packed tiles.
pub open spec fn packed_sources(
    sources: Seq<Option<(Seq<char>, TilesetTileRect)>>,
    tiles: Seq<ImageCollectionTile>,
    order: Seq<usize>,
    k: int,
) -> Seq<Option<(Seq<char>, TilesetTileRect)>>
    decreases k,
{
    if k <= 0 {
        sources
    } else {
        let t = tiles[order[k - 1] as int];
        packed_sources(sources, tiles, order, k - 1).update(
            t.tile_id as int,
            Some((t.image@, t.source_rect)),
        )
    }
}

pub open spec fn source_view(s: Option<TiledTilesetImageSource>) -> Option<(Seq<char>, TilesetTileRect)> {
    match s {
        Some(v) => Some((v.image@, v.source_rect)),
        None => None,
    }
}

fn pack_order(tiles: &Vec<ImageCollectionTile>) -> (order: Vec<usize>)
    ensures
        is_pack_order(tiles@, order@),
{
    let mut order: Vec<usize> = Vec::new();
    let mut i: usize = 0;
    while i < tiles.len()
        invariant
            i <= tiles.len(),
            order@.len() == i,
            forall|k: int| 0 <= k < order@.len() ==> #[trigger] order@[k] < i,
            forall|k1: int, k2: int|
                0 <= k1 < k2 < order@.len() ==> packs_before(tiles@, #[trigger] order@[k1] as int, #[trigger] order@[k2] as int),
        decreases tiles.len() - i,
    {
        let id = tiles[i].tile_id;
        let mut p: usize = 0;
        while p < order.len() && tiles[order[p]].tile_id <= id
            invariant
                p <= order@.len(),
                i < tiles.len(),
                id == tiles@[i as int].tile_id,
                forall|k: int| 0 <= k < order@.len() ==> #[trigger] order@[k] < i,
                forall|k: int| 0 <= k < p ==> tiles@[order@[k] as int].tile_id <= id,
            decreases order@.len() - p,
        {
            p = p + 1;
        }
        let ghost before = order@;
        order.insert(p, i);
        assert forall|k1: int, k2: int|
            0 <= k1 < k2 < order@.len() implies packs_before(tiles@, #[trigger] order@[k1] as int, #[trigger] order@[k2] as int) by {
            if k2 < p {
                assert(order@[k1] == before[k1] && order@[k2] == before[k2]);
            } else if k2 == p {
                assert(order@[k1] == before[k1]);
                assert(tiles@[before[k1] as int].tile_id <= id);
            } else if k1 < p {
                assert(order@[k1] == before[k1] && order@[k2] == before[k2 - 1]);
            } else if k1 == p {
                assert(order@[k2] == before[k2 - 1]);
                assert(!(tiles@[before[p as int] as int].tile_id <= id));
                if p < k2 - 1 {
                    assert(packs_before(tiles@, before[p as int] as int, before[k2 - 1] as int));
                }
            } else {
                assert(order@[k1] == before[k1 - 1] && order@[k2] == before[k2 - 1]);
            }
        }
        assert forall|k: int| 0 <= k < order@.len() implies #[trigger] order@[k] < i + 1 by {
            if k < p {
                assert(order@[k] == before[k]);
            } else if k > p {
                assert(order@[k] == before[k - 1]);
            }
        }
        i = i + 1;
    }
    order
}

/// Packs the tiles of an image collection tileset into one atlas row, in
/// tile id order, one pixel apart; records each tile's atlas rectangle and
/// source image under its id. Returns the atlas size, at least 1 by 1.
pub fn pack_image_collection_atlas(
    tiles: &Vec<ImageCollectionTile>,
    rects: &mut Vec<Option<TilesetTileRect>>,
    tile_images: &mut Vec<Option<TiledTilesetImageSource>>,
) -> (size: [u32; 2])
    requires
        forall|k: int| 0 <= k < tiles@.len() ==> (#[trigger] tiles@[k]).tile_id < old(rects)@.len(),
        forall|k: int| 0 <= k < tiles@.len() ==> (#[trigger] tiles@[k]).tile_id < old(tile_images)@.len(),
    ensures
        exists|order: Seq<usize>|
            #![trigger is_pack_order(tiles@, order)]
            {
                &&& is_pack_order(tiles@, order)
                &&& final(rects)@ == packed_rects(old(rects)@, tiles@, order, tiles@.len() as int)
                &&& final(tile_images)@.map_values(|s: Option<TiledTilesetImageSource>| source_view(s))
                    == packed_sources(
                    old(tile_images)@.map_values(|s: Option<TiledTilesetImageSource>| source_view(s)),
                    tiles@,
                    order,
                    tiles@.len() as int,
                )
                &&& size[0] == (if pack_cursor(tiles@, order, tiles@.len() as int) >= 1 {
                    pack_cursor(tiles@, order, tiles@.len() as int)
                } else {
                    1
                })
                &&& size[1] == pack_height(tiles@, order, tiles@.len() as int)
            },
{
    let order = pack_order(tiles);
    let ghost rects0 = rects@;
    let ghost sources0 = tile_images@.map_values(|s: Option<TiledTilesetImageSource>| source_view(s));
    let mut cursor_x: u32 = 0;
    let mut atlas_height: u32 = 1;
    let mut k: usize = 0;
    while k < order.len()
        invariant
            is_pack_order(tiles@, order@),
            k <= order@.len(),
            forall|j: int| 0 <= j < tiles@.len() ==> (#[trigger] tiles@[j]).tile_id < rects@.len(),
            forall|j: int| 0 <= j < tiles@.len() ==> (#[trigger] tiles@[j]).tile_id < tile_images@.len(),
            cursor_x == pack_cursor(tiles@, order@, k as int),
            atlas_height == pack_height(tiles@, order@, k as int),
            rects@ == packed_rects(rects0, tiles@, order@, k as int),
            tile_images@.map_values(|s: Option<TiledTilesetImageSource>| source_view(s)) == packed_sources(
                sources0,
                tiles@,
                order@,
                k as int,
            ),
        decreases order@.len() - k,
    {
        let index = order[k];
        let tile = &tiles[index];
        let source_rect = tile.source_rect;
        let id = tile.tile_id as usize;
        let atlas_rect = TilesetTileRect {
            x: cursor_x,
            y: 0,
            width: source_rect.width,
            height: source_rect.height,
        };
        rects.set(id, Some(atlas_rect));
        let ghost before_images = tile_images@;
        tile_images.set(id, Some(TiledTilesetImageSource { image: tile.image.clone(), source_rect }));
        assert(tile_images@.map_values(|s: Option<TiledTilesetImageSource>| source_view(s)) =~= before_images.map_values(
            |s: Option<TiledTilesetImageSource>| source_view(s),
        ).update(id as int, Some((tile.image@, source_rect))));
        cursor_x = cursor_x.saturating_add(source_rect.width);
        if k + 1 < tiles.len() {
            cursor_x = cursor_x.saturating_add(1);
        }
        if source_rect.height > atlas_height {
            atlas_height = source_rect.height;
        }
        k = k + 1;
    }
    [if cursor_x >= 1 {
        cursor_x
    } else {
        1
    }, atlas_height]
}

} // verus!
