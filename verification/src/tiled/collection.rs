//! Image collection tilesets of JSON maps: each tile has an image of its
//! own. Tiles that all come from one image keep their rectangles in it;
//! tiles from several images are packed into one atlas row.
use crate::text::str_equal;
use crate::tiled::error::is_unsupported_tileset;
use crate::tiled::error::TiledImportError;
use crate::tiled::layer::TiledTileset;
use crate::tiled::parse::opt_string_view;
use crate::tiled::tileset::animated_tiles;
use crate::tiled::tileset::animation_matches;
use crate::tiled::tileset::animations_fit;
use crate::tiled::tileset::animations_in_range;
use crate::tiled::tileset::collect_json_tile_animations;
use crate::tiled::tileset::is_pack_order;
use crate::tiled::tileset::json_tile_offset;
use crate::tiled::tileset::or_else_u32;
use crate::tiled::tileset::pack_cursor;
use crate::tiled::tileset::pack_height;
use crate::tiled::tileset::pack_image_collection_atlas;
use crate::tiled::tileset::packed_rects;
use crate::tiled::tileset::packed_sources;
use crate::tiled::tileset::source_view;
use crate::tiled::tileset::unsupported_tileset;
use crate::tiled::tileset::ImageCollectionTile;
use crate::tiled::tileset::TiledJsonTile;
use crate::tiled::tileset::TiledJsonTileOffset;
use crate::tiled::types::TiledTilesetImageSource;
use crate::tilemap::types::TileAnimation;
use crate::tilemap::types::TilesetTileRect;
use vstd::prelude::*;

verus! {

pub open spec fn unwrap_or_u32(a: Option<u32>, d: u32) -> u32 {
    match a {
        Some(v) => v,
        None => d,
    }
}

pub open spec fn max_u32(a: u32, b: u32) -> u32 {
    if a >= b {
        a
    } else {
        b
    }
}

/// The tiles that have an image, in order.
pub open spec fn image_tiles(tiles: Seq<TiledJsonTile>) -> Seq<TiledJsonTile>
    decreases tiles.len(),
{
    if tiles.len() == 0 {
        Seq::empty()
    } else if tiles.last().image is Some {
        image_tiles(tiles.drop_last()).push(tiles.last())
    } else {
        image_tiles(tiles.drop_last())
    }
}

/// Width of a tile's source image: `imagewidth`, else `width`.
pub open spec fn source_width(t: TiledJsonTile) -> Option<u32> {
    or_else_u32(t.imagewidth, t.width)
}

pub open spec fn source_height(t: TiledJsonTile) -> Option<u32> {
    or_else_u32(t.imageheight, t.height)
}

/// The rectangle of an image tile in its image: at `x`, `y` (default 0),
/// sized by `width`/`height`, else the image's size, else the tileset's
/// tile size; at least 1 by 1.
pub open spec fn collection_source_rect(t: TiledJsonTile, tile_width: u32, tile_height: u32) -> TilesetTileRect {
    TilesetTileRect {
        x: unwrap_or_u32(t.x, 0),
        y: unwrap_or_u32(t.y, 0),
        width: max_u32(unwrap_or_u32(or_else_u32(t.width, source_width(t)), tile_width), 1),
        height: max_u32(unwrap_or_u32(or_else_u32(t.height, source_height(t)), tile_height), 1),
    }
}

/// `c` is the collection tile of image tile `t`.
pub open spec fn is_collection_tile(
    c: ImageCollectionTile,
    t: TiledJsonTile,
    tile_width: u32,
    tile_height: u32,
) -> bool {
    &&& c.tile_id == t.id
    &&& t.image matches Some(i) && c.image@ == i@
    &&& c.source_rect == collection_source_rect(t, tile_width, tile_height)
}

pub open spec fn collection_tiles_of(
    cs: Seq<ImageCollectionTile>,
    its: Seq<TiledJsonTile>,
    tile_width: u32,
    tile_height: u32,
) -> bool {
    &&& cs.len() == its.len()
    &&& forall|k: int|
        0 <= k < cs.len() ==> is_collection_tile(#[trigger] cs[k], its[k], tile_width, tile_height)
}

/// Largest id of the tiles (0 for none).
pub open spec fn max_tile_id(its: Seq<TiledJsonTile>) -> u32
    decreases its.len(),
{
    if its.len() == 0 {
        0
    } else {
        max_u32(max_tile_id(its.drop_last()), its.last().id)
    }
}

/// The width a tile gives for its source image: `imagewidth`, else, where
/// `sizes_from_tiles` (JSON tilesets), the tile's own `width`.
pub open spec fn extent_width(t: TiledJsonTile, sizes_from_tiles: bool) -> Option<u32> {
    if sizes_from_tiles {
        source_width(t)
    } else {
        t.imagewidth
    }
}

pub open spec fn extent_height(t: TiledJsonTile, sizes_from_tiles: bool) -> Option<u32> {
    if sizes_from_tiles {
        source_height(t)
    } else {
        t.imageheight
    }
}

/// Largest source image size of the tiles, per axis (0 where none is given).
pub open spec fn image_extent(its: Seq<TiledJsonTile>, sizes_from_tiles: bool) -> [u32; 2]
    decreases its.len(),
{
    if its.len() == 0 {
        [0u32, 0u32]
    } else {
        let e = image_extent(its.drop_last(), sizes_from_tiles);
        [
            max_u32(e[0], unwrap_or_u32(extent_width(its.last(), sizes_from_tiles), 0)),
            max_u32(e[1], unwrap_or_u32(extent_height(its.last(), sizes_from_tiles), 0)),
        ]
    }
}

/// Every tile's image is the first tile's image.
pub open spec fn single_image(its: Seq<TiledJsonTile>) -> bool {
    forall|k: int| 0 <= k < its.len() ==> (#[trigger] its[k]).image->0@ == its[0].image->0@
}

/// The tileset comes from one image whose size its tiles do not give: the
/// image's size must be read from its file.
pub open spec fn collection_needs_image_size(tiles: Seq<TiledJsonTile>, sizes_from_tiles: bool) -> bool {
    let its = image_tiles(tiles);
    its.len() > 0 && single_image(its) && (image_extent(its, sizes_from_tiles)[0] == 0
        || image_extent(its, sizes_from_tiles)[1] == 0)
}

/// Each tile's rectangle recorded under its id, later tiles replacing
/// earlier ones.
pub open spec fn placed_rects(
    rects: Seq<Option<TilesetTileRect>>,
    its: Seq<TiledJsonTile>,
    tile_width: u32,
    tile_height: u32,
) -> Seq<Option<TilesetTileRect>>
    decreases its.len(),
{
    if its.len() == 0 {
        rects
    } else {
        placed_rects(rects, its.drop_last(), tile_width, tile_height).update(
            its.last().id as int,
            Some(collection_source_rect(its.last(), tile_width, tile_height)),
        )
    }
}

pub open spec fn no_rects(n: int) -> Seq<Option<TilesetTileRect>> {
    Seq::new(n as nat, |i: int| None::<TilesetTileRect>)
}

pub open spec fn no_sources(n: int) -> Seq<Option<(Seq<char>, TilesetTileRect)>> {
    Seq::new(n as nat, |i: int| None::<(Seq<char>, TilesetTileRect)>)
}

/// The image tiles packed into one atlas row, as
/// `pack_image_collection_atlas` packs them into `n` empty slots.
pub open spec fn collection_packed(
    its: Seq<TiledJsonTile>,
    tile_width: u32,
    tile_height: u32,
    n: int,
    rects: Seq<Option<TilesetTileRect>>,
    sources: Seq<Option<(Seq<char>, TilesetTileRect)>>,
    size: [u32; 2],
) -> bool {
    exists|cs: Seq<ImageCollectionTile>, order: Seq<usize>|
        #![trigger collection_tiles_of(cs, its, tile_width, tile_height), is_pack_order(cs, order)]
        {
            &&& collection_tiles_of(cs, its, tile_width, tile_height)
            &&& is_pack_order(cs, order)
            &&& rects == packed_rects(no_rects(n), cs, order, cs.len() as int)
            &&& sources == packed_sources(no_sources(n), cs, order, cs.len() as int)
            &&& size[0] == (if pack_cursor(cs, order, cs.len() as int) >= 1 {
                pack_cursor(cs, order, cs.len() as int)
            } else {
                1
            })
            &&& size[1] == pack_height(cs, order, cs.len() as int)
        }
}

/// Every animated tile, and every tile its frames show, is below `tile_count`.
pub open spec fn json_animations_fit(tiles: Seq<TiledJsonTile>, tile_count: u32) -> bool {
    let a = animated_tiles(tiles);
    forall|k: int|
        0 <= k < a.len() ==> (#[trigger] a[k]).id < tile_count && forall|f: int|
            0 <= f < a[k].animation@.len() ==> (#[trigger] a[k].animation@[f]).tileid < tile_count
}

/// `t` is the image collection tileset built from `tiles`, before its
/// animations and tile offset are set: `image_size` is the size read from
/// the image file where one is needed.
pub open spec fn is_collection_tileset(
    t: TiledTileset,
    first_gid: u32,
    tile_width: u32,
    tile_height: u32,
    tiles: Seq<TiledJsonTile>,
    image_size: Option<(u32, u32)>,
    sizes_from_tiles: bool,
) -> bool {
    let its = image_tiles(tiles);
    let tile_count = (max_tile_id(its) + 1) as u32;
    let n = max_tile_id(its) + 1;
    let extent = image_extent(its, sizes_from_tiles);
    &&& t.first_gid == first_gid
    &&& t.image@ == its[0].image->0@
    &&& t.tile_size == [tile_width, tile_height]
    &&& t.columns == tile_count
    &&& t.rows == 1
    &&& t.tile_count == tile_count
    &&& t.margin == 0
    &&& t.spacing == 0
    &&& t.transparent_color is None
    &&& if single_image(its) {
        &&& t.tile_rects@ == placed_rects(no_rects(n), its, tile_width, tile_height)
        &&& t.tile_images@.len() == 0
        &&& t.image_size == if extent[0] == 0 || extent[1] == 0 {
            match image_size {
                Some(s) => [s.0, s.1],
                None => [0u32, 0u32],
            }
        } else {
            extent
        }
    } else {
        collection_packed(
            its,
            tile_width,
            tile_height,
            n,
            t.tile_rects@,
            t.tile_images@.map_values(|s: Option<TiledTilesetImageSource>| source_view(s)),
            t.image_size,
        )
    }
}

proof fn lemma_max_tile_id_bounds(its: Seq<TiledJsonTile>)
    ensures
        forall|k: int| 0 <= k < its.len() ==> (#[trigger] its[k]).id <= max_tile_id(its),
        its.len() > 0 ==> exists|k: int| 0 <= k < its.len() && (#[trigger] its[k]).id == max_tile_id(its),
    decreases its.len(),
{
    if its.len() > 0 {
        lemma_max_tile_id_bounds(its.drop_last());
        assert forall|k: int| 0 <= k < its.len() implies (#[trigger] its[k]).id <= max_tile_id(its) by {
            if k < its.len() - 1 {
                assert(its[k] == its.drop_last()[k]);
            }
        }
        if its.drop_last().len() > 0 && max_tile_id(its.drop_last()) >= its.last().id {
            let k = choose|k: int|
                0 <= k < its.drop_last().len() && (#[trigger] its.drop_last()[k]).id == max_tile_id(
                    its.drop_last(),
                );
            assert(its[k] == its.drop_last()[k]);
        } else {
            assert(its[its.len() - 1] == its.last());
        }
    }
}

proof fn lemma_animations_fit(anims: Seq<TileAnimation>, tiles: Seq<TiledJsonTile>, tile_count: u32)
    requires
        anims.len() == animated_tiles(tiles).len(),
        forall|i: int| 0 <= i < anims.len() ==> animation_matches(#[trigger] anims[i], animated_tiles(tiles)[i]),
    ensures
        animations_in_range(anims, tile_count) == json_animations_fit(tiles, tile_count),
{
    let a = animated_tiles(tiles);
    if animations_in_range(anims, tile_count) {
        assert forall|k: int| 0 <= k < a.len() implies (#[trigger] a[k]).id < tile_count && forall|
            f: int,
        | 0 <= f < a[k].animation@.len() ==> (#[trigger] a[k].animation@[f]).tileid < tile_count by {
            assert(animation_matches(anims[k], a[k]));
            assert forall|f: int| 0 <= f < a[k].animation@.len() implies (
            #[trigger] a[k].animation@[f]).tileid < tile_count by {
                assert(anims[k].frames@[f].tile_id.0 < tile_count);
            }
        }
    }
    if json_animations_fit(tiles, tile_count) {
        assert forall|i: int| 0 <= i < anims.len() implies (#[trigger] anims[i]).tile_id.0 < tile_count
            && forall|f: int|
            0 <= f < anims[i].frames@.len() ==> (#[trigger] anims[i].frames@[f]).tile_id.0
                < tile_count by {
            assert(animation_matches(anims[i], a[i]));
            assert forall|f: int| 0 <= f < anims[i].frames@.len() implies (
            #[trigger] anims[i].frames@[f]).tile_id.0 < tile_count by {
                assert(a[i].animation@[f].tileid < tile_count);
            }
        }
    }
}

/// The image tiles of a tileset as collection tiles, with their largest id,
/// their image extent and whether they share one image.
struct ImageTiles {
    tiles: Vec<ImageCollectionTile>,
    max_id: u32,
    extent: [u32; 2],
    single: bool,
}

fn collect_image_tiles(
    tiles: &Vec<TiledJsonTile>,
    tile_width: u32,
    tile_height: u32,
    sizes_from_tiles: bool,
) -> (r: ImageTiles)
    ensures
        collection_tiles_of(r.tiles@, image_tiles(tiles@), tile_width, tile_height),
        r.max_id == max_tile_id(image_tiles(tiles@)),
        r.extent == image_extent(image_tiles(tiles@), sizes_from_tiles),
        r.single == single_image(image_tiles(tiles@)),
{
    let mut cts: Vec<ImageCollectionTile> = Vec::new();
    let mut max_id: u32 = 0;
    let mut extent: [u32; 2] = [0, 0];
    let mut single = true;
    let mut i: usize = 0;
    assert(tiles@.take(0) =~= Seq::<TiledJsonTile>::empty());
    while i < tiles.len()
        invariant
            i <= tiles.len(),
            collection_tiles_of(cts@, image_tiles(tiles@.take(i as int)), tile_width, tile_height),
            max_id == max_tile_id(image_tiles(tiles@.take(i as int))),
            extent == image_extent(image_tiles(tiles@.take(i as int)), sizes_from_tiles),
            single == single_image(image_tiles(tiles@.take(i as int))),
        decreases tiles.len() - i,
    {
        let ghost before = image_tiles(tiles@.take(i as int));
        let ghost prefix = tiles@.take(i + 1);
        assert(prefix.drop_last() =~= tiles@.take(i as int));
        assert(prefix.last() == tiles@[i as int]);
        let tile = &tiles[i];
        match &tile.image {
            None => {},
            Some(image) => {
                let ghost after = before.push(tiles@[i as int]);
                assert(image_tiles(prefix) == after);
                assert(after.drop_last() =~= before);
                assert(after.last() == tiles@[i as int]);
                let source_w = match tile.imagewidth {
                    Some(w) => Some(w),
                    None => tile.width,
                };
                let source_h = match tile.imageheight {
                    Some(h) => Some(h),
                    None => tile.height,
                };
                let w = match tile.width {
                    Some(w) => w,
                    None => match source_w {
                        Some(w) => w,
                        None => tile_width,
                    },
                };
                let h = match tile.height {
                    Some(h) => h,
                    None => match source_h {
                        Some(h) => h,
                        None => tile_height,
                    },
                };
                let rect = TilesetTileRect {
                    x: match tile.x {
                        Some(x) => x,
                        None => 0,
                    },
                    y: match tile.y {
                        Some(y) => y,
                        None => 0,
                    },
                    width: if w >= 1 {
                        w
                    } else {
                        1
                    },
                    height: if h >= 1 {
                        h
                    } else {
                        1
                    },
                };
                let extent_w = if sizes_from_tiles {
                    source_w
                } else {
                    tile.imagewidth
                };
                let extent_h = if sizes_from_tiles {
                    source_h
                } else {
                    tile.imageheight
                };
                let sw = match extent_w {
                    Some(w) => w,
                    None => 0,
                };
                let sh = match extent_h {
                    Some(h) => h,
                    None => 0,
                };
                extent = [if extent[0] >= sw {
                    extent[0]
                } else {
                    sw
                }, if extent[1] >= sh {
                    extent[1]
                } else {
                    sh
                }];
                if tile.id > max_id {
                    max_id = tile.id;
                }
                if cts.len() > 0 {
                    let same = str_equal(image.as_str(), cts[0].image.as_str());
                    proof {
                        assert(cts@[0].image@ == before[0].image->0@);
                        assert(after[0] == before[0]);
                        if single && same {
                            assert forall|k: int| 0 <= k < after.len() implies (
                            #[trigger] after[k]).image->0@ == after[0].image->0@ by {
                                if k < before.len() {
                                    assert(after[k] == before[k]);
                                }
                            }
                        }
                        if !same {
                            assert(after[after.len() - 1] == tiles@[i as int]);
                        }
                        if !single {
                            let k = choose|k: int|
                                0 <= k < before.len() && !((#[trigger] before[k]).image->0@
                                    == before[0].image->0@);
                            assert(after[k] == before[k]);
                        }
                    }
                    single = single && same;
                } else {
                    assert(single_image(after));
                }
                let ghost old_cts = cts@;
                cts.push(ImageCollectionTile { tile_id: tile.id, image: image.clone(), source_rect: rect });
                assert forall|k: int| 0 <= k < cts@.len() implies is_collection_tile(
                    #[trigger] cts@[k],
                    after[k],
                    tile_width,
                    tile_height,
                ) by {
                    if k < old_cts.len() {
                        assert(cts@[k] == old_cts[k]);
                        assert(after[k] == before[k]);
                    }
                }
            },
        }
        i = i + 1;
    }
    assert(tiles@.take(i as int) =~= tiles@);
    ImageTiles { tiles: cts, max_id, extent, single }
}

fn image_to_measure(tiles: &Vec<TiledJsonTile>, sizes_from_tiles: bool) -> (r: Option<String>)
    ensures
        match r {
            Some(path) => collection_needs_image_size(tiles@, sizes_from_tiles) && path@
                == image_tiles(tiles@)[0].image->0@,
            None => !collection_needs_image_size(tiles@, sizes_from_tiles),
        },
{
    let summary = collect_image_tiles(tiles, 1, 1, sizes_from_tiles);
    if summary.tiles.len() > 0 && summary.single && (summary.extent[0] == 0
        || summary.extent[1] == 0) {
        Some(summary.tiles[0].image.clone())
    } else {
        None
    }
}

/// The image whose size must be read from its file before a JSON tileset
/// can be built, if any (see [`collection_needs_image_size`]).
pub fn image_collection_image_to_measure(tiles: &Vec<TiledJsonTile>) -> (r: Option<String>)
    ensures
        match r {
            Some(path) => collection_needs_image_size(tiles@, true) && path@ == image_tiles(
                tiles@,
            )[0].image->0@,
            None => !collection_needs_image_size(tiles@, true),
        },
{
    image_to_measure(tiles, true)
}

/// The image whose size must be read from its file before a TMX tileset
/// can be built, if any (see [`collection_needs_image_size`]).
pub fn tmx_image_collection_image_to_measure(tiles: &Vec<TiledJsonTile>) -> (r: Option<String>)
    ensures
        match r {
            Some(path) => collection_needs_image_size(tiles@, false) && path@ == image_tiles(
                tiles@,
            )[0].image->0@,
            None => !collection_needs_image_size(tiles@, false),
        },
{
    image_to_measure(tiles, false)
}

/// Builds an image collection tileset from its tiles, without animations
/// and at offset zero; fails when no tile has an image.
pub(crate) fn build_collection(
    first_gid: u32,
    tile_width: u32,
    tile_height: u32,
    tiles: &Vec<TiledJsonTile>,
    image_size: Option<(u32, u32)>,
    sizes_from_tiles: bool,
    source: &Option<String>,
) -> (r: Result<TiledTileset, TiledImportError>)
    requires
        forall|k: int|
            0 <= k < image_tiles(tiles@).len() ==> (#[trigger] image_tiles(tiles@)[k]).id
                < u32::MAX,
        collection_needs_image_size(tiles@, sizes_from_tiles) ==> image_size is Some,
    ensures
        image_tiles(tiles@).len() == 0 ==> (r matches Err(e) && is_unsupported_tileset(
            e,
            opt_string_view(*source),
            "only single-image tilesets are supported"@,
        )),
        image_tiles(tiles@).len() > 0 ==> (r matches Ok(t) && is_collection_tileset(
            t,
            first_gid,
            tile_width,
            tile_height,
            tiles@,
            image_size,
            sizes_from_tiles,
        ) && t.animations@.len() == 0 && t.tile_offset == [0i32, 0i32]),
{
    let summary = collect_image_tiles(tiles, tile_width, tile_height, sizes_from_tiles);
    let ghost its = image_tiles(tiles@);
    if summary.tiles.len() == 0 {
        return Err(unsupported_tileset(source, "only single-image tilesets are supported"));
    }
    proof {
        lemma_max_tile_id_bounds(its);
    }
    let max_id = summary.max_id;
    let n: usize = max_id as usize + 1;
    let mut rects: Vec<Option<TilesetTileRect>> = Vec::new();
    while rects.len() < n
        invariant
            rects@.len() <= n,
            forall|k: int| 0 <= k < rects@.len() ==> rects@[k] is None,
        decreases n - rects.len(),
    {
        rects.push(None);
    }
    assert(rects@ =~= no_rects(n as int));
    let mut tile_images: Vec<Option<TiledTilesetImageSource>> = Vec::new();
    let image = summary.tiles[0].image.clone();
    let size: [u32; 2];
    if summary.single {
        let mut k: usize = 0;
        assert(its.take(0) =~= Seq::<TiledJsonTile>::empty());
        while k < summary.tiles.len()
            invariant
                k <= summary.tiles.len(),
                collection_tiles_of(summary.tiles@, its, tile_width, tile_height),
                forall|j: int| 0 <= j < its.len() ==> (#[trigger] its[j]).id <= max_id,
                n == max_id + 1,
                rects@.len() == n,
                rects@ == placed_rects(no_rects(n as int), its.take(k as int), tile_width, tile_height),
            decreases summary.tiles.len() - k,
        {
            let t = &summary.tiles[k];
            assert(is_collection_tile(summary.tiles@[k as int], its[k as int], tile_width, tile_height));
            assert(its.take(k + 1).drop_last() =~= its.take(k as int));
            assert(its.take(k + 1).last() == its[k as int]);
            assert(its[k as int].id <= max_id);
            rects.set(t.tile_id as usize, Some(t.source_rect));
            k = k + 1;
        }
        assert(its.take(k as int) =~= its);
        let e = summary.extent;
        size = if e[0] == 0 || e[1] == 0 {
            match image_size {
                Some(s) => [s.0, s.1],
                None => [0, 0],
            }
        } else {
            e
        };
    } else {
        while tile_images.len() < n
            invariant
                tile_images@.len() <= n,
                forall|k: int| 0 <= k < tile_images@.len() ==> tile_images@[k] is None,
            decreases n - tile_images.len(),
        {
            tile_images.push(None);
        }
        assert(tile_images@.map_values(|s: Option<TiledTilesetImageSource>| source_view(s))
            =~= no_sources(n as int));
        assert forall|k: int| 0 <= k < summary.tiles@.len() implies (#[trigger] summary.tiles@[k]).tile_id
            < rects@.len() && summary.tiles@[k].tile_id < tile_images@.len() by {
            assert(is_collection_tile(summary.tiles@[k], its[k], tile_width, tile_height));
        }
        size = pack_image_collection_atlas(&summary.tiles, &mut rects, &mut tile_images);
        proof {
            let cs = summary.tiles@;
            let order = choose|order: Seq<usize>|
                #![trigger is_pack_order(cs, order)]
                {
                    &&& is_pack_order(cs, order)
                    &&& rects@ == packed_rects(no_rects(n as int), cs, order, cs.len() as int)
                    &&& tile_images@.map_values(|s: Option<TiledTilesetImageSource>| source_view(s))
                        == packed_sources(no_sources(n as int), cs, order, cs.len() as int)
                    &&& size[0] == (if pack_cursor(cs, order, cs.len() as int) >= 1 {
                        pack_cursor(cs, order, cs.len() as int)
                    } else {
                        1
                    })
                    &&& size[1] == pack_height(cs, order, cs.len() as int)
                };
            assert(collection_tiles_of(cs, its, tile_width, tile_height));
            assert(is_pack_order(cs, order));
        }
    }
    let tile_count = max_id + 1;
    Ok(
        TiledTileset {
            first_gid,
            image,
            tile_size: [tile_width, tile_height],
            columns: tile_count,
            rows: 1,
            tile_count,
            image_size: size,
            margin: 0,
            spacing: 0,
            tile_rects: rects,
            tile_images,
            tile_offset: [0, 0],
            animations: Vec::new(),
            transparent_color: None,
        },
    )
}

/// Builds an image collection tileset from a JSON tileset's tiles, whose
/// image paths are resolved against the tileset's directory. `image_size`
/// is the size read from the image file where
/// [`image_collection_image_to_measure`] asks for it. Fails on a zero first
/// gid, a missing tile size, no tile with an image, or an animation of a
/// tile beyond the tile count (the largest tile id plus one).
pub fn build_json_image_collection_tileset(
    first_gid: u32,
    tilewidth: Option<u32>,
    tileheight: Option<u32>,
    tileoffset: Option<TiledJsonTileOffset>,
    tiles: &Vec<TiledJsonTile>,
    image_size: Option<(u32, u32)>,
    source: Option<String>,
) -> (r: Result<TiledTileset, TiledImportError>)
    requires
        forall|k: int|
            0 <= k < image_tiles(tiles@).len() ==> (#[trigger] image_tiles(tiles@)[k]).id
                < u32::MAX,
        collection_needs_image_size(tiles@, true) ==> image_size is Some,
    ensures
        ({
            let src = opt_string_view(source);
            let its = image_tiles(tiles@);
            if first_gid == 0 {
                r matches Err(e) && is_unsupported_tileset(
                    e,
                    src,
                    "firstgid must be greater than zero"@,
                )
            } else if tilewidth is None {
                r matches Err(e) && is_unsupported_tileset(e, src, "tileset is missing tilewidth"@)
            } else if tileheight is None {
                r matches Err(e) && is_unsupported_tileset(e, src, "tileset is missing tileheight"@)
            } else if its.len() == 0 {
                r matches Err(e) && is_unsupported_tileset(
                    e,
                    src,
                    "only single-image tilesets are supported"@,
                )
            } else if !json_animations_fit(tiles@, (max_tile_id(its) + 1) as u32) {
                r matches Err(e) && is_unsupported_tileset(
                    e,
                    src,
                    "tileset animation references a tile outside tilecount"@,
                )
            } else {
                r matches Ok(t) && is_collection_tileset(
                    t,
                    first_gid,
                    tilewidth->0,
                    tileheight->0,
                    tiles@,
                    image_size,
                    true,
                ) && t.tile_offset == match tileoffset {
                    Some(o) => [o.x, o.y],
                    None => [0i32, 0i32],
                } && t.animations@.len() == animated_tiles(tiles@).len() && forall|i: int|
                    0 <= i < t.animations@.len() ==> animation_matches(
                        #[trigger] t.animations@[i],
                        animated_tiles(tiles@)[i],
                    )
            }
        }),
{
    if first_gid == 0 {
        return Err(unsupported_tileset(&source, "firstgid must be greater than zero"));
    }
    let tile_width = match tilewidth {
        Some(w) => w,
        None => {
            return Err(unsupported_tileset(&source, "tileset is missing tilewidth"));
        },
    };
    let tile_height = match tileheight {
        Some(h) => h,
        None => {
            return Err(unsupported_tileset(&source, "tileset is missing tileheight"));
        },
    };
    let mut tileset = build_collection(first_gid, tile_width, tile_height, tiles, image_size, true, &source)?;
    let animations = collect_json_tile_animations(tiles);
    proof {
        lemma_animations_fit(animations@, tiles@, tileset.tile_count);
    }
    if !animations_fit(&animations, tileset.tile_count) {
        return Err(
            unsupported_tileset(&source, "tileset animation references a tile outside tilecount"),
        );
    }
    tileset.animations = animations;
    tileset.tile_offset = json_tile_offset(tileoffset);
    Ok(tileset)
}

} // verus!
