use crate::tiled::error::TiledImportError;
use crate::tiled::layer::all_splits;
use crate::tiled::layer::cell_tileset;
use crate::tiled::layer::cells_of_tileset;
use crate::tiled::layer::decode_cell;
use crate::tiled::layer::first_bad_gid_in_layers;
use crate::tiled::layer::first_tileset_for;
use crate::tiled::layer::lemma_first_tileset_for;
use crate::tiled::layer::is_tilemap_bounds;
use crate::tiled::layer::layer_splits;
use crate::tiled::layer::spec_decoded_tile;
use crate::tiled::layer::spec_depth_sort;
use crate::tiled::layer::spec_gid_in_tileset;
use crate::tiled::layer::spec_gid_without_flags;
use crate::tiled::layer::split_layers_by_tileset;
use crate::tiled::layer::split_view;
use crate::tiled::layer::tiled_depth_sort_for_layers;
use crate::tiled::layer::tilemap_bounds;
use crate::tiled::layer::LayerSplit;
use crate::tiled::layer::ParsedLayer;
use crate::tiled::layer::RawCell;
use crate::tiled::layer::same_tileset;
use crate::tiled::layer::SplitView;
use crate::tiled::layer::TiledTileset;
use crate::tiled::parse::sat_i32;
use crate::tilemap::types::Tile;
use crate::tilemap::types::Tilemap;
use crate::tilemap::types::TilemapDepthSort;
use crate::tilemap::types::TilemapOrientation;
use crate::tilemap::types::TilemapRenderOrder;
use crate::tilemap::types::TilemapStaggerAxis;
use crate::tilemap::types::TilemapStaggerIndex;
use vstd::prelude::*;

verus! {

/// A parsed Tiled map before assembly: its attributes, tile layers and tilesets.
#[derive(Debug)]
pub struct ParsedMap {
    pub orientation: TilemapOrientation,
    pub stagger_axis: TilemapStaggerAxis,
    pub stagger_index: TilemapStaggerIndex,
    pub hex_side_length: u32,
    pub render_order: TilemapRenderOrder,
    pub width: u32,
    pub height: u32,
    pub tile_width: u32,
    pub tile_height: u32,
    pub infinite: bool,
    pub layers: Vec<ParsedLayer>,
    pub tilesets: Vec<TiledTileset>,
}

/// One imported tile layer: a source layer's cells of one tileset, stored
/// as one layer of the tilemap.
#[derive(Debug)]
pub struct TiledLayer {
    pub name: String,
    pub source_layer: usize,
    pub tileset_index: usize,
    pub storage_layer: u32,
    pub source_order: i32,
    pub sorting_layer: i32,
    pub visible: bool,
}

/// A tile placed in a layer of the tilemap.
#[derive(Clone, Copy, Debug, PartialEq, Eq, Structural)]
pub struct PlacedTile {
    pub layer: u32,
    pub x: u32,
    pub y: u32,
    pub tile: Tile,
}

/// Result of importing a Tiled map.
#[derive(Debug)]
pub struct TiledImport {
    pub map: Tilemap,
    pub tiles: Vec<PlacedTile>,
    pub orientation: TilemapOrientation,
    pub stagger_axis: TilemapStaggerAxis,
    pub stagger_index: TilemapStaggerIndex,
    pub hex_side_length: u32,
    pub render_order: TilemapRenderOrder,
    pub depth_sort: TilemapDepthSort,
    pub tile_size: [u32; 2],
    pub tile_origin: [i32; 2],
    pub tilesets: Vec<TiledTileset>,
    /// The first of `tilesets`.
    pub tileset: TiledTileset,
    pub layers: Vec<TiledLayer>,
}

/// Draw order of an imported layer: layer by layer, after its source
/// layer's order (times 256, saturating) and its place among the splits of
/// that layer; cell by cell, all zero.
pub open spec fn spec_sorting_layer(depth_sort: TilemapDepthSort, source_order: i32, split_order: int) -> i32 {
    match depth_sort {
        TilemapDepthSort::Layer => sat_i32(sat_i32(source_order * 256) + (split_order as i32)) as i32,
        TilemapDepthSort::YThenLayer => 0,
    }
}

/// The tiles that split `s`, stored as layer `k`, places.
pub open spec fn split_placements(
    s: SplitView,
    k: int,
    tileset: TiledTileset,
    orientation: TilemapOrientation,
    origin: (i32, i32),
    width: u32,
    height: u32,
) -> Seq<PlacedTile> {
    Seq::new(
        s.cells.len(),
        |j: int|
            {
                let d = spec_decoded_tile(s.cells[j], tileset, orientation, origin, width, height);
                PlacedTile { layer: k as u32, x: d.1, y: d.2, tile: d.0 }
            },
    )
}

/// The tiles that the first `k` splits place, split after split.
pub open spec fn placements_upto(
    splits: Seq<SplitView>,
    tilesets: Seq<TiledTileset>,
    orientation: TilemapOrientation,
    origin: (i32, i32),
    width: u32,
    height: u32,
    k: int,
) -> Seq<PlacedTile>
    decreases k,
{
    if k <= 0 {
        Seq::empty()
    } else {
        placements_upto(splits, tilesets, orientation, origin, width, height, k - 1)
            + split_placements(
            splits[k - 1],
            k - 1,
            tilesets[splits[k - 1].tileset_index],
            orientation,
            origin,
            width,
            height,
        )
    }
}

/// `layer` is the imported layer of split `s`, stored as layer `k`.
pub open spec fn layer_record_is(
    layer: TiledLayer,
    s: SplitView,
    k: int,
    source: ParsedLayer,
    depth_sort: TilemapDepthSort,
) -> bool {
    &&& layer.name@ == source.name@
    &&& layer.source_layer == s.source_layer
    &&& layer.tileset_index == s.tileset_index
    &&& layer.storage_layer == k as u32
    &&& layer.source_order == source.source_order
    &&& layer.sorting_layer == spec_sorting_layer(depth_sort, source.source_order, s.split_order)
    &&& layer.visible == source.visible
}

/// Cells of an infinite map lie less than `i32::MAX` apart on each axis.
pub open spec fn spans_fit(layers: Seq<ParsedLayer>) -> bool {
    forall|l1: int, c1: int, l2: int, c2: int|
        0 <= l1 < layers.len() && 0 <= c1 < layers[l1].cells@.len() && 0 <= l2 < layers.len() && 0
            <= c2 < layers[l2].cells@.len() ==> (#[trigger] layers[l1].cells@[c1]).x - (
        #[trigger] layers[l2].cells@[c2]).x < i32::MAX && layers[l1].cells@[c1].y
            - layers[l2].cells@[c2].y < i32::MAX
}

proof fn lemma_cells_of_tileset(cells: Seq<RawCell>, tilesets: Seq<TiledTileset>, t: int, j: int)
    requires
        0 <= j < cells_of_tileset(cells, tilesets, t).len(),
    ensures
        cell_tileset(cells_of_tileset(cells, tilesets, t)[j], tilesets) == Some(t),
        exists|i: int|
            0 <= i < cells.len() && cells[i] == #[trigger] cells_of_tileset(cells, tilesets, t)[j],
    decreases cells.len(),
{
    let prev = cells_of_tileset(cells.drop_last(), tilesets, t);
    if j < prev.len() {
        lemma_cells_of_tileset(cells.drop_last(), tilesets, t, j);
        let i = choose|i: int|
            0 <= i < cells.drop_last().len() && cells.drop_last()[i] == #[trigger] cells_of_tileset(
                cells.drop_last(),
                tilesets,
                t,
            )[j];
        assert(cells[i] == cells.drop_last()[i]);
    } else {
        assert(cells[cells.len() - 1] == cells.last());
    }
}

proof fn lemma_layer_splits(l: int, cells: Seq<RawCell>, tilesets: Seq<TiledTileset>, t: int, m: int)
    requires
        0 <= m < layer_splits(l, cells, tilesets, t).len(),
    ensures
        layer_splits(l, cells, tilesets, t)[m].source_layer == l,
        0 <= layer_splits(l, cells, tilesets, t)[m].tileset_index < t,
        layer_splits(l, cells, tilesets, t)[m].cells == cells_of_tileset(
            cells,
            tilesets,
            layer_splits(l, cells, tilesets, t)[m].tileset_index,
        ),
    decreases t,
{
    if t > 0 {
        let prev = layer_splits(l, cells, tilesets, t - 1);
        if m < prev.len() {
            lemma_layer_splits(l, cells, tilesets, t - 1, m);
        }
    }
}

proof fn lemma_all_splits(layers: Seq<ParsedLayer>, tilesets: Seq<TiledTileset>, m: int)
    requires
        0 <= m < all_splits(layers, tilesets).len(),
    ensures
        0 <= all_splits(layers, tilesets)[m].source_layer < layers.len(),
        0 <= all_splits(layers, tilesets)[m].tileset_index < tilesets.len(),
        all_splits(layers, tilesets)[m].cells == cells_of_tileset(
            layers[all_splits(layers, tilesets)[m].source_layer].cells@,
            tilesets,
            all_splits(layers, tilesets)[m].tileset_index,
        ),
    decreases layers.len(),
{
    let prev = all_splits(layers.drop_last(), tilesets);
    if m < prev.len() {
        lemma_all_splits(layers.drop_last(), tilesets, m);
        assert(layers.drop_last()[prev[m].source_layer] == layers[prev[m].source_layer]);
    } else {
        lemma_layer_splits(
            layers.len() - 1,
            layers.last().cells@,
            tilesets,
            tilesets.len() as int,
            m - prev.len(),
        );
    }
}

/// Assembles an imported map. Every layer is split by the tilesets it uses;
/// each split becomes one layer of the tilemap, in order, and its cells are
/// placed as tiles. Fails without tilesets, or on a cell whose gid no
/// tileset holds.
pub fn from_parts(parts: ParsedMap) -> (r: Result<TiledImport, TiledImportError>)
    requires
        parts.infinite ==> spans_fit(parts.layers@),
    ensures
        parts.tilesets@.len() == 0 ==> r matches Err(TiledImportError::MissingTileset),
        parts.tilesets@.len() > 0 && first_bad_gid_in_layers(parts.layers@, parts.tilesets@)
            is Some ==> (r matches Err(TiledImportError::TileGidOutOfRange { gid }) && Some(gid)
            == first_bad_gid_in_layers(parts.layers@, parts.tilesets@)),
        parts.tilesets@.len() > 0 && first_bad_gid_in_layers(parts.layers@, parts.tilesets@)
            is None ==> (r matches Ok(import) && {
            let splits = all_splits(parts.layers@, parts.tilesets@);
            let origin = (import.tile_origin[0], import.tile_origin[1]);
            let source_width = if parts.orientation == TilemapOrientation::Isometric {
                import.map.height
            } else {
                import.map.width
            };
            let source_height = if parts.orientation == TilemapOrientation::Isometric {
                import.map.width
            } else {
                import.map.height
            };
            &&& is_tilemap_bounds(
                parts.infinite,
                parts.width,
                parts.height,
                parts.layers@,
                (origin, source_width, source_height),
            )
            &&& import.map.layer_count == splits.len() as u32
            &&& import.depth_sort == spec_depth_sort(
                parts.orientation,
                [parts.tile_width, parts.tile_height],
                parts.tilesets@,
                splits.len() as int,
            )
            &&& import.layers@.len() == splits.len()
            &&& forall|k: int|
                0 <= k < splits.len() ==> layer_record_is(
                    #[trigger] import.layers@[k],
                    splits[k],
                    k,
                    parts.layers@[splits[k].source_layer],
                    import.depth_sort,
                )
            &&& import.tiles@ == placements_upto(
                splits,
                parts.tilesets@,
                parts.orientation,
                origin,
                source_width,
                source_height,
                splits.len() as int,
            )
            &&& import.orientation == parts.orientation
            &&& import.stagger_axis == parts.stagger_axis
            &&& import.stagger_index == parts.stagger_index
            &&& import.hex_side_length == parts.hex_side_length
            &&& import.render_order == parts.render_order
            &&& import.tile_size == [parts.tile_width, parts.tile_height]
            &&& import.tilesets@ == parts.tilesets@
            &&& same_tileset(import.tileset, parts.tilesets@[0])
        }),
{
    if parts.tilesets.len() == 0 {
        return Err(TiledImportError::MissingTileset);
    }
    let splits = split_layers_by_tileset(&parts.layers, &parts.tilesets)?;
    let ghost views = all_splits(parts.layers@, parts.tilesets@);
    let (origin, source_width, source_height) = tilemap_bounds(
        parts.infinite,
        parts.width,
        parts.height,
        &parts.layers,
    );
    let (width, height) = match parts.orientation {
        TilemapOrientation::Isometric => (source_height, source_width),
        _ => (source_width, source_height),
    };
    let map = Tilemap::new(width, height, splits.len() as u32);
    let depth_sort = tiled_depth_sort_for_layers(
        parts.orientation,
        [parts.tile_width, parts.tile_height],
        &parts.tilesets,
        splits.len(),
    );
    let mut tiles: Vec<PlacedTile> = Vec::new();
    let mut layers: Vec<TiledLayer> = Vec::new();
    let mut k: usize = 0;
    while k < splits.len()
        invariant
            k <= splits.len(),
            splits@.map_values(|s: LayerSplit| split_view(s)) == views,
            views == all_splits(parts.layers@, parts.tilesets@),
            parts.infinite ==> spans_fit(parts.layers@),
            is_tilemap_bounds(
                parts.infinite,
                parts.width,
                parts.height,
                parts.layers@,
                (origin, source_width, source_height),
            ),
            layers@.len() == k,
            forall|j: int|
                0 <= j < k ==> layer_record_is(
                    #[trigger] layers@[j],
                    views[j],
                    j,
                    parts.layers@[views[j].source_layer],
                    depth_sort,
                ),
            tiles@ == placements_upto(
                views,
                parts.tilesets@,
                parts.orientation,
                origin,
                source_width,
                source_height,
                k as int,
            ),
        decreases splits.len() - k,
    {
        let split = &splits[k];
        assert(split_view(*split) == views[k as int]);
        proof {
            lemma_all_splits(parts.layers@, parts.tilesets@, k as int);
        }
        let source = &parts.layers[split.source_layer];
        let tileset = &parts.tilesets[split.tileset_index];
        let ghost before = tiles@;
        let mut j: usize = 0;
        while j < split.cells.len()
            invariant
                k < splits.len(),
                split == splits@[k as int],
                split_view(*split) == views[k as int],
                views == all_splits(parts.layers@, parts.tilesets@),
                0 <= views[k as int].source_layer < parts.layers@.len(),
                0 <= views[k as int].tileset_index < parts.tilesets@.len(),
                views[k as int].cells == cells_of_tileset(
                    parts.layers@[views[k as int].source_layer].cells@,
                    parts.tilesets@,
                    views[k as int].tileset_index,
                ),
                tileset == parts.tilesets@[split.tileset_index as int],
                parts.infinite ==> spans_fit(parts.layers@),
                is_tilemap_bounds(
                    parts.infinite,
                    parts.width,
                    parts.height,
                    parts.layers@,
                    (origin, source_width, source_height),
                ),
                j <= split.cells.len(),
                tiles@ == before + split_placements(
                    views[k as int],
                    k as int,
                    *tileset,
                    parts.orientation,
                    origin,
                    source_width,
                    source_height,
                ).take(j as int),
            decreases split.cells.len() - j,
        {
            let cell = split.cells[j];
            proof {
                let l = views[k as int].source_layer;
                let t = views[k as int].tileset_index;
                lemma_cells_of_tileset(parts.layers@[l].cells@, parts.tilesets@, t, j as int);
                let i = choose|i: int|
                    0 <= i < parts.layers@[l].cells@.len() && parts.layers@[l].cells@[i]
                        == #[trigger] cells_of_tileset(parts.layers@[l].cells@, parts.tilesets@, t)[j as int];
                assert(parts.layers@[l].cells@[i] == cell);
                let gid = spec_gid_without_flags(cell.gid);
                assert(first_tileset_for(gid, parts.tilesets@) == Some(t));
                lemma_first_tileset_for(gid, parts.tilesets@);
                assert(spec_gid_in_tileset(gid, parts.tilesets@[t]));
                if parts.infinite {
                    let (l0, c0) = choose|l0: int, c0: int|
                        0 <= l0 < parts.layers@.len() && 0 <= c0 < parts.layers@[l0].cells@.len()
                            && (#[trigger] parts.layers@[l0].cells@[c0]).x == origin.0;
                    let (l1, c1) = choose|l1: int, c1: int|
                        0 <= l1 < parts.layers@.len() && 0 <= c1 < parts.layers@[l1].cells@.len()
                            && (#[trigger] parts.layers@[l1].cells@[c1]).y == origin.1;
                    assert(parts.layers@[l].cells@[i].x - parts.layers@[l0].cells@[c0].x < i32::MAX);
                    assert(parts.layers@[l].cells@[i].y - parts.layers@[l1].cells@[c1].y < i32::MAX);
                    assert(origin.0 <= parts.layers@[l].cells@[i].x);
                    assert(origin.1 <= parts.layers@[l].cells@[i].y);
                }
            }
            let placed = decode_cell(
                cell,
                tileset,
                parts.orientation,
                origin,
                source_width,
                source_height,
            );
            let (tile, x, y) = match placed {
                Ok(Some(p)) => p,
                _ => {
                    proof {
                        assert(false);
                    }
                    return Err(TiledImportError::MissingTileset);
                },
            };
            tiles.push(PlacedTile { layer: k as u32, x, y, tile });
            assert(split_placements(
                views[k as int],
                k as int,
                *tileset,
                parts.orientation,
                origin,
                source_width,
                source_height,
            ).take(j + 1) =~= split_placements(
                views[k as int],
                k as int,
                *tileset,
                parts.orientation,
                origin,
                source_width,
                source_height,
            ).take(j as int).push(PlacedTile { layer: k as u32, x, y, tile }));
            j = j + 1;
        }
        assert(split_placements(
            views[k as int],
            k as int,
            *tileset,
            parts.orientation,
            origin,
            source_width,
            source_height,
        ).take(j as int) =~= split_placements(
            views[k as int],
            k as int,
            *tileset,
            parts.orientation,
            origin,
            source_width,
            source_height,
        ));
        let order = split.split_order as i32;
        let sorting_layer = match depth_sort {
            TilemapDepthSort::Layer => saturating_add_i32(
                saturating_mul_256(source.source_order),
                order,
            ),
            TilemapDepthSort::YThenLayer => 0,
        };
        layers.push(
            TiledLayer {
                name: source.name.clone(),
                source_layer: split.source_layer,
                tileset_index: split.tileset_index,
                storage_layer: k as u32,
                source_order: source.source_order,
                sorting_layer,
                visible: source.visible,
            },
        );
        k = k + 1;
    }
    let tileset = parts.tilesets[0].duplicate();
    Ok(
        TiledImport {
            map,
            tiles,
            orientation: parts.orientation,
            stagger_axis: parts.stagger_axis,
            stagger_index: parts.stagger_index,
            hex_side_length: parts.hex_side_length,
            render_order: parts.render_order,
            depth_sort,
            tile_size: [parts.tile_width, parts.tile_height],
            tile_origin: [origin.0, origin.1],
            tilesets: parts.tilesets,
            tileset,
            layers,
        },
    )
}

fn saturating_add_i32(a: i32, b: i32) -> (r: i32)
    ensures
        r == sat_i32(a + b),
{
    match a.checked_add(b) {
        Some(v) => v,
        None => if b > 0 {
            i32::MAX
        } else {
            i32::MIN
        },
    }
}

fn saturating_mul_256(a: i32) -> (r: i32)
    ensures
        r == sat_i32(a * 256),
{
    match a.checked_mul(256) {
        Some(v) => v,
        None => if a > 0 {
            i32::MAX
        } else {
            i32::MIN
        },
    }
}

} // verus!
