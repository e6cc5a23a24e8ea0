use crate::text::str_equal;
use crate::tiled::data::decode_json_gids;
use crate::tiled::data::gids_outcome;
use crate::tiled::data::opt_view;
use crate::tiled::data::spec_json_gids;
use crate::tiled::data::GidsFailure;
use crate::tiled::data::TiledLayerData;
use crate::tiled::error::is_unsupported;
use crate::tiled::error::map_failure_is;
use crate::tiled::error::MapFailure;
use crate::tiled::error::TiledImportError;
use crate::tiled::properties::collect_json_properties;
use crate::tiled::properties::json_color_splits_cleanly;
use crate::tiled::properties::json_property_colors_split_cleanly;
use crate::tiled::properties::properties_view;
use crate::tiled::properties::spec_json_properties;
use crate::tiled::properties::table_view;
use crate::tiled::properties::JsonProperty;
use crate::tiled::properties::PropertyValueView;
use crate::tiled::properties::TiledProperty;
use crate::tiled::data::failure_is;
use crate::tiled::layer::ParsedLayer;
use crate::tiled::layer::RawCell;
use crate::tilemap::types::TilemapOrientation;
use crate::tilemap::types::TilemapRenderOrder;
use crate::tilemap::types::TilemapStaggerAxis;
use crate::tilemap::types::TilemapStaggerIndex;
use vstd::prelude::*;

verus! {

/// The orientation that Tiled names `value`.
pub open spec fn spec_orientation(value: Seq<char>) -> Option<TilemapOrientation> {
    if value == "orthogonal"@ {
        Some(TilemapOrientation::Orthogonal)
    } else if value == "isometric"@ {
        Some(TilemapOrientation::Isometric)
    } else if value == "staggered"@ {
        Some(TilemapOrientation::Staggered)
    } else if value == "hexagonal"@ {
        Some(TilemapOrientation::Hexagonal)
    } else {
        None
    }
}

/// Reads a map's `orientation` attribute.
pub fn parse_orientation(value: &str) -> (r: Result<TilemapOrientation, TiledImportError>)
    ensures
        match spec_orientation(value@) {
            Some(o) => r matches Ok(x) && x == o,
            None => r matches Err(TiledImportError::UnsupportedOrientation(s)) && s@ == value@,
        },
{
    if str_equal(value, "orthogonal") {
        Ok(TilemapOrientation::Orthogonal)
    } else if str_equal(value, "isometric") {
        Ok(TilemapOrientation::Isometric)
    } else if str_equal(value, "staggered") {
        Ok(TilemapOrientation::Staggered)
    } else if str_equal(value, "hexagonal") {
        Ok(TilemapOrientation::Hexagonal)
    } else {
        Err(TiledImportError::UnsupportedOrientation(value.to_owned()))
    }
}

/// Reads a map's `staggeraxis` attribute.
pub fn parse_stagger_axis(value: &str) -> (r: Result<TilemapStaggerAxis, TiledImportError>)
    ensures
        value@ == "x"@ ==> r matches Ok(TilemapStaggerAxis::X),
        value@ == "y"@ ==> r matches Ok(TilemapStaggerAxis::Y),
        value@ != "x"@ && value@ != "y"@ ==> (r matches Err(e) && is_unsupported(
            e,
            "map"@,
            "unsupported staggeraxis; expected x or y"@,
        )),
{
    proof {
        reveal_strlit("x");
        reveal_strlit("y");
        assert("x"@ != "y"@) by {
            assert("x"@[0] != "y"@[0]);
        }
    }
    if str_equal(value, "x") {
        Ok(TilemapStaggerAxis::X)
    } else if str_equal(value, "y") {
        Ok(TilemapStaggerAxis::Y)
    } else {
        Err(
            TiledImportError::UnsupportedLayerData {
                layer: "map".to_owned(),
                reason: "unsupported staggeraxis; expected x or y",
            },
        )
    }
}

/// Reads a map's `staggerindex` attribute.
pub fn parse_stagger_index(value: &str) -> (r: Result<TilemapStaggerIndex, TiledImportError>)
    ensures
        value@ == "odd"@ ==> r matches Ok(TilemapStaggerIndex::Odd),
        value@ == "even"@ ==> r matches Ok(TilemapStaggerIndex::Even),
        value@ != "odd"@ && value@ != "even"@ ==> (r matches Err(e) && is_unsupported(
            e,
            "map"@,
            "unsupported staggerindex; expected odd or even"@,
        )),
{
    proof {
        reveal_strlit("odd");
        reveal_strlit("even");
        assert("odd"@ != "even"@) by {
            assert("odd"@.len() != "even"@.len());
        }
    }
    if str_equal(value, "odd") {
        Ok(TilemapStaggerIndex::Odd)
    } else if str_equal(value, "even") {
        Ok(TilemapStaggerIndex::Even)
    } else {
        Err(
            TiledImportError::UnsupportedLayerData {
                layer: "map".to_owned(),
                reason: "unsupported staggerindex; expected odd or even",
            },
        )
    }
}

/// The render order that Tiled names `value`.
pub open spec fn spec_render_order(value: Seq<char>) -> Option<TilemapRenderOrder> {
    if value == "right-down"@ {
        Some(TilemapRenderOrder::RightDown)
    } else if value == "right-up"@ {
        Some(TilemapRenderOrder::RightUp)
    } else if value == "left-down"@ {
        Some(TilemapRenderOrder::LeftDown)
    } else if value == "left-up"@ {
        Some(TilemapRenderOrder::LeftUp)
    } else {
        None
    }
}

/// Reads a map's `renderorder` attribute; an empty value has an error of
/// its own.
pub fn parse_render_order(value: &str) -> (r: Result<TilemapRenderOrder, TiledImportError>)
    ensures
        match spec_render_order(value@) {
            Some(o) => r matches Ok(x) && x == o,
            None => r matches Err(e) && is_unsupported(
                e,
                "map"@,
                if value@.len() == 0 {
                    "renderorder is empty"@
                } else {
                    "unsupported renderorder; expected right-down, right-up, left-down, or left-up"@
                },
            ),
        },
{
    if str_equal(value, "right-down") {
        Ok(TilemapRenderOrder::RightDown)
    } else if str_equal(value, "right-up") {
        Ok(TilemapRenderOrder::RightUp)
    } else if str_equal(value, "left-down") {
        Ok(TilemapRenderOrder::LeftDown)
    } else if str_equal(value, "left-up") {
        Ok(TilemapRenderOrder::LeftUp)
    } else if str_equal(value, "") {
        proof {
            reveal_strlit("");
            assert(value@.len() == 0);
        }
        Err(
            TiledImportError::UnsupportedLayerData {
                layer: "map".to_owned(),
                reason: "renderorder is empty",
            },
        )
    } else {
        proof {
            reveal_strlit("");
            if value@.len() == 0 {
                assert(value@ =~= ""@);
            }
        }
        Err(
            TiledImportError::UnsupportedLayerData {
                layer: "map".to_owned(),
                reason: "unsupported renderorder; expected right-down, right-up, left-down, or left-up",
            },
        )
    }
}

pub open spec fn sat_i32(v: int) -> int {
    if v > i32::MAX {
        i32::MAX as int
    } else if v < i32::MIN {
        i32::MIN as int
    } else {
        v
    }
}

/// The stagger parity the renderer must use for an imported map. Tiled's
/// parity counts from the map's first stored row or column; the engine's
/// from its origin cell, which for the y axis is Tiled's last row. Where that
/// cell sits on an odd Tiled coordinate, the parity flips.
pub open spec fn spec_renderer_stagger_index(
    orientation: TilemapOrientation,
    stagger_axis: TilemapStaggerAxis,
    stagger_index: TilemapStaggerIndex,
    tile_origin: [i32; 2],
    map_height: u32,
) -> TilemapStaggerIndex {
    if orientation != TilemapOrientation::Staggered && orientation
        != TilemapOrientation::Hexagonal {
        stagger_index
    } else {
        let parity_source: i32 = match stagger_axis {
            TilemapStaggerAxis::X => tile_origin[0],
            TilemapStaggerAxis::Y => sat_i32(
                tile_origin[1] + ((if map_height >= 1 {
                    map_height - 1
                } else {
                    0
                }) as i32),
            ) as i32,
        };
        if parity_source & 1 != 0 {
            match stagger_index {
                TilemapStaggerIndex::Odd => TilemapStaggerIndex::Even,
                TilemapStaggerIndex::Even => TilemapStaggerIndex::Odd,
            }
        } else {
            stagger_index
        }
    }
}

fn saturating_add_i32(a: i32, b: i32) -> (r: i32)
    ensures
        r == sat_i32(a + b),
{
    match a.checked_add(b) {
        Some(v) => v,
        None => if b > 0 {
            i32::MAX
        } else {
            i32::MIN
        },
    }
}

pub fn renderer_stagger_index(
    orientation: TilemapOrientation,
    stagger_axis: TilemapStaggerAxis,
    stagger_index: TilemapStaggerIndex,
    tile_origin: [i32; 2],
    map_height: u32,
) -> (r: TilemapStaggerIndex)
    ensures
        r == spec_renderer_stagger_index(
            orientation,
            stagger_axis,
            stagger_index,
            tile_origin,
            map_height,
        ),
{
    match orientation {
        TilemapOrientation::Staggered | TilemapOrientation::Hexagonal => {},
        _ => {
            return stagger_index;
        },
    }
    let parity_source: i32 = match stagger_axis {
        TilemapStaggerAxis::X => tile_origin[0],
        TilemapStaggerAxis::Y => saturating_add_i32(
            tile_origin[1],
            map_height.saturating_sub(1) as i32,
        ),
    };
    if parity_source & 1 != 0 {
        stagger_index.inverted()
    } else {
        stagger_index
    }
}

/// One chunk of an infinite JSON tile layer.
#[derive(Debug)]
pub struct TiledJsonChunk {
    pub x: i32,
    pub y: i32,
    pub width: u32,
    pub height: u32,
    pub data: TiledLayerData,
    pub encoding: Option<String>,
    pub compression: Option<String>,
}

/// One layer of a JSON map: its kind (`tilelayer`, `objectgroup`, `group`
/// or another), its visibility, its tile data, a group's child layers, and
/// its custom properties.
#[derive(Debug)]
pub struct TiledJsonLayer {
    pub name: String,
    pub layer_type: String,
    pub visible: bool,
    pub x: i32,
    pub y: i32,
    pub width: Option<u32>,
    pub height: Option<u32>,
    pub data: Option<TiledLayerData>,
    pub encoding: Option<String>,
    pub compression: Option<String>,
    pub chunks: Vec<TiledJsonChunk>,
    pub layers: Vec<TiledJsonLayer>,
    pub properties: Vec<JsonProperty>,
}

pub open spec fn opt_string_view(s: Option<String>) -> Option<Seq<char>> {
    match s {
        Some(v) => Some(v@),
        None => None,
    }
}

/// The cells of a block at `(x, y)`, `width` cells wide, with the row-major
/// gids `gids`.
pub open spec fn block_cells(x: int, y: int, width: int, gids: Seq<u32>) -> Seq<RawCell> {
    Seq::new(
        gids.len(),
        |i: int| RawCell { x: (x + i % width) as i32, y: (y + i / width) as i32, gid: gids[i] },
    )
}

/// `cells` are the cells of a `width` x `height` block at `(x, y)` with the
/// row-major gids `gids`.
pub open spec fn is_block(cells: Seq<RawCell>, x: int, y: int, width: int, gids: Seq<u32>) -> bool {
    &&& cells.len() == gids.len()
    &&& forall|i: int|
        0 <= i < gids.len() ==> (#[trigger] cells[i]).gid == gids[i] && cells[i].x == x + i
            % width && cells[i].y == y + i / width
}

pub(crate) fn push_block(
    cells: &mut Vec<RawCell>,
    x: i32,
    y: i32,
    width: u32,
    height: u32,
    gids: &Vec<u32>,
)
    requires
        gids.len() == width * height,
        width * height <= u32::MAX,
        width <= i32::MAX,
        height <= i32::MAX,
        x + width <= i32::MAX,
        y + height <= i32::MAX,
    ensures
        final(cells)@.len() == old(cells)@.len() + gids@.len(),
        final(cells)@.subrange(0, old(cells)@.len() as int) == old(cells)@,
        is_block(
            final(cells)@.subrange(old(cells)@.len() as int, final(cells)@.len() as int),
            x as int,
            y as int,
            width as int,
            gids@,
        ),
        final(cells)@ == old(cells)@ + block_cells(x as int, y as int, width as int, gids@),
{
    let ghost start = cells@;
    let mut local_y: u32 = 0;
    while local_y < height
        invariant
            gids.len() == width * height,
            width * height <= u32::MAX,
            width <= i32::MAX,
            height <= i32::MAX,
            x + width <= i32::MAX,
            y + height <= i32::MAX,
            local_y <= height,
            cells@.len() == start.len() + local_y * width,
            cells@.subrange(0, start.len() as int) == start,
            forall|i: int|
                0 <= i < local_y * width ==> (#[trigger] cells@[start.len() + i]).gid == gids@[i]
                    && cells@[start.len() + i].x == x + i % (width as int) && cells@[start.len()
                    + i].y == y + i / (width as int),
        decreases height - local_y,
    {
        let mut local_x: u32 = 0;
        while local_x < width
            invariant
                gids.len() == width * height,
                width * height <= u32::MAX,
                width <= i32::MAX,
                height <= i32::MAX,
                x + width <= i32::MAX,
                y + height <= i32::MAX,
                local_y < height,
                local_x <= width,
                cells@.len() == start.len() + local_y * width + local_x,
                cells@.subrange(0, start.len() as int) == start,
                forall|i: int|
                    0 <= i < local_y * width + local_x ==> (#[trigger] cells@[start.len()
                        + i]).gid == gids@[i] && cells@[start.len() + i].x == x + i % (
                    width as int) && cells@[start.len() + i].y == y + i / (width as int),
            decreases width - local_x,
        {
            assert(local_y * width + local_x < width * height) by (nonlinear_arith)
                requires
                    local_y < height,
                    local_x < width,
            ;
            let index = (local_y * width + local_x) as usize;
            proof {
                lemma_row_major_div_mod(local_y as int, local_x as int, width as int);
            }
            let ghost before = cells@;
            cells.push(RawCell { x: x + local_x as i32, y: y + local_y as i32, gid: gids[index] });
            assert(cells@.subrange(0, start.len() as int) =~= before.subrange(0, start.len() as int));
            local_x = local_x + 1;
        }
        assert((local_y + 1) * width == local_y * width + width) by (nonlinear_arith);
        local_y = local_y + 1;
    }
    assert(height * width == width * height) by (nonlinear_arith);
    let ghost block = cells@.subrange(start.len() as int, cells@.len() as int);
    assert(block.len() == gids@.len());
    assert forall|i: int| 0 <= i < gids@.len() implies (#[trigger] block[i]).gid == gids@[i]
        && block[i].x == x + i % (width as int) && block[i].y == y + i / (width as int) by {
        assert(block[i] == cells@[start.len() + i]);
    }
    assert(block =~= block_cells(x as int, y as int, width as int, gids@));
    assert(cells@ =~= start + block);
}

proof fn lemma_row_major_div_mod(r: int, c: int, w: int)
    requires
        0 <= r,
        0 <= c < w,
    ensures
        (r * w + c) % w == c,
        (r * w + c) / w == r,
{
    assert((r * w + c) % w == c && (r * w + c) / w == r) by (nonlinear_arith)
        requires
            0 <= r,
            0 <= c < w,
    ;
}

/// The option of the first argument, else of the second.
pub open spec fn or_else(a: Option<Seq<char>>, b: Option<Seq<char>>) -> Option<Seq<char>> {
    match a {
        Some(v) => Some(v),
        None => b,
    }
}

/// Cells of one chunk of a layer whose own encoding and compression are the
/// fallbacks of the chunk's.
pub open spec fn spec_chunk_cells(
    chunk: TiledJsonChunk,
    encoding: Option<Seq<char>>,
    compression: Option<Seq<char>>,
) -> Result<Seq<RawCell>, GidsFailure> {
    match spec_json_gids(
        chunk.data,
        or_else(opt_string_view(chunk.encoding), encoding),
        or_else(opt_string_view(chunk.compression), compression),
    ) {
        Err(f) => Err(f),
        Ok(gids) => if gids.len() != chunk.width * chunk.height {
            Err(GidsFailure::Unsupported("chunk data length does not match width * height"@))
        } else {
            Ok(block_cells(chunk.x as int, chunk.y as int, chunk.width as int, gids))
        },
    }
}

/// Cells of `chunks`, chunk after chunk; or the first chunk's failure.
pub open spec fn spec_chunks_cells(
    chunks: Seq<TiledJsonChunk>,
    encoding: Option<Seq<char>>,
    compression: Option<Seq<char>>,
) -> Result<Seq<RawCell>, GidsFailure>
    decreases chunks.len(),
{
    if chunks.len() == 0 {
        Ok(Seq::empty())
    } else {
        match spec_chunks_cells(chunks.drop_last(), encoding, compression) {
            Err(f) => Err(f),
            Ok(prev) => match spec_chunk_cells(chunks.last(), encoding, compression) {
                Err(f) => Err(f),
                Ok(more) => Ok(prev + more),
            },
        }
    }
}

/// Cells of a JSON tile layer: those of its chunks when it has any; else
/// none without data; else its data as one block at the layer's position,
/// which needs the layer's width and height and exactly that many gids.
pub open spec fn spec_layer_cells(layer: TiledJsonLayer) -> Result<Seq<RawCell>, GidsFailure> {
    let encoding = opt_string_view(layer.encoding);
    let compression = opt_string_view(layer.compression);
    if layer.chunks@.len() > 0 {
        spec_chunks_cells(layer.chunks@, encoding, compression)
    } else {
        match layer.data {
            None => Ok(Seq::empty()),
            Some(data) => match spec_json_gids(data, encoding, compression) {
                Err(f) => Err(f),
                Ok(gids) => match layer.width {
                    None => Err(GidsFailure::Unsupported("finite tile layer is missing width"@)),
                    Some(width) => match layer.height {
                        None => Err(
                            GidsFailure::Unsupported("finite tile layer is missing height"@),
                        ),
                        Some(height) => if gids.len() != width * height {
                            Err(
                                GidsFailure::Unsupported(
                                    "tile data length does not match width * height"@,
                                ),
                            )
                        } else {
                            Ok(block_cells(layer.x as int, layer.y as int, width as int, gids))
                        },
                    },
                },
            },
        }
    }
}

/// A block of `width` x `height` cells at `(x, y)` has coordinates that fit.
pub open spec fn block_fits(x: i32, y: i32, width: u32, height: u32) -> bool {
    &&& width * height <= u32::MAX
    &&& width <= i32::MAX
    &&& height <= i32::MAX
    &&& x + width <= i32::MAX
    &&& y + height <= i32::MAX
}

pub open spec fn cells_outcome(
    r: Result<Vec<RawCell>, TiledImportError>,
    layer: Seq<char>,
    spec: Result<Seq<RawCell>, GidsFailure>,
) -> bool {
    match spec {
        Ok(v) => r is Ok && r->Ok_0@ == v,
        Err(f) => r is Err && crate::tiled::data::failure_is(r->Err_0, layer, f),
    }
}

fn opt_str(s: &Option<String>) -> (r: Option<&str>)
    ensures
        opt_view(r) == opt_string_view(*s),
{
    match s {
        Some(v) => Some(v.as_str()),
        None => None,
    }
}

/// Reads the cells of a JSON tile layer.
pub fn collect_layer_cells(layer: &TiledJsonLayer) -> (r: Result<Vec<RawCell>, TiledImportError>)
    requires
        forall|k: int|
            0 <= k < layer.chunks@.len() ==> block_fits(
                (#[trigger] layer.chunks@[k]).x,
                layer.chunks@[k].y,
                layer.chunks@[k].width,
                layer.chunks@[k].height,
            ),
        match (layer.width, layer.height) {
            (Some(w), Some(h)) => block_fits(layer.x, layer.y, w, h),
            _ => true,
        },
    ensures
        cells_outcome(r, layer.name@, spec_layer_cells(*layer)),
{
    let encoding = opt_str(&layer.encoding);
    let compression = opt_str(&layer.compression);
    if layer.chunks.len() > 0 {
        let mut cells: Vec<RawCell> = Vec::new();
        let mut k: usize = 0;
        assert(layer.chunks@.take(0) =~= Seq::<TiledJsonChunk>::empty());
        while k < layer.chunks.len()
            invariant
                k <= layer.chunks.len(),
                opt_view(encoding) == opt_string_view(layer.encoding),
                opt_view(compression) == opt_string_view(layer.compression),
                forall|j: int|
                    0 <= j < layer.chunks@.len() ==> block_fits(
                        (#[trigger] layer.chunks@[j]).x,
                        layer.chunks@[j].y,
                        layer.chunks@[j].width,
                        layer.chunks@[j].height,
                    ),
                spec_chunks_cells(layer.chunks@.take(k as int), opt_view(encoding), opt_view(compression))
                    == Ok::<Seq<RawCell>, GidsFailure>(cells@),
            decreases layer.chunks.len() - k,
        {
            let chunk = &layer.chunks[k];
            assert(layer.chunks@.take(k + 1).drop_last() =~= layer.chunks@.take(k as int));
            let chunk_encoding = match opt_str(&chunk.encoding) {
                Some(e) => Some(e),
                None => encoding,
            };
            let chunk_compression = match opt_str(&chunk.compression) {
                Some(c) => Some(c),
                None => compression,
            };
            let data = decode_json_gids(&chunk.data, layer.name.as_str(), chunk_encoding, chunk_compression);
            let data = match data {
                Ok(d) => d,
                Err(e) => {
                    proof {
                        lemma_chunks_error_persists(layer.chunks@, k as int + 1, opt_view(encoding), opt_view(compression));
                    }
                    return Err(e);
                },
            };
            if data.len() as u64 != chunk.width as u64 * chunk.height as u64 {
                proof {
                    lemma_chunks_error_persists(layer.chunks@, k as int + 1, opt_view(encoding), opt_view(compression));
                }
                return Err(
                    TiledImportError::UnsupportedLayerData {
                        layer: layer.name.clone(),
                        reason: "chunk data length does not match width * height",
                    },
                );
            }
            push_block(&mut cells, chunk.x, chunk.y, chunk.width, chunk.height, &data);
            k = k + 1;
        }
        assert(layer.chunks@.take(k as int) =~= layer.chunks@);
        return Ok(cells);
    }
    let data = match &layer.data {
        None => {
            return Ok(Vec::new());
        },
        Some(data) => data,
    };
    let data = decode_json_gids(data, layer.name.as_str(), encoding, compression)?;
    let width = match layer.width {
        None => {
            return Err(
                TiledImportError::UnsupportedLayerData {
                    layer: layer.name.clone(),
                    reason: "finite tile layer is missing width",
                },
            );
        },
        Some(w) => w,
    };
    let height = match layer.height {
        None => {
            return Err(
                TiledImportError::UnsupportedLayerData {
                    layer: layer.name.clone(),
                    reason: "finite tile layer is missing height",
                },
            );
        },
        Some(h) => h,
    };
    if data.len() as u64 != width as u64 * height as u64 {
        return Err(
            TiledImportError::UnsupportedLayerData {
                layer: layer.name.clone(),
                reason: "tile data length does not match width * height",
            },
        );
    }
    let mut cells: Vec<RawCell> = Vec::new();
    push_block(&mut cells, layer.x, layer.y, width, height, &data);
    assert(cells@ =~= block_cells(layer.x as int, layer.y as int, width as int, data@));
    Ok(cells)
}

proof fn lemma_chunks_error_persists(
    chunks: Seq<TiledJsonChunk>,
    k: int,
    encoding: Option<Seq<char>>,
    compression: Option<Seq<char>>,
)
    requires
        0 <= k <= chunks.len(),
        spec_chunks_cells(chunks.take(k), encoding, compression) is Err,
    ensures
        spec_chunks_cells(chunks, encoding, compression) == spec_chunks_cells(
            chunks.take(k),
            encoding,
            compression,
        ),
    decreases chunks.len(),
{
    if k == chunks.len() {
        assert(chunks.take(k) =~= chunks);
    } else {
        let t = chunks.drop_last();
        assert(chunks.take(k) =~= t.take(k));
        lemma_chunks_error_persists(t, k, encoding, compression);
    }
}

/// The name, order and visibility of an object layer of a JSON map (its
/// objects are read apart).
#[derive(Debug)]
pub struct ParsedObjectLayerHeader {
    pub name: String,
    pub source_order: i32,
    pub visible: bool,
}

/// What a walk over a map's layers has gathered: the tile layers (name,
/// order, visibility, cells) and their properties, the object layers (name,
/// order, visibility) and their properties, and the next layer's order.
pub ghost struct LayerWalk {
    pub layers: Seq<(Seq<char>, i32, bool, Seq<RawCell>)>,
    pub layer_properties: Seq<Seq<(Seq<char>, PropertyValueView)>>,
    pub objects: Seq<(Seq<char>, i32, bool)>,
    pub object_properties: Seq<Seq<(Seq<char>, PropertyValueView)>>,
    pub order: i32,
}

/// The walk that has gathered nothing, at order 0.
pub open spec fn empty_walk() -> LayerWalk {
    LayerWalk {
        layers: Seq::empty(),
        layer_properties: Seq::empty(),
        objects: Seq::empty(),
        object_properties: Seq::empty(),
        order: 0,
    }
}

pub open spec fn layer_records(layers: Seq<ParsedLayer>) -> Seq<(Seq<char>, i32, bool, Seq<RawCell>)> {
    layers.map_values(|l: ParsedLayer| (l.name@, l.source_order, l.visible, l.cells@))
}

pub open spec fn object_records(layers: Seq<ParsedObjectLayerHeader>) -> Seq<(Seq<char>, i32, bool)> {
    layers.map_values(|l: ParsedObjectLayerHeader| (l.name@, l.source_order, l.visible))
}

/// The layers of a map read so far, with their properties, and the next
/// layer's order.
#[derive(Debug)]
pub struct ParsedLayers {
    pub layers: Vec<ParsedLayer>,
    pub layer_properties: Vec<Vec<TiledProperty>>,
    pub object_layers: Vec<ParsedObjectLayerHeader>,
    pub object_properties: Vec<Vec<TiledProperty>>,
    pub order: i32,
}

pub open spec fn parsed_layers_view(l: ParsedLayers) -> LayerWalk {
    LayerWalk {
        layers: layer_records(l.layers@),
        layer_properties: table_view(l.layer_properties@),
        objects: object_records(l.object_layers@),
        object_properties: table_view(l.object_properties@),
        order: l.order,
    }
}

impl ParsedLayers {
    /// No layers yet, numbering from 0.
    pub fn new() -> (r: ParsedLayers)
        ensures
            parsed_layers_view(r) == empty_walk(),
    {
        let r = ParsedLayers {
            layers: Vec::new(),
            layer_properties: Vec::new(),
            object_layers: Vec::new(),
            object_properties: Vec::new(),
            order: 0,
        };
        assert(layer_records(r.layers@) =~= Seq::empty());
        assert(table_view(r.layer_properties@) =~= Seq::empty());
        assert(object_records(r.object_layers@) =~= Seq::empty());
        assert(table_view(r.object_properties@) =~= Seq::empty());
        r
    }
}

/// `order + 1`, saturating.
pub open spec fn next_order(order: i32) -> i32 {
    if order < i32::MAX {
        (order + 1) as i32
    } else {
        i32::MAX
    }
}

/// Walks `raws` in order, inside groups whose visibility is `visible`:
/// every tile layer, object layer and other layer takes the next order; a
/// group's children are walked in its place, visible only if the group
/// is. A tile layer's properties are read before its cells, an object
/// layer's as it is added. Fails with the first layer whose properties or
/// cells cannot be read.
pub open spec fn walk_layers(raws: Seq<TiledJsonLayer>, visible: bool, start: LayerWalk) -> Result<
    LayerWalk,
    MapFailure,
>
    decreases raws,
{
    if raws.len() == 0 {
        Ok(start)
    } else {
        match walk_layers(raws.drop_last(), visible, start) {
            Err(e) => Err(e),
            Ok(w) => {
                let raw = raws[raws.len() - 1];
                let v = visible && raw.visible;
                if raw.layer_type@ == "tilelayer"@ {
                    match spec_json_properties(raw.properties@) {
                        Err(m) => Err(MapFailure::Malformed(m)),
                        Ok(props) => match spec_layer_cells(raw) {
                            Err(f) => Err(MapFailure::Data(raw.name@, f)),
                            Ok(cells) => Ok(
                                LayerWalk {
                                    layers: w.layers.push((raw.name@, w.order, v, cells)),
                                    layer_properties: w.layer_properties.push(props),
                                    objects: w.objects,
                                    object_properties: w.object_properties,
                                    order: next_order(w.order),
                                },
                            ),
                        },
                    }
                } else if raw.layer_type@ == "objectgroup"@ {
                    match spec_json_properties(raw.properties@) {
                        Err(m) => Err(MapFailure::Malformed(m)),
                        Ok(props) => Ok(
                            LayerWalk {
                                layers: w.layers,
                                layer_properties: w.layer_properties,
                                objects: w.objects.push((raw.name@, w.order, v)),
                                object_properties: w.object_properties.push(props),
                                order: next_order(w.order),
                            },
                        ),
                    }
                } else if raw.layer_type@ == "group"@ {
                    walk_layers(raw.layers@, v, w)
                } else {
                    Ok(LayerWalk { order: next_order(w.order), ..w })
                }
            },
        }
    }
}

/// The tile data of `layer` can be cut into cells without overflow.
pub open spec fn layer_fits(layer: TiledJsonLayer) -> bool {
    &&& forall|k: int|
        0 <= k < layer.chunks@.len() ==> block_fits(
            (#[trigger] layer.chunks@[k]).x,
            layer.chunks@[k].y,
            layer.chunks@[k].width,
            layer.chunks@[k].height,
        )
    &&& match (layer.width, layer.height) {
        (Some(w), Some(h)) => block_fits(layer.x, layer.y, w, h),
        _ => true,
    }
}

/// The tile data of `layer` can be cut into cells without overflow, and its
/// color properties split cleanly.
pub open spec fn layer_ok(layer: TiledJsonLayer) -> bool {
    &&& layer_fits(layer)
    &&& forall|k: int|
        0 <= k < layer.properties@.len() ==> json_color_splits_cleanly(#[trigger] layer.properties@[k])
}

/// Every layer of `raws`, and of their groups, fits (see [`layer_ok`]).
pub open spec fn layers_fit(raws: Seq<TiledJsonLayer>) -> bool
    decreases raws,
{
    if raws.len() == 0 {
        true
    } else {
        let raw = raws[raws.len() - 1];
        layers_fit(raws.drop_last()) && layer_ok(raw) && layers_fit(raw.layers@)
    }
}

fn block_fits_exec(x: i32, y: i32, width: u32, height: u32) -> (r: bool)
    ensures
        r == block_fits(x, y, width, height),
{
    assert((width as u64) * (height as u64) <= 0xffff_ffff_ffff_ffff) by (nonlinear_arith)
        requires
            width <= 0xffff_ffff,
            height <= 0xffff_ffff,
    ;
    (width as u64) * (height as u64) <= 0xffff_ffff && width <= 0x7fff_ffff && height <= 0x7fff_ffff
        && (x as i64) + (width as i64) <= 0x7fff_ffff && (y as i64) + (height as i64) <= 0x7fff_ffff
}

fn layer_ok_exec(layer: &TiledJsonLayer) -> (r: bool)
    ensures
        r == layer_ok(*layer),
{
    let mut k: usize = 0;
    while k < layer.chunks.len()
        invariant
            k <= layer.chunks@.len(),
            forall|j: int|
                0 <= j < k ==> block_fits(
                    (#[trigger] layer.chunks@[j]).x,
                    layer.chunks@[j].y,
                    layer.chunks@[j].width,
                    layer.chunks@[j].height,
                ),
        decreases layer.chunks.len() - k,
    {
        let c = &layer.chunks[k];
        if !block_fits_exec(c.x, c.y, c.width, c.height) {
            return false;
        }
        k = k + 1;
    }
    let own = match (layer.width, layer.height) {
        (Some(w), Some(h)) => block_fits_exec(layer.x, layer.y, w, h),
        _ => true,
    };
    own && json_property_colors_split_cleanly(&layer.properties)
}

/// Whether every layer of `raws`, and of their groups, fits (see
/// [`layers_fit`]), as walking them requires.
pub fn layers_fit_check(raws: &Vec<TiledJsonLayer>) -> (r: bool)
    ensures
        r == layers_fit(raws@),
    decreases raws@,
{
    let mut i: usize = 0;
    assert(raws@.take(0) =~= Seq::<TiledJsonLayer>::empty());
    while i < raws.len()
        invariant
            i <= raws@.len(),
            layers_fit(raws@.take(i as int)),
        decreases raws.len() - i,
    {
        let raw = &raws[i];
        assert(raws@.take(i + 1).drop_last() =~= raws@.take(i as int));
        assert(raws@.take(i + 1)[i as int] == raws@[i as int]);
        if !layer_ok_exec(raw) || !layers_fit_check(&raw.layers) {
            proof {
                lemma_layers_fit_take(raws@, i as int);
            }
            return false;
        }
        i = i + 1;
    }
    assert(raws@.take(i as int) =~= raws@);
    true
}

proof fn lemma_layers_fit_take(raws: Seq<TiledJsonLayer>, i: int)
    requires
        0 <= i < raws.len(),
        !(layer_ok(raws[i]) && layers_fit(raws[i].layers@)),
    ensures
        !layers_fit(raws),
    decreases raws.len(),
{
    if layers_fit(raws) {
        lemma_layers_fit_prefix(raws, i);
    }
}

proof fn lemma_walk_error_persists(raws: Seq<TiledJsonLayer>, k: int, visible: bool, start: LayerWalk)
    requires
        0 <= k <= raws.len(),
        walk_layers(raws.take(k), visible, start) is Err,
    ensures
        walk_layers(raws, visible, start) == walk_layers(raws.take(k), visible, start),
    decreases raws.len(),
{
    if k < raws.len() {
        assert(raws.drop_last().take(k) =~= raws.take(k));
        lemma_walk_error_persists(raws.drop_last(), k, visible, start);
    } else {
        assert(raws.take(k) =~= raws);
    }
}

proof fn lemma_layers_fit_prefix(raws: Seq<TiledJsonLayer>, k: int)
    requires
        0 <= k < raws.len(),
        layers_fit(raws),
    ensures
        layer_ok(raws[k]),
        layers_fit(raws[k].layers@),
    decreases raws.len(),
{
    if k < raws.len() - 1 {
        assert(raws.drop_last()[k] == raws[k]);
        lemma_layers_fit_prefix(raws.drop_last(), k);
    }
}

/// Walks the layers of a JSON map (see [`walk_layers`]), appending to
/// `acc` what it reads.
pub fn collect_tile_layers(
    raws: &Vec<TiledJsonLayer>,
    parent_visible: bool,
    acc: &mut ParsedLayers,
) -> (r: Result<(), TiledImportError>)
    requires
        layers_fit(raws@),
    ensures
        match walk_layers(raws@, parent_visible, parsed_layers_view(*old(acc))) {
            Ok(w) => r is Ok && parsed_layers_view(*final(acc)) == w,
            Err(f) => r matches Err(e) && map_failure_is(e, f),
        },
    decreases raws@,
{
    let ghost start = parsed_layers_view(*acc);
    let mut i: usize = 0;
    assert(raws@.take(0) =~= Seq::<TiledJsonLayer>::empty());
    while i < raws.len()
        invariant
            i <= raws.len(),
            layers_fit(raws@),
            start == parsed_layers_view(*old(acc)),
            walk_layers(raws@.take(i as int), parent_visible, start) == Ok::<LayerWalk, MapFailure>(
                parsed_layers_view(*acc),
            ),
        decreases raws.len() - i,
    {
        let raw = &raws[i];
        let ghost prefix = raws@.take(i + 1);
        assert(prefix.drop_last() =~= raws@.take(i as int));
        assert(prefix[prefix.len() - 1] == raws@[i as int]);
        proof {
            lemma_layers_fit_prefix(raws@, i as int);
        }
        let visible = parent_visible && raw.visible;
        let order = acc.order;
        let next = if order < i32::MAX {
            order + 1
        } else {
            i32::MAX
        };
        if str_equal(raw.layer_type.as_str(), "tilelayer") {
            let props = match collect_json_properties(&raw.properties) {
                Ok(p) => p,
                Err(e) => {
                    proof {
                        lemma_walk_error_persists(raws@, i + 1, parent_visible, start);
                    }
                    return Err(e);
                },
            };
            match collect_layer_cells(raw) {
                Err(e) => {
                    proof {
                        lemma_walk_error_persists(raws@, i + 1, parent_visible, start);
                    }
                    return Err(e);
                },
                Ok(cells) => {
                    let ghost cells_view = cells@;
                    let ghost props_view = properties_view(props@);
                    let ghost old_layers = acc.layers@;
                    let ghost old_props = acc.layer_properties@;
                    acc.layers.push(ParsedLayer { name: raw.name.clone(), source_order: order, visible, cells });
                    acc.layer_properties.push(props);
                    acc.order = next;
                    assert(layer_records(acc.layers@) =~= layer_records(old_layers).push(
                        (raw.name@, order, visible, cells_view),
                    ));
                    assert(table_view(acc.layer_properties@) =~= table_view(old_props).push(props_view));
                },
            }
        } else if str_equal(raw.layer_type.as_str(), "objectgroup") {
            let props = match collect_json_properties(&raw.properties) {
                Ok(p) => p,
                Err(e) => {
                    proof {
                        lemma_walk_error_persists(raws@, i + 1, parent_visible, start);
                    }
                    return Err(e);
                },
            };
            let ghost props_view = properties_view(props@);
            let ghost old_objects = acc.object_layers@;
            let ghost old_props = acc.object_properties@;
            acc.object_layers.push(
                ParsedObjectLayerHeader { name: raw.name.clone(), source_order: order, visible },
            );
            acc.object_properties.push(props);
            acc.order = next;
            assert(object_records(acc.object_layers@) =~= object_records(old_objects).push(
                (raw.name@, order, visible),
            ));
            assert(table_view(acc.object_properties@) =~= table_view(old_props).push(props_view));
        } else if str_equal(raw.layer_type.as_str(), "group") {
            let r = collect_tile_layers(&raw.layers, visible, acc);
            if r.is_err() {
                proof {
                    lemma_walk_error_persists(raws@, i + 1, parent_visible, start);
                }
                return r;
            }
        } else {
            acc.order = next;
        }
        i = i + 1;
    }
    assert(raws@.take(i as int) =~= raws@);
    Ok(())
}

} // verus!
