//! TMX maps: the tile layers, groups and object layers of a `<map>`
//! element, read from its parsed XML nodes.
use crate::tiled::data::decode_tmx_gids;
use crate::tiled::data::failure_is;
use crate::tiled::data::gid_views;
use crate::tiled::data::spec_tmx_gids;
use crate::tiled::data::GidsFailure;
use crate::tiled::data::TmxTileData;
use crate::tiled::error::is_unsupported_tileset;
use crate::tiled::color::is_malformed;
use crate::tiled::error::malformed;
use crate::tiled::error::map_failure_is;
use crate::tiled::error::map_outcome;
use crate::tiled::error::MapFailure;
use crate::tiled::error::TiledImportError;
use crate::tiled::layer::ParsedLayer;
use crate::tiled::layer::RawCell;
use crate::tiled::parse::block_cells;
use crate::tiled::parse::block_fits;
use crate::tiled::parse::push_block;
use crate::tiled::parse::layer_records;
use crate::tiled::parse::next_order;
use crate::tiled::parse::object_records;
use crate::tiled::parse::empty_walk;
use crate::tiled::parse::opt_string_view;
use crate::tiled::parse::parsed_layers_view;
use crate::tiled::parse::LayerWalk;
use crate::tiled::parse::ParsedLayers;
use crate::tiled::parse::parse_orientation;
use crate::tiled::parse::parse_render_order;
use crate::tiled::parse::parse_stagger_axis;
use crate::tiled::parse::parse_stagger_index;
use crate::tiled::parse::spec_orientation;
use crate::tiled::parse::spec_render_order;
use crate::tiled::parse::ParsedObjectLayerHeader;
use crate::tiled::properties::collect_tmx_properties;
use crate::tiled::properties::properties_view;
use crate::tiled::properties::property_colors_split_cleanly;
use crate::tiled::properties::spec_properties;
use crate::tiled::properties::table_view;
use crate::tiled::properties::PropertyValueView;
use crate::tiled::properties::TiledProperty;
use crate::text::str_equal;
use crate::tiled::xml::attr_value;
use crate::tiled::xml::attribute;
use crate::tiled::xml::check_f32_attr;
use crate::tiled::xml::child_elements;
use crate::tiled::xml::element_children;
use crate::tiled::xml::element_children_of;
use crate::tiled::xml::optional_bool_attr;
use crate::tiled::xml::spec_check_f32_attr;
use crate::tiled::xml::spec_optional_bool_attr;
use crate::tiled::xml::children_named;
use crate::tiled::xml::first_child_element;
use crate::tiled::xml::is_child_element;
use crate::tiled::xml::optional_i32_attr;
use crate::tiled::xml::optional_u32_attr;
use crate::tiled::xml::required_attr;
use crate::tiled::xml::spec_required_attr;
use crate::tiled::xml::required_i32_attr;
use crate::tiled::xml::required_u32_attr;
use crate::tiled::xml::spec_optional_i32_attr;
use crate::tiled::xml::spec_optional_u32_attr;
use crate::tiled::xml::spec_required_i32_attr;
use crate::tiled::xml::spec_required_u32_attr;
use crate::tiled::xml::str_opt_view;
use crate::tiled::xml::XmlNode;
use crate::tilemap::types::TilemapOrientation;
use crate::tilemap::types::TilemapRenderOrder;
use crate::tilemap::types::TilemapStaggerAxis;
use crate::tilemap::types::TilemapStaggerIndex;
use vstd::prelude::*;

verus! {

pub open spec fn unwrap_or_i32(v: Option<i32>, d: i32) -> i32 {
    match v {
        Some(x) => x,
        None => d,
    }
}

/// The name of a tile layer: its `name` attribute, else `Tile Layer`.
pub open spec fn tile_layer_name(n: XmlNode) -> Seq<char> {
    match attr_value(n, "name"@) {
        Some(v) => v,
        None => "Tile Layer"@,
    }
}

/// The `gid` attributes of the `<tile>` children of node `d`.
pub open spec fn tile_gid_attrs(nodes: Seq<XmlNode>, d: int) -> Seq<Option<Seq<char>>> {
    children_named(nodes, d, "tile"@).map_values(|k: usize| attr_value(nodes[k as int], "gid"@))
}

/// The gids of the tile data in node `d` (a `<data>` or `<chunk>`), which
/// must be `expected_len` long.
pub open spec fn spec_node_gids(
    nodes: Seq<XmlNode>,
    d: int,
    expected_len: int,
    encoding: Option<Seq<char>>,
    compression: Option<Seq<char>>,
) -> Result<Seq<u32>, GidsFailure> {
    spec_tmx_gids(
        opt_string_view(nodes[d].text),
        tile_gid_attrs(nodes, d),
        expected_len,
        encoding,
        compression,
    )
}

/// The cells of chunk node `c` of layer `layer`: its required position and
/// size, then its tile data as one block.
pub open spec fn spec_tmx_chunk_cells(
    nodes: Seq<XmlNode>,
    c: int,
    layer: Seq<char>,
    encoding: Option<Seq<char>>,
    compression: Option<Seq<char>>,
) -> Result<Seq<RawCell>, MapFailure> {
    let n = nodes[c];
    match malformed(spec_required_i32_attr(n, "x"@)) {
        Err(f) => Err(f),
        Ok(x) => match malformed(spec_required_i32_attr(n, "y"@)) {
            Err(f) => Err(f),
            Ok(y) => match malformed(spec_required_u32_attr(n, "width"@)) {
                Err(f) => Err(f),
                Ok(w) => match malformed(spec_required_u32_attr(n, "height"@)) {
                    Err(f) => Err(f),
                    Ok(h) => match spec_node_gids(nodes, c, w * h, encoding, compression) {
                        Err(g) => Err(MapFailure::Data(layer, g)),
                        Ok(gids) => Ok(block_cells(x as int, y as int, w as int, gids)),
                    },
                },
            },
        },
    }
}

/// The cells of the chunks `chunks`, chunk after chunk; or the first failure.
pub open spec fn spec_tmx_chunks_cells(
    nodes: Seq<XmlNode>,
    chunks: Seq<usize>,
    layer: Seq<char>,
    encoding: Option<Seq<char>>,
    compression: Option<Seq<char>>,
) -> Result<Seq<RawCell>, MapFailure>
    decreases chunks.len(),
{
    if chunks.len() == 0 {
        Ok(Seq::empty())
    } else {
        match spec_tmx_chunks_cells(nodes, chunks.drop_last(), layer, encoding, compression) {
            Err(f) => Err(f),
            Ok(prev) => match spec_tmx_chunk_cells(
                nodes,
                chunks.last() as int,
                layer,
                encoding,
                compression,
            ) {
                Err(f) => Err(f),
                Ok(more) => Ok(prev + more),
            },
        }
    }
}

/// The cells of TMX tile layer `l`. Its first `<data>` child holds the
/// tiles, in the encoding and compression that `<data>` names: split into
/// `<chunk>`s where it has any (infinite maps), else one block of the
/// layer's required width and height at its optional position.
pub open spec fn spec_tmx_layer_cells(nodes: Seq<XmlNode>, l: int) -> Result<Seq<RawCell>, MapFailure> {
    let name = tile_layer_name(nodes[l]);
    let datas = children_named(nodes, l, "data"@);
    if datas.len() == 0 {
        Err(MapFailure::Data(name, GidsFailure::Unsupported("tile layer is missing <data>"@)))
    } else {
        let d = datas[0] as int;
        let encoding = attr_value(nodes[d], "encoding"@);
        let compression = attr_value(nodes[d], "compression"@);
        let chunks = children_named(nodes, d, "chunk"@);
        if chunks.len() > 0 {
            spec_tmx_chunks_cells(nodes, chunks, name, encoding, compression)
        } else {
            let n = nodes[l];
            match malformed(spec_required_u32_attr(n, "width"@)) {
                Err(f) => Err(f),
                Ok(w) => match malformed(spec_required_u32_attr(n, "height"@)) {
                    Err(f) => Err(f),
                    Ok(h) => match malformed(spec_optional_i32_attr(n, "x"@)) {
                        Err(f) => Err(f),
                        Ok(x) => match malformed(spec_optional_i32_attr(n, "y"@)) {
                            Err(f) => Err(f),
                            Ok(y) => match spec_node_gids(nodes, d, w * h, encoding, compression) {
                                Err(g) => Err(MapFailure::Data(name, g)),
                                Ok(gids) => Ok(
                                    block_cells(
                                        unwrap_or_i32(x, 0) as int,
                                        unwrap_or_i32(y, 0) as int,
                                        w as int,
                                        gids,
                                    ),
                                ),
                            },
                        },
                    },
                },
            }
        }
    }
}

/// A node whose position and size attributes read as numbers describes a
/// block whose cells fit (a missing position counts as 0).
pub open spec fn node_block_fits(n: XmlNode) -> bool {
    match (
        spec_optional_i32_attr(n, "x"@),
        spec_optional_i32_attr(n, "y"@),
        spec_optional_u32_attr(n, "width"@),
        spec_optional_u32_attr(n, "height"@),
    ) {
        (Ok(x), Ok(y), Ok(Some(w)), Ok(Some(h))) => block_fits(
            unwrap_or_i32(x, 0),
            unwrap_or_i32(y, 0),
            w,
            h,
        ),
        _ => true,
    }
}

/// The blocks of tile layer `l` fit: its chunks', or its own.
pub open spec fn tmx_layer_fits(nodes: Seq<XmlNode>, l: int) -> bool {
    let datas = children_named(nodes, l, "data"@);
    datas.len() > 0 ==> {
        let chunks = children_named(nodes, datas[0] as int, "chunk"@);
        if chunks.len() > 0 {
            forall|j: int| 0 <= j < chunks.len() ==> node_block_fits(nodes[#[trigger] chunks[j] as int])
        } else {
            node_block_fits(nodes[l])
        }
    }
}

pub open spec fn cells_outcome_tmx(r: Result<Vec<RawCell>, TiledImportError>, s: Result<Seq<RawCell>, MapFailure>) -> bool {
    match s {
        Ok(v) => r matches Ok(x) && x@ == v,
        Err(f) => r matches Err(e) && map_failure_is(e, f),
    }
}

/// The text and `<tile>` gids of node `d`.
fn node_tile_data(nodes: &Vec<XmlNode>, d: usize) -> (r: TmxTileData)
    requires
        d < nodes@.len(),
    ensures
        opt_string_view(r.text) == opt_string_view(nodes@[d as int].text),
        gid_views(r.tile_gids@) == tile_gid_attrs(nodes@, d as int),
{
    let text = match &nodes[d].text {
        Some(t) => Some(t.clone()),
        None => None,
    };
    let tiles = child_elements(nodes, d, "tile");
    let mut gids: Vec<Option<String>> = Vec::new();
    let mut i: usize = 0;
    while i < tiles.len()
        invariant
            i <= tiles@.len(),
            tiles@ == children_named(nodes@, d as int, "tile"@),
            forall|j: int| 0 <= j < tiles@.len() ==> (#[trigger] tiles@[j]) < nodes@.len(),
            gid_views(gids@) == tiles@.take(i as int).map_values(
                |k: usize| attr_value(nodes@[k as int], "gid"@),
            ),
        decreases tiles.len() - i,
    {
        let a = attribute(&nodes[tiles[i]], "gid");
        let g = match a {
            Some(v) => Some(v.to_owned()),
            None => None,
        };
        assert(opt_string_view(g) == attr_value(nodes@[tiles@[i as int] as int], "gid"@));
        let ghost before = gids@;
        gids.push(g);
        assert(gids@ == before.push(g));
        assert(gid_views(gids@) =~= gid_views(before).push(opt_string_view(g)));
        assert(tiles@.take(i + 1) =~= tiles@.take(i as int).push(tiles@[i as int]));
        assert(gid_views(gids@) =~= tiles@.take(i + 1).map_values(
            |k: usize| attr_value(nodes@[k as int], "gid"@),
        ));
        i = i + 1;
    }
    assert(tiles@.take(i as int) =~= tiles@);
    TmxTileData { text, tile_gids: gids }
}

proof fn lemma_tmx_chunks_error_persists(
    nodes: Seq<XmlNode>,
    chunks: Seq<usize>,
    k: int,
    layer: Seq<char>,
    encoding: Option<Seq<char>>,
    compression: Option<Seq<char>>,
)
    requires
        0 <= k <= chunks.len(),
        spec_tmx_chunks_cells(nodes, chunks.take(k), layer, encoding, compression) is Err,
    ensures
        spec_tmx_chunks_cells(nodes, chunks, layer, encoding, compression) == spec_tmx_chunks_cells(
            nodes,
            chunks.take(k),
            layer,
            encoding,
            compression,
        ),
    decreases chunks.len(),
{
    if k == chunks.len() {
        assert(chunks.take(k) =~= chunks);
    } else {
        let t = chunks.drop_last();
        assert(chunks.take(k) =~= t.take(k));
        lemma_tmx_chunks_error_persists(nodes, t, k, layer, encoding, compression);
    }
}

/// Reads the cells of one chunk (see [`spec_tmx_chunk_cells`]).
fn tmx_chunk_cells(
    nodes: &Vec<XmlNode>,
    c: usize,
    layer: &str,
    encoding: Option<&str>,
    compression: Option<&str>,
    cells: &mut Vec<RawCell>,
) -> (r: Result<(), TiledImportError>)
    requires
        c < nodes@.len(),
        node_block_fits(nodes@[c as int]),
    ensures
        match spec_tmx_chunk_cells(nodes@, c as int, layer@, str_opt_view(encoding), str_opt_view(compression)) {
            Ok(more) => r is Ok && final(cells)@ == old(cells)@ + more,
            Err(f) => r matches Err(e) && map_failure_is(e, f),
        },
{
    let node = &nodes[c];
    let x = required_i32_attr(node, "x")?;
    let y = required_i32_attr(node, "y")?;
    let width = required_u32_attr(node, "width")?;
    let height = required_u32_attr(node, "height")?;
    let expected = (width as usize) * (height as usize);
    let tile_data = node_tile_data(nodes, c);
    let gids = decode_tmx_gids(&tile_data, layer, expected, encoding, compression)?;
    push_block(cells, x, y, width, height, &gids);
    Ok(())
}

/// Reads the cells of TMX tile layer `layer` (see [`spec_tmx_layer_cells`]).
pub fn collect_tmx_layer_cells(nodes: &Vec<XmlNode>, layer: usize) -> (r: Result<Vec<RawCell>, TiledImportError>)
    requires
        layer < nodes@.len(),
        tmx_layer_fits(nodes@, layer as int),
    ensures
        cells_outcome_tmx(r, spec_tmx_layer_cells(nodes@, layer as int)),
{
    let name: &str = match attribute(&nodes[layer], "name") {
        Some(v) => v,
        None => "Tile Layer",
    };
    assert(name@ == tile_layer_name(nodes@[layer as int]));
    let data = match first_child_element(nodes, layer, "data") {
        Some(d) => d,
        None => {
            return Err(
                TiledImportError::UnsupportedLayerData {
                    layer: name.to_owned(),
                    reason: "tile layer is missing <data>",
                },
            );
        },
    };
    let encoding = attribute(&nodes[data], "encoding");
    let compression = attribute(&nodes[data], "compression");
    let chunks = child_elements(nodes, data, "chunk");
    if chunks.len() > 0 {
        let mut cells: Vec<RawCell> = Vec::new();
        let mut k: usize = 0;
        assert(chunks@.take(0) =~= Seq::<usize>::empty());
        assert(spec_tmx_layer_cells(nodes@, layer as int) == spec_tmx_chunks_cells(
            nodes@,
            chunks@,
            name@,
            str_opt_view(encoding),
            str_opt_view(compression),
        ));
        while k < chunks.len()
            invariant
                k <= chunks@.len(),
                spec_tmx_layer_cells(nodes@, layer as int) == spec_tmx_chunks_cells(
                    nodes@,
                    chunks@,
                    name@,
                    str_opt_view(encoding),
                    str_opt_view(compression),
                ),
                chunks@ == children_named(nodes@, data as int, "chunk"@),
                forall|j: int| 0 <= j < chunks@.len() ==> (#[trigger] chunks@[j]) < nodes@.len(),
                forall|j: int| 0 <= j < chunks@.len() ==> node_block_fits(nodes@[#[trigger] chunks@[j] as int]),
                spec_tmx_chunks_cells(nodes@, chunks@.take(k as int), name@, str_opt_view(encoding), str_opt_view(compression))
                    == Ok::<Seq<RawCell>, MapFailure>(cells@),
            decreases chunks.len() - k,
        {
            assert(chunks@.take(k + 1).drop_last() =~= chunks@.take(k as int));
            assert(chunks@.take(k + 1).last() == chunks@[k as int]);
            let c = chunks[k];
            match tmx_chunk_cells(nodes, c, name, encoding, compression, &mut cells) {
                Ok(()) => {},
                Err(e) => {
                    proof {
                        lemma_tmx_chunks_error_persists(nodes@, chunks@, k + 1, name@, str_opt_view(encoding), str_opt_view(compression));
                    }
                    return Err(e);
                },
            }
            k = k + 1;
        }
        assert(chunks@.take(k as int) =~= chunks@);
        return Ok(cells);
    }
    let node = &nodes[layer];
    let width = required_u32_attr(node, "width")?;
    let height = required_u32_attr(node, "height")?;
    let x = match optional_i32_attr(node, "x")? {
        Some(v) => v,
        None => 0,
    };
    let y = match optional_i32_attr(node, "y")? {
        Some(v) => v,
        None => 0,
    };
    let expected = (width as usize) * (height as usize);
    let tile_data = node_tile_data(nodes, data);
    let gids = decode_tmx_gids(&tile_data, name, expected, encoding, compression)?;
    let mut cells: Vec<RawCell> = Vec::new();
    push_block(&mut cells, x, y, width, height, &gids);
    assert(cells@ =~= block_cells(x as int, y as int, width as int, gids@));
    Ok(cells)
}

/// The decimal attributes of a layer element (opacity, offsets, parallax
/// factors) checked in that order: each, where present, must be a number.
pub open spec fn spec_check_layer_decimals(n: XmlNode) -> Result<(), Seq<char>> {
    match spec_check_f32_attr(n, "opacity"@) {
        Err(m) => Err(m),
        Ok(_) => match spec_check_f32_attr(n, "offsetx"@) {
            Err(m) => Err(m),
            Ok(_) => match spec_check_f32_attr(n, "offsety"@) {
                Err(m) => Err(m),
                Ok(_) => match spec_check_f32_attr(n, "parallaxx"@) {
                    Err(m) => Err(m),
                    Ok(_) => spec_check_f32_attr(n, "parallaxy"@),
                },
            },
        },
    }
}

/// The visibility of layer element `n` inside a parent whose visibility is
/// `visible`: its own `visible` attribute (default true) is read only where
/// the parent is visible; then its decimal attributes are checked.
pub open spec fn spec_tmx_context(n: XmlNode, visible: bool) -> Result<bool, MapFailure> {
    let v: Result<bool, Seq<char>> = if visible {
        match spec_optional_bool_attr(n, "visible"@) {
            Err(m) => Err(m),
            Ok(Some(b)) => Ok(b),
            Ok(None) => Ok(true),
        }
    } else {
        Ok(false)
    };
    match v {
        Err(m) => Err(MapFailure::Malformed(m)),
        Ok(b) => match spec_check_layer_decimals(n) {
            Err(m) => Err(MapFailure::Malformed(m)),
            Ok(_) => Ok(b),
        },
    }
}

/// Reads the visibility of a layer element (see [`spec_tmx_context`]).
pub fn tmx_layer_visibility(node: &XmlNode, visible: bool) -> (r: Result<bool, TiledImportError>)
    ensures
        map_outcome(r, spec_tmx_context(*node, visible)),
{
    let v = if visible {
        match optional_bool_attr(node, "visible")? {
            Some(b) => b,
            None => true,
        }
    } else {
        false
    };
    check_f32_attr(node, "opacity")?;
    check_f32_attr(node, "offsetx")?;
    check_f32_attr(node, "offsety")?;
    check_f32_attr(node, "parallaxx")?;
    check_f32_attr(node, "parallaxy")?;
    Ok(v)
}

/// The name of an object layer: its `name` attribute, else `Object Layer`.
pub open spec fn object_layer_name(n: XmlNode) -> Seq<char> {
    match attr_value(n, "name"@) {
        Some(v) => v,
        None => "Object Layer"@,
    }
}

/// Walks the element children `kids` of a map or group, in order, inside a
/// parent of visibility `visible`: a `<layer>` adds a tile layer with the
/// next order, an `<objectgroup>` an object layer, each with its properties,
/// an `<imagelayer>` only takes an order, and a `<group>`'s children are
/// walked in its place with the group's visibility. Groups nest at most
/// `fuel` deep. Fails with the first layer whose attributes, properties or
/// tile data cannot be read.
pub open spec fn walk_tmx(
    nodes: Seq<XmlNode>,
    kids: Seq<usize>,
    visible: bool,
    start: LayerWalk,
    fuel: nat,
) -> Result<LayerWalk, MapFailure>
    decreases fuel, kids.len(),
{
    if kids.len() == 0 {
        Ok(start)
    } else {
        match walk_tmx(nodes, kids.drop_last(), visible, start, fuel) {
            Err(f) => Err(f),
            Ok(w) => {
                let k = kids.last() as int;
                let n = nodes[k];
                if n.tag@ == "layer"@ {
                    match spec_tmx_context(n, visible) {
                        Err(f) => Err(f),
                        Ok(v) => match spec_properties(nodes, k) {
                            Err(f) => Err(f),
                            Ok(props) => match spec_tmx_layer_cells(nodes, k) {
                                Err(f) => Err(f),
                                Ok(cells) => Ok(
                                    LayerWalk {
                                        layers: w.layers.push((tile_layer_name(n), w.order, v, cells)),
                                        layer_properties: w.layer_properties.push(props),
                                        objects: w.objects,
                                        object_properties: w.object_properties,
                                        order: next_order(w.order),
                                    },
                                ),
                            },
                        },
                    }
                } else if n.tag@ == "group"@ {
                    match spec_tmx_context(n, visible) {
                        Err(f) => Err(f),
                        Ok(v) => if fuel == 0 {
                            Ok(w)
                        } else {
                            walk_tmx(nodes, element_children_of(nodes, k), v, w, (fuel - 1) as nat)
                        },
                    }
                } else if n.tag@ == "objectgroup"@ {
                    match spec_tmx_context(n, visible) {
                        Err(f) => Err(f),
                        Ok(v) => match spec_properties(nodes, k) {
                            Err(f) => Err(f),
                            Ok(props) => Ok(
                                LayerWalk {
                                    layers: w.layers,
                                    layer_properties: w.layer_properties,
                                    objects: w.objects.push((object_layer_name(n), w.order, v)),
                                    object_properties: w.object_properties.push(props),
                                    order: next_order(w.order),
                                },
                            ),
                        },
                    }
                } else if n.tag@ == "imagelayer"@ {
                    Ok(LayerWalk { order: next_order(w.order), ..w })
                } else {
                    Ok(w)
                }
            },
        }
    }
}

/// The blocks of every `<layer>` element fit.
pub open spec fn tmx_layers_fit(nodes: Seq<XmlNode>) -> bool {
    forall|k: int|
        0 <= k < nodes.len() && (#[trigger] nodes[k]).is_element && nodes[k].tag@ == "layer"@
            ==> tmx_layer_fits(nodes, k)
}

proof fn lemma_walk_tmx_error_persists(
    nodes: Seq<XmlNode>,
    kids: Seq<usize>,
    k: int,
    visible: bool,
    start: LayerWalk,
    fuel: nat,
)
    requires
        0 <= k <= kids.len(),
        walk_tmx(nodes, kids.take(k), visible, start, fuel) is Err,
    ensures
        walk_tmx(nodes, kids, visible, start, fuel) == walk_tmx(nodes, kids.take(k), visible, start, fuel),
    decreases kids.len(),
{
    if k < kids.len() {
        assert(kids.drop_last().take(k) =~= kids.take(k));
        lemma_walk_tmx_error_persists(nodes, kids.drop_last(), k, visible, start, fuel);
    } else {
        assert(kids.take(k) =~= kids);
    }
}

/// Walks the element children of node `parent` (see [`walk_tmx`]),
/// appending to `acc` what it reads.
pub fn collect_tmx_child_layers(
    nodes: &Vec<XmlNode>,
    parent: usize,
    parent_visible: bool,
    acc: &mut ParsedLayers,
    fuel: usize,
) -> (r: Result<(), TiledImportError>)
    requires
        tmx_layers_fit(nodes@),
        property_colors_split_cleanly(nodes@),
    ensures
        match walk_tmx(
            nodes@,
            element_children_of(nodes@, parent as int),
            parent_visible,
            parsed_layers_view(*old(acc)),
            fuel as nat,
        ) {
            Ok(w) => r is Ok && parsed_layers_view(*final(acc)) == w,
            Err(f) => r matches Err(e) && map_failure_is(e, f),
        },
    decreases fuel,
{
    let ghost start = parsed_layers_view(*acc);
    let kids = element_children(nodes, parent);
    let mut i: usize = 0;
    assert(kids@.take(0) =~= Seq::<usize>::empty());
    while i < kids.len()
        invariant
            i <= kids@.len(),
            tmx_layers_fit(nodes@),
            property_colors_split_cleanly(nodes@),
            kids@ == element_children_of(nodes@, parent as int),
            forall|j: int|
                0 <= j < kids@.len() ==> (#[trigger] kids@[j]) < nodes@.len() && nodes@[kids@[j] as int].is_element,
            start == parsed_layers_view(*old(acc)),
            walk_tmx(nodes@, kids@.take(i as int), parent_visible, start, fuel as nat) == Ok::<
                LayerWalk,
                MapFailure,
            >(parsed_layers_view(*acc)),
        decreases kids.len() - i,
    {
        let k = kids[i];
        let node = &nodes[k];
        let ghost prefix = kids@.take(i + 1);
        let ghost before = parsed_layers_view(*acc);
        assert(prefix.drop_last() =~= kids@.take(i as int));
        assert(prefix.last() == k);
        let order = acc.order;
        let next = if order < i32::MAX {
            order + 1
        } else {
            i32::MAX
        };
        if str_equal(node.tag.as_str(), "layer") {
            let visible = match tmx_layer_visibility(node, parent_visible) {
                Ok(v) => v,
                Err(e) => {
                    proof {
                        lemma_walk_tmx_error_persists(nodes@, kids@, i + 1, parent_visible, start, fuel as nat);
                    }
                    return Err(e);
                },
            };
            let props = match collect_tmx_properties(nodes, k) {
                Ok(p) => p,
                Err(e) => {
                    proof {
                        lemma_walk_tmx_error_persists(nodes@, kids@, i + 1, parent_visible, start, fuel as nat);
                    }
                    return Err(e);
                },
            };
            let name: &str = match attribute(node, "name") {
                Some(v) => v,
                None => "Tile Layer",
            };
            assert(name@ == tile_layer_name(nodes@[k as int]));
            proof {
                assert(nodes@[k as int].is_element);
            }
            match collect_tmx_layer_cells(nodes, k) {
                Err(e) => {
                    proof {
                        lemma_walk_tmx_error_persists(nodes@, kids@, i + 1, parent_visible, start, fuel as nat);
                    }
                    return Err(e);
                },
                Ok(cells) => {
                    let ghost cells_view = cells@;
                    let ghost props_view = properties_view(props@);
                    let ghost old_layers = acc.layers@;
                    let ghost old_props = acc.layer_properties@;
                    acc.layers.push(ParsedLayer { name: name.to_owned(), source_order: order, visible, cells });
                    acc.layer_properties.push(props);
                    acc.order = next;
                    assert(layer_records(acc.layers@) =~= layer_records(old_layers).push(
                        (name@, order, visible, cells_view),
                    ));
                    assert(table_view(acc.layer_properties@) =~= table_view(old_props).push(props_view));
                },
            }
        } else if str_equal(node.tag.as_str(), "group") {
            let visible = match tmx_layer_visibility(node, parent_visible) {
                Ok(v) => v,
                Err(e) => {
                    proof {
                        lemma_walk_tmx_error_persists(nodes@, kids@, i + 1, parent_visible, start, fuel as nat);
                    }
                    return Err(e);
                },
            };
            if fuel > 0 {
                let r = collect_tmx_child_layers(nodes, k, visible, acc, fuel - 1);
                if r.is_err() {
                    proof {
                        lemma_walk_tmx_error_persists(nodes@, kids@, i + 1, parent_visible, start, fuel as nat);
                    }
                    return r;
                }
            }
        } else if str_equal(node.tag.as_str(), "objectgroup") {
            let visible = match tmx_layer_visibility(node, parent_visible) {
                Ok(v) => v,
                Err(e) => {
                    proof {
                        lemma_walk_tmx_error_persists(nodes@, kids@, i + 1, parent_visible, start, fuel as nat);
                    }
                    return Err(e);
                },
            };
            let props = match collect_tmx_properties(nodes, k) {
                Ok(p) => p,
                Err(e) => {
                    proof {
                        lemma_walk_tmx_error_persists(nodes@, kids@, i + 1, parent_visible, start, fuel as nat);
                    }
                    return Err(e);
                },
            };
            let name: &str = match attribute(node, "name") {
                Some(v) => v,
                None => "Object Layer",
            };
            assert(name@ == object_layer_name(nodes@[k as int]));
            let ghost props_view = properties_view(props@);
            let ghost old_objects = acc.object_layers@;
            let ghost old_props = acc.object_properties@;
            acc.object_layers.push(ParsedObjectLayerHeader { name: name.to_owned(), source_order: order, visible });
            acc.object_properties.push(props);
            acc.order = next;
            assert(object_records(acc.object_layers@) =~= object_records(old_objects).push(
                (name@, order, visible),
            ));
            assert(table_view(acc.object_properties@) =~= table_view(old_props).push(props_view));
        } else if str_equal(node.tag.as_str(), "imagelayer") {
            acc.order = next;
        }
        i = i + 1;
    }
    assert(kids@.take(i as int) =~= kids@);
    Ok(())
}

/// Whether a node's block fits (see [`node_block_fits`]).
fn node_block_fits_exec(node: &XmlNode) -> (r: bool)
    ensures
        r == node_block_fits(*node),
{
    let x = optional_i32_attr(node, "x");
    let y = optional_i32_attr(node, "y");
    let w = optional_u32_attr(node, "width");
    let h = optional_u32_attr(node, "height");
    match (x, y, w, h) {
        (Ok(x), Ok(y), Ok(Some(w)), Ok(Some(h))) => {
            let x: i64 = match x {
                Some(v) => v as i64,
                None => 0,
            };
            let y: i64 = match y {
                Some(v) => v as i64,
                None => 0,
            };
            assert((w as u64) * (h as u64) <= 0xffff_ffff_ffff_ffff) by (nonlinear_arith)
                requires
                    w <= 0xffff_ffff,
                    h <= 0xffff_ffff,
            ;
            (w as u64) * (h as u64) <= 0xffff_ffff && w <= 0x7fff_ffff && h <= 0x7fff_ffff && x
                + (w as i64) <= 0x7fff_ffff && y + (h as i64) <= 0x7fff_ffff
        },
        _ => true,
    }
}

/// Whether the blocks of tile layer `l` fit (see [`tmx_layer_fits`]).
fn tmx_layer_fits_exec(nodes: &Vec<XmlNode>, l: usize) -> (r: bool)
    requires
        l < nodes@.len(),
    ensures
        r == tmx_layer_fits(nodes@, l as int),
{
    let data = match first_child_element(nodes, l, "data") {
        Some(d) => d,
        None => {
            return true;
        },
    };
    let chunks = child_elements(nodes, data, "chunk");
    if chunks.len() == 0 {
        return node_block_fits_exec(&nodes[l]);
    }
    let mut j: usize = 0;
    assert(tmx_layer_fits(nodes@, l as int) == forall|i: int|
        0 <= i < chunks@.len() ==> node_block_fits(nodes@[#[trigger] chunks@[i] as int]));
    while j < chunks.len()
        invariant
            j <= chunks@.len(),
            tmx_layer_fits(nodes@, l as int) == forall|i: int|
                0 <= i < chunks@.len() ==> node_block_fits(nodes@[#[trigger] chunks@[i] as int]),
            chunks@ == children_named(nodes@, data as int, "chunk"@),
            forall|i: int| 0 <= i < chunks@.len() ==> (#[trigger] chunks@[i]) < nodes@.len(),
            forall|i: int| 0 <= i < j ==> node_block_fits(nodes@[#[trigger] chunks@[i] as int]),
        decreases chunks.len() - j,
    {
        if !node_block_fits_exec(&nodes[chunks[j]]) {
            return false;
        }
        j = j + 1;
    }
    true
}

/// Whether the blocks of every `<layer>` element fit (see
/// [`tmx_layers_fit`]), as reading the map's layers requires.
pub fn tmx_blocks_fit(nodes: &Vec<XmlNode>) -> (r: bool)
    ensures
        r == tmx_layers_fit(nodes@),
{
    let mut k: usize = 0;
    while k < nodes.len()
        invariant
            k <= nodes@.len(),
            forall|i: int|
                0 <= i < k && (#[trigger] nodes@[i]).is_element && nodes@[i].tag@ == "layer"@
                    ==> tmx_layer_fits(nodes@, i),
        decreases nodes.len() - k,
    {
        if nodes[k].is_element && str_equal(nodes[k].tag.as_str(), "layer") {
            if !tmx_layer_fits_exec(nodes, k) {
                return false;
            }
        }
        k = k + 1;
    }
    true
}

/// The attributes of a TMX `<map>` element, and the element's position.
#[derive(Clone, Copy, Debug, PartialEq, Eq, Structural)]
pub struct TmxMapHeader {
    pub root: usize,
    pub orientation: TilemapOrientation,
    pub stagger_axis: TilemapStaggerAxis,
    pub stagger_index: TilemapStaggerIndex,
    pub render_order: TilemapRenderOrder,
    pub width: u32,
    pub height: u32,
    pub tile_width: u32,
    pub tile_height: u32,
    pub hex_side_length: u32,
    pub infinite: bool,
}

/// The document's root element: the first element child of the document node.
pub open spec fn root_element_of(nodes: Seq<XmlNode>) -> Option<usize> {
    let c = element_children_of(nodes, 0);
    if c.len() > 0 {
        Some(c[0])
    } else {
        None
    }
}

pub open spec fn or_default(v: Option<Seq<char>>, d: Seq<char>) -> Seq<char> {
    match v {
        Some(x) => x,
        None => d,
    }
}

pub open spec fn spec_stagger_axis_of(v: Seq<char>) -> Result<TilemapStaggerAxis, MapFailure> {
    if v == "x"@ {
        Ok(TilemapStaggerAxis::X)
    } else if v == "y"@ {
        Ok(TilemapStaggerAxis::Y)
    } else {
        Err(MapFailure::Data("map"@, GidsFailure::Unsupported("unsupported staggeraxis; expected x or y"@)))
    }
}

pub open spec fn spec_stagger_index_of(v: Seq<char>) -> Result<TilemapStaggerIndex, MapFailure> {
    if v == "odd"@ {
        Ok(TilemapStaggerIndex::Odd)
    } else if v == "even"@ {
        Ok(TilemapStaggerIndex::Even)
    } else {
        Err(
            MapFailure::Data(
                "map"@,
                GidsFailure::Unsupported("unsupported staggerindex; expected odd or even"@),
            ),
        )
    }
}

pub open spec fn spec_render_order_of(v: Seq<char>) -> Result<TilemapRenderOrder, MapFailure> {
    match spec_render_order(v) {
        Some(o) => Ok(o),
        None => Err(
            MapFailure::Data(
                "map"@,
                GidsFailure::Unsupported(
                    if v.len() == 0 {
                        "renderorder is empty"@
                    } else {
                        "unsupported renderorder; expected right-down, right-up, left-down, or left-up"@
                    },
                ),
            ),
        ),
    }
}

pub open spec fn unwrap_or_u32(v: Option<u32>, d: u32) -> u32 {
    match v {
        Some(x) => x,
        None => d,
    }
}

pub open spec fn unwrap_or_bool(v: Option<bool>, d: bool) -> bool {
    match v {
        Some(x) => x,
        None => d,
    }
}

/// The attributes of `<map>` element `n` at position `root`, read in order:
/// the required orientation, the stagger axis (default `y`) and index
/// (default `odd`), the render order (default `right-down`), the required
/// size and tile size, the hexagon side length (default 0), whether the map
/// is infinite (default no), and the decimal parallax origin, checked.
pub open spec fn spec_map_attributes(n: XmlNode, root: usize) -> Result<TmxMapHeader, MapFailure> {
    match malformed(spec_required_attr(n, "orientation"@)) {
        Err(f) => Err(f),
        Ok(o) => match spec_orientation(o) {
            None => Err(MapFailure::Orientation(o)),
            Some(orientation) => match spec_stagger_axis_of(or_default(attr_value(n, "staggeraxis"@), "y"@)) {
                Err(f) => Err(f),
                Ok(stagger_axis) => match spec_stagger_index_of(or_default(attr_value(n, "staggerindex"@), "odd"@)) {
                    Err(f) => Err(f),
                    Ok(stagger_index) => match spec_render_order_of(or_default(attr_value(n, "renderorder"@), "right-down"@)) {
                        Err(f) => Err(f),
                        Ok(render_order) => match malformed(spec_required_u32_attr(n, "width"@)) {
                            Err(f) => Err(f),
                            Ok(width) => match malformed(spec_required_u32_attr(n, "height"@)) {
                                Err(f) => Err(f),
                                Ok(height) => match malformed(spec_required_u32_attr(n, "tilewidth"@)) {
                                    Err(f) => Err(f),
                                    Ok(tile_width) => match malformed(spec_required_u32_attr(n, "tileheight"@)) {
                                        Err(f) => Err(f),
                                        Ok(tile_height) => match malformed(spec_optional_u32_attr(n, "hexsidelength"@)) {
                                            Err(f) => Err(f),
                                            Ok(hex) => match malformed(spec_optional_bool_attr(n, "infinite"@)) {
                                                Err(f) => Err(f),
                                                Ok(infinite) => match malformed(spec_check_f32_attr(n, "parallaxoriginx"@)) {
                                                    Err(f) => Err(f),
                                                    Ok(_) => match malformed(spec_check_f32_attr(n, "parallaxoriginy"@)) {
                                                        Err(f) => Err(f),
                                                        Ok(_) => Ok(
                                                            TmxMapHeader {
                                                                root,
                                                                orientation,
                                                                stagger_axis,
                                                                stagger_index,
                                                                render_order,
                                                                width,
                                                                height,
                                                                tile_width,
                                                                tile_height,
                                                                hex_side_length: unwrap_or_u32(hex, 0),
                                                                infinite: unwrap_or_bool(infinite, false),
                                                            },
                                                        ),
                                                    },
                                                },
                                            },
                                        },
                                    },
                                },
                            },
                        },
                    },
                },
            },
        },
    }
}

/// The header of a TMX document: its root element must be a `<map>`.
pub open spec fn spec_tmx_header(nodes: Seq<XmlNode>) -> Result<TmxMapHeader, MapFailure> {
    match root_element_of(nodes) {
        None => Err(MapFailure::Malformed("TMX root element must be <map>"@)),
        Some(root) => if nodes[root as int].tag@ != "map"@ {
            Err(MapFailure::Malformed("TMX root element must be <map>"@))
        } else {
            spec_map_attributes(nodes[root as int], root)
        },
    }
}

fn map_attributes(node: &XmlNode, root: usize) -> (r: Result<TmxMapHeader, TiledImportError>)
    ensures
        map_outcome(r, spec_map_attributes(*node, root)),
{
    proof {
        reveal_strlit("y");
        reveal_strlit("odd");
        reveal_strlit("right-down");
    }
    let orientation = parse_orientation(required_attr(node, "orientation")?)?;
    let axis: &str = match attribute(node, "staggeraxis") {
        Some(v) => v,
        None => "y",
    };
    let stagger_axis = parse_stagger_axis(axis)?;
    let index: &str = match attribute(node, "staggerindex") {
        Some(v) => v,
        None => "odd",
    };
    let stagger_index = parse_stagger_index(index)?;
    let order: &str = match attribute(node, "renderorder") {
        Some(v) => v,
        None => "right-down",
    };
    let render_order = parse_render_order(order)?;
    let width = required_u32_attr(node, "width")?;
    let height = required_u32_attr(node, "height")?;
    let tile_width = required_u32_attr(node, "tilewidth")?;
    let tile_height = required_u32_attr(node, "tileheight")?;
    let hex_side_length = match optional_u32_attr(node, "hexsidelength")? {
        Some(v) => v,
        None => 0,
    };
    let infinite = match optional_bool_attr(node, "infinite")? {
        Some(v) => v,
        None => false,
    };
    check_f32_attr(node, "parallaxoriginx")?;
    check_f32_attr(node, "parallaxoriginy")?;
    Ok(
        TmxMapHeader {
            root,
            orientation,
            stagger_axis,
            stagger_index,
            render_order,
            width,
            height,
            tile_width,
            tile_height,
            hex_side_length,
            infinite,
        },
    )
}

/// Reads the `<map>` root element of a TMX document (see [`spec_tmx_header`]).
pub fn read_tmx_header(nodes: &Vec<XmlNode>) -> (r: Result<TmxMapHeader, TiledImportError>)
    ensures
        map_outcome(r, spec_tmx_header(nodes@)),
{
    let roots = element_children(nodes, 0);
    if roots.len() == 0 || !str_equal(nodes[roots[0]].tag.as_str(), "map") {
        return Err(TiledImportError::MalformedMap("TMX root element must be <map>".to_owned()));
    }
    map_attributes(&nodes[roots[0]], roots[0])
}

/// The tile layers and object layers of a TMX map, with their properties,
/// read from the children of its `<map>` element at `root` (see
/// [`walk_tmx`]; groups nest at most as deep as the document has nodes),
/// numbered from 0.
pub fn read_tmx_layers(nodes: &Vec<XmlNode>, root: usize) -> (r: Result<ParsedLayers, TiledImportError>)
    requires
        tmx_layers_fit(nodes@),
        property_colors_split_cleanly(nodes@),
    ensures
        match walk_tmx(nodes@, element_children_of(nodes@, root as int), true, empty_walk(), nodes@.len()) {
            Ok(w) => r matches Ok(x) && parsed_layers_view(x) == w,
            Err(f) => r matches Err(e) && map_failure_is(e, f),
        },
{
    let mut acc = ParsedLayers::new();
    collect_tmx_child_layers(nodes, root, true, &mut acc, nodes.len())?;
    Ok(acc)
}

} // verus!
